use rawblow::checksum::{checksum_matches, lower_hex, DownloadCheck};
use rawblow::fonts::accept_font;
use rawblow::binary32::{
    clamp, from_bits, gt, lt, max, min, minus, plus, quotient, round, sqrt, times, to_bits, to_u8,
};
use rawblow::licenses::{CrateEntry, Doc, LicensesPage};
use rawblow::logo::{icon_rgba, icon_rgba_inset};
use rawblow::map::{blit, decode_tile, tile_plan, MapImage};

#[test]
fn blit_clips() {
    let mut out = vec![0u8; 64 * 64 * 4];
    let tile = MapImage { w: 256, h: 256, rgba: [255u8, 0, 0, 255].repeat(256 * 256) };
    blit(&mut out, 64, 64, &tile, -200, -200);
    blit(&mut out, 64, 64, &tile, 60, 60);
    assert_eq!(&out[0..4], &[255, 0, 0, 255]);
    let last = (63 * 64 + 63) * 4;
    assert_eq!(&out[last..last + 4], &[255, 0, 0, 255]);
    // between the two tiles nothing is drawn
    let mid = (57 * 64 + 57) * 4;
    assert_eq!(&out[mid..mid + 4], &[0, 0, 0, 0]);
}

#[test]
fn blit_places_tile_pixels_at_their_offset() {
    let mut out = vec![7u8; 4 * 3 * 4];
    let mut px = Vec::new();
    for i in 0..4u8 {
        px.extend_from_slice(&[i, i + 10, i + 20, 255]);
    }
    let tile = MapImage { w: 2, h: 2, rgba: px };
    blit(&mut out, 4, 3, &tile, 3, 2);
    // only tile pixel (0,0) lands inside, at (3,2)
    let at = |x: usize, y: usize| (y * 4 + x) * 4;
    assert_eq!(&out[at(3, 2)..at(3, 2) + 4], &[0, 10, 20, 255]);
    assert_eq!(&out[at(2, 2)..at(2, 2) + 4], &[7, 7, 7, 7]);
    assert_eq!(out.iter().filter(|&&b| b == 7).count(), 4 * 3 * 4 - 4);
}

#[test]
fn decode_tile_rejects_garbage() {
    assert!(decode_tile(b"not a png").is_none());
    assert!(decode_tile(&[]).is_none());
}

#[test]
fn decode_tile_reads_a_png() {
    // 1x1 red PNG
    let png: [u8; 69] = [
        0x89, 0x50, 0x4e, 0x47, 0x0d, 0x0a, 0x1a, 0x0a, 0x00, 0x00, 0x00, 0x0d, 0x49, 0x48, 0x44, 0x52, 0x00, 0x00,
        0x00, 0x01, 0x00, 0x00, 0x00, 0x01, 0x08, 0x02, 0x00, 0x00, 0x00, 0x90, 0x77, 0x53, 0xde, 0x00, 0x00, 0x00,
        0x0c, 0x49, 0x44, 0x41, 0x54, 0x08, 0xd7, 0x63, 0xf8, 0xcf, 0xc0, 0x00, 0x00, 0x03, 0x01, 0x01, 0x00, 0x18,
        0xdd, 0x8d, 0xb0, 0x00, 0x00, 0x00, 0x00, 0x49, 0x45, 0x4e, 0x44, 0xae, 0x42, 0x60, 0x82,
    ];
    let t = decode_tile(&png).expect("a 1x1 PNG");
    assert_eq!((t.w, t.h), (1, 1));
    assert_eq!(t.rgba, vec![255, 0, 0, 255]);
}

fn lcg(state: &mut u64) -> u32 {
    *state = state.wrapping_mul(6364136223846793005).wrapping_add(1442695040888963407);
    (*state >> 32) as u32
}

fn interesting(state: &mut u64) -> f32 {
    let k = lcg(state) % 6;
    match k {
        0 => f32::from_bits(lcg(state)),
        1 => (lcg(state) % 4096) as f32 + 0.5,
        2 => (lcg(state) % 1000) as f32 / 7.0,
        3 => f32::from_bits(lcg(state) % 0x0100_0000),
        4 => -((lcg(state) % 300) as f32) * 0.25,
        _ => f32::from_bits(0x3f80_0000 + lcg(state) % 0x0080_0000),
    }
}

fn same(a: f32, b_bits: u32) -> bool {
    if a.is_nan() {
        f32::from_bits(b_bits).is_nan()
    } else {
        a.to_bits() == b_bits
    }
}

#[test]
fn binary32_matches_hardware_arithmetic() {
    let mut st = 0x1234_5678_9abc_def0u64;
    for _ in 0..200_000 {
        let a = interesting(&mut st);
        let b = interesting(&mut st);
        let (x, y) = (from_bits(a.to_bits()), from_bits(b.to_bits()));
        assert!(same(a + b, to_bits(plus(x, y))), "{:e} + {:e}", a, b);
        assert!(same(a - b, to_bits(minus(x, y))), "{:e} - {:e}", a, b);
        assert!(same(a * b, to_bits(times(x, y))), "{:e} * {:e}", a, b);
        assert!(same(a / b, to_bits(quotient(x, y))), "{:e} / {:e}", a, b);
        assert!(same(a.sqrt(), to_bits(sqrt(x))), "sqrt {:e}", a);
        assert!(same(a.round(), to_bits(round(x))), "round {:e}", a);
        assert_eq!(a as u8, to_u8(x), "{:e} as u8", a);
    }
}

#[test]
fn binary32_comparisons_match_hardware() {
    let mut st = 0x0fed_cba9_8765_4321u64;
    for _ in 0..100_000 {
        let a = interesting(&mut st);
        let b = interesting(&mut st);
        let c = interesting(&mut st);
        let (x, y, z) = (from_bits(a.to_bits()), from_bits(b.to_bits()), from_bits(c.to_bits()));
        assert_eq!(a < b, lt(x, y), "{:e} < {:e}", a, b);
        assert_eq!(a > b, gt(x, y), "{:e} > {:e}", a, b);
        assert!(same(a.min(b), to_bits(min(x, y))) || (a == b), "min {:e} {:e}", a, b);
        assert!(same(a.max(b), to_bits(max(x, y))) || (a == b), "max {:e} {:e}", a, b);
        if !a.is_nan() {
            assert_eq!(to_bits(x), a.to_bits());
        }
        if b <= c {
            let mut v = a;
            if v < b {
                v = b;
            }
            if v > c {
                v = c;
            }
            assert!(same(v, to_bits(clamp(x, y, z))), "clamp {:e} {:e} {:e}", a, b, c);
        }
    }
}

#[test]
fn binary32_signed_zeros_compare_equal() {
    let pz = from_bits(0x0000_0000);
    let nz = from_bits(0x8000_0000);
    assert!(!lt(pz, nz) && !lt(nz, pz));
    assert_eq!(to_bits(nz), 0x8000_0000);
    let nan = from_bits(0x7fc0_0000);
    let one = from_bits(0x3f80_0000);
    assert_eq!(to_bits(min(nan, one)), 0x3f80_0000);
    assert_eq!(to_bits(max(one, nan)), 0x3f80_0000);
    assert_eq!(to_u8(from_bits(0x4380_0000)), 255);
    assert_eq!(to_u8(from_bits(0xbf80_0000)), 0);
}

// The renderer as written with hardware floats, for comparison.
fn sdf_round_rect(px: f32, py: f32, w: f32, h: f32, r: f32) -> f32 {
    let (cx, cy) = (w * 0.5, h * 0.5);
    let qx = (px - cx).abs() - (cx - r);
    let qy = (py - cy).abs() - (cy - r);
    let (ax, ay) = (qx.max(0.0), qy.max(0.0));
    (ax * ax + ay * ay).sqrt() + qx.max(qy).min(0.0) - r
}

fn sdf_segment(px: f32, py: f32, x0: f32, y0: f32, x1: f32, y1: f32) -> f32 {
    let (pax, pay) = (px - x0, py - y0);
    let (bax, bay) = (x1 - x0, y1 - y0);
    let denom = bax * bax + bay * bay;
    let h = if denom > 0.0 { ((pax * bax + pay * bay) / denom).clamp(0.0, 1.0) } else { 0.0 };
    let (dx, dy) = (pax - bax * h, pay - bay * h);
    (dx * dx + dy * dy).sqrt()
}

fn reference_icon(size: u32) -> Vec<u8> {
    reference_icon_inset(size, 0.0)
}

fn reference_icon_inset(size: u32, margin: f32) -> Vec<u8> {
    let chev: [[u8; 3]; 3] = [[0x3a, 0x7b, 0xd5], [0x6a, 0xb8, 0xff], [0x8e, 0xc9, 0xff]];
    let chev_x: [f32; 3] = [16.0, 28.0, 40.0];
    let n = size as usize;
    let mut buf = vec![0u8; n * n * 4];
    let off = size as f32 * margin;
    let inner = size as f32 * (1.0 - 2.0 * margin);
    let s = inner / 64.0;
    let r_box = 14.0 * s;
    let stroke_r = 2.0 * s;
    let seg = |x: f32| {
        [
            (off + x * s, off + 20.0 * s, off + (x + 12.0) * s, off + 32.0 * s),
            (off + (x + 12.0) * s, off + 32.0 * s, off + x * s, off + 44.0 * s),
        ]
    };
    let chevs = [seg(chev_x[0]), seg(chev_x[1]), seg(chev_x[2])];
    for py in 0..n {
        for px in 0..n {
            let fx = px as f32 + 0.5;
            let fy = py as f32 + 0.5;
            let cov_box = (0.5 - sdf_round_rect(fx - off, fy - off, inner, inner, r_box)).clamp(0.0, 1.0);
            let (mut r, mut g, mut b) = (0x0e as f32, 0x12 as f32, 0x18 as f32);
            let mut a = cov_box;
            for (ci, segs) in chevs.iter().enumerate() {
                let mut d = f32::MAX;
                for &(x0, y0, x1, y1) in segs.iter() {
                    d = d.min(sdf_segment(fx, fy, x0, y0, x1, y1));
                }
                let cov = (stroke_r - d + 0.5).clamp(0.0, 1.0);
                if cov > 0.0 {
                    let col = chev[ci];
                    let out_a = cov + a * (1.0 - cov);
                    if out_a > 0.0 {
                        r = (col[0] as f32 * cov + r * a * (1.0 - cov)) / out_a;
                        g = (col[1] as f32 * cov + g * a * (1.0 - cov)) / out_a;
                        b = (col[2] as f32 * cov + b * a * (1.0 - cov)) / out_a;
                    }
                    a = out_a;
                }
            }
            let o = (py * n + px) * 4;
            buf[o] = r.round() as u8;
            buf[o + 1] = g.round() as u8;
            buf[o + 2] = b.round() as u8;
            buf[o + 3] = (a * 255.0).round().clamp(0.0, 255.0) as u8;
        }
    }
    buf
}

#[test]
fn icon_matches_the_float_renderer() {
    for size in [0u32, 1, 16, 32, 48, 64, 100] {
        assert_eq!(icon_rgba(size), reference_icon(size), "size {}", size);
    }
}

#[test]
fn inset_icon_matches_the_float_renderer() {
    let margin = 100.0f32 / 1024.0;
    for size in [16u32, 32, 64, 100] {
        assert_eq!(icon_rgba_inset(size, from_bits(margin.to_bits())), reference_icon_inset(size, margin), "size {}", size);
    }
    assert_eq!(icon_rgba_inset(48, from_bits(0)), icon_rgba(48));
}

#[test]
fn icon_corners_are_transparent_and_centre_opaque() {
    let px = icon_rgba(64);
    assert_eq!(px.len(), 64 * 64 * 4);
    assert_eq!(px[3], 0);
    let c = (32 * 64 + 8) * 4;
    assert_eq!(px[c + 3], 255);
}

#[test]
fn license_page_lists_by_search() {
    let entry = |n: &str, l: &str, t: Vec<usize>| CrateEntry {
        n: n.to_string(),
        v: "1.0.0".to_string(),
        l: l.to_string(),
        r: None,
        t,
    };
    let doc = Doc {
        generated: "2024-06-03".to_string(),
        crates: vec![
            entry("rawloader", "LGPL-2.1", vec![0]),
            entry("serde", "MIT OR Apache-2.0", vec![1, 9]),
            entry("Multicache", "LGPL-3.0", vec![0, 1]),
        ],
        texts: vec!["lgpl text".to_string(), "mit text".to_string()],
    };
    let mut page = LicensesPage::with_doc(doc);
    assert_eq!(page.listed_crates(), vec![0, 1, 2]);
    page.filter = "lgpl".to_string();
    assert_eq!(page.listed_crates(), vec![0, 2]);
    page.filter = "MULTI".to_string();
    assert_eq!(page.listed_crates(), vec![2]);
    page.selected = 1;
    assert_eq!(page.shown_texts(), vec![1]);
    page.selected = 7;
    assert!(page.shown_texts().is_empty());
}

#[test]
fn model_checksums_compare_lowercase_hex() {
    assert_eq!(lower_hex(&[0x00, 0x0f, 0xa0, 0xff]), "000fa0ff");
    assert!(checksum_matches(&[0xde, 0xad, 0xbe, 0xef], "deadbeef"));
    assert!(!checksum_matches(&[0xde, 0xad, 0xbe, 0xef], "DEADBEEF"));
    assert!(!checksum_matches(&[0xde, 0xad], "deadbeef"));
}

#[test]
fn fonts_of_the_same_size_are_loaded_once() {
    assert!(accept_font(&vec![], 10));
    assert!(!accept_font(&vec![], 0));
    assert!(!accept_font(&vec![10, 20], 20));
    assert!(accept_font(&vec![10, 20], 30));
}

#[test]
fn tile_plan_wraps_columns_and_skips_polar_rows() {
    let plan = tile_plan(1, -1, -1, 1, 2);
    assert_eq!(
        plan,
        vec![(1, 0, -1), (0, 0, 0), (1, 0, 1), (1, 1, -1), (0, 1, 0), (1, 1, 1)]
    );
    assert_eq!(tile_plan(0, 0, 0, 0, 0), vec![(0, 0, 0)]);
    assert_eq!(tile_plan(3, 5, 8, 6, 9), vec![]);
    assert_eq!(tile_plan(3, 2, 3, 1, 3), vec![]);
    assert_eq!(tile_plan(2, 3, -5, 4, 0), vec![(3, 0, 3), (0, 0, 4)]);
}

#[test]
fn download_check_hashes_the_bytes_as_they_arrive() {
    // SHA-256 of "abc", fed in two pieces
    let abc = "ba7816bf8f01cfea414140de5dae2223b00361a396177a9cb410ff61f20015ad";
    let mut c = DownloadCheck::new(abc);
    c.feed(b"a");
    c.feed(b"bc");
    assert_eq!(c.finish(), Ok(()));
    // nothing fed: the digest of the empty file
    let empty = "e3b0c44298fc1c149afbf4c8996fb92427ae41e4649b934ca495991b7852b855";
    assert_eq!(DownloadCheck::new(empty).finish(), Ok(()));
    // a mismatch reports the digest the bytes have
    let mut d = DownloadCheck::new(empty);
    d.feed(b"abc");
    assert_eq!(d.finish(), Err(abc.to_string()));
    // the published digest is compared as lowercase hexadecimal
    let mut e = DownloadCheck::new(&abc.to_uppercase());
    e.feed(b"abc");
    assert_eq!(e.finish(), Err(abc.to_string()));
}
