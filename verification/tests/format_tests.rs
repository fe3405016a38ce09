use rawblow::bytes::fmt_bytes;
use rawblow::color::{hex_str, parse_hex_rgb};
use rawblow::exif::{exif_lines, format_capture_datetime, ExifInfo};
use rawblow::histo::compute_histo;
use rawblow::update::{newer_version, parse_semver, release_tag_from_body, APP_VERSION};

#[test]
fn capture_datetime_uses_dots_for_date_keeps_colons_for_time() {
    assert_eq!(format_capture_datetime("2024:06:03 14:30:45"), "2024.06.03 14:30:45");
    assert_eq!(format_capture_datetime("2024:06:03"), "2024.06.03");
    assert_eq!(format_capture_datetime("2024.06.03 14:30:45"), "2024.06.03 14:30:45");
}

#[test]
fn hex_rgb_roundtrip_and_parsing() {
    assert_eq!(parse_hex_rgb("#808080"), Some([0x80, 0x80, 0x80]));
    assert_eq!(parse_hex_rgb("808080"), Some([0x80, 0x80, 0x80]));
    assert_eq!(parse_hex_rgb("  #FfFfFf "), Some([0xff, 0xff, 0xff]));
    assert_eq!(parse_hex_rgb("#80808"), None);
    assert_eq!(parse_hex_rgb("xyzxyz"), None);
    assert_eq!(parse_hex_rgb(""), None);
    assert_eq!(hex_str([0x1e, 0x1e, 0x1e]), "#1E1E1E");
    assert_eq!(parse_hex_rgb(&hex_str([0x06, 0x07, 0x0a])), Some([0x06, 0x07, 0x0a]));
}

#[test]
fn hex_round_trip_every_grey() {
    for v in 0..=255u8 {
        assert_eq!(parse_hex_rgb(&hex_str([v, 255 - v, v / 2])), Some([v, 255 - v, v / 2]));
    }
}

#[test]
fn compute_histo_empty_and_known() {
    let h = compute_histo(&[]);
    assert_eq!(h.max, 1);
    assert!(h.bins.iter().flatten().all(|&v| v == 0));

    let rgba = [0, 4, 8, 255, 1, 5, 9, 0, 255, 255, 255, 100];
    let h = compute_histo(&rgba);
    assert_eq!(h.bins[0][0], 2);
    assert_eq!(h.bins[0][63], 1);
    assert_eq!(h.bins[1][1], 2);
    assert_eq!(h.bins[1][63], 1);
    assert_eq!(h.bins[2][2], 2);
    assert_eq!(h.bins[2][63], 1);
    for ch in 0..3 {
        assert_eq!(h.bins[ch].iter().sum::<u32>(), 3);
    }
    assert_eq!(h.max, 2);
}

#[test]
fn compute_histo_ignores_trailing_partial_pixel() {
    let rgba = [200, 100, 40, 255, 9, 9];
    let h = compute_histo(&rgba);
    assert_eq!(h.bins[0][50], 1);
    assert_eq!(h.bins[1][25], 1);
    assert_eq!(h.bins[2][10], 1);
    assert_eq!(h.max, 1);
}

#[test]
fn exif_lines_none_and_partial() {
    let empty = ExifInfo::default();
    assert!(exif_lines(&empty).is_empty());

    let ex = ExifInfo {
        camera: Some("Canon EOS R5".into()),
        lens: Some("RF 50mm".into()),
        aperture: Some("f/1.8".into()),
        shutter: Some("1/200".into()),
        iso: Some("400".into()),
        focal_length: Some("50mm".into()),
        datetime: Some("2024:06:03 14:30:45".into()),
    };
    assert_eq!(
        exif_lines(&ex),
        vec![
            "Canon EOS R5".to_string(),
            "RF 50mm".to_string(),
            "f/1.8  1/200s  ISO 400  50mm".to_string(),
            "2024.06.03 14:30:45".to_string(),
        ]
    );

    let iso_only = ExifInfo { iso: Some("100".into()), ..Default::default() };
    assert_eq!(exif_lines(&iso_only), vec!["ISO 100".to_string()]);
}

#[test]
fn fmt_bytes_boundaries_and_rounding() {
    assert_eq!(fmt_bytes(0), "0 B");
    assert_eq!(fmt_bytes(512), "512 B");
    assert_eq!(fmt_bytes(1023), "1023 B");
    assert_eq!(fmt_bytes(1024), "1 KB");
    assert_eq!(fmt_bytes(1_048_575), "1024 KB");
    assert_eq!(fmt_bytes(1_048_576), "1.0 MB");
    assert_eq!(fmt_bytes(1_572_864), "1.5 MB");
    assert_eq!(fmt_bytes(1_073_741_823), "1024.0 MB");
    assert_eq!(fmt_bytes(1_073_741_824), "1.00 GB");
    assert_eq!(fmt_bytes(1_610_612_736), "1.50 GB");
}

#[test]
fn fmt_bytes_matches_float_formatting() {
    let samples: [u64; 12] = [
        1536,
        2047,
        3_000_000,
        5_242_879,
        123_456_789,
        2_147_483_647,
        9_876_543_210,
        u64::MAX,
        9_007_199_254_740_993,
        1_099_511_627_776,
        1_048_575 * 7,
        104_857_600,
    ];
    for n in samples {
        let f = n as f64;
        let expected = if f >= 1024.0 * 1024.0 * 1024.0 {
            format!("{:.2} GB", f / (1024.0 * 1024.0 * 1024.0))
        } else if f >= 1024.0 * 1024.0 {
            format!("{:.1} MB", f / (1024.0 * 1024.0))
        } else if f >= 1024.0 {
            format!("{:.0} KB", f / 1024.0)
        } else {
            format!("{} B", n)
        };
        assert_eq!(fmt_bytes(n), expected, "n = {}", n);
    }
}

#[test]
fn semver_parse_and_compare() {
    assert_eq!(parse_semver("v0.4.3"), Some((0, 4, 3)));
    assert_eq!(parse_semver("0.4.3"), Some((0, 4, 3)));
    assert_eq!(parse_semver("v1.2"), Some((1, 2, 0)));
    assert_eq!(parse_semver("v0.6.0-rc1"), Some((0, 6, 0)));
    assert_eq!(parse_semver("nope"), None);
    assert!(newer_version("v999.0.0").is_some());
    assert!(newer_version("v0.0.1").is_none());
    assert!(newer_version(APP_VERSION).is_none(), "same version is not announced");
}

#[test]
fn semver_edge_cases() {
    assert_eq!(parse_semver("  V2.10.7+build.5 "), Some((2, 10, 7)));
    assert_eq!(parse_semver("3"), Some((3, 0, 0)));
    assert_eq!(parse_semver("1.x.0"), None);
    assert_eq!(parse_semver("4294967296.0.0"), None);
    assert_eq!(newer_version("  v999.0.0 "), Some("v999.0.0".to_string()));
}

#[test]
fn release_tag_is_read_from_the_json_body() {
    assert_eq!(
        release_tag_from_body(r#"{"tag_name": "v1.4.0", "name": "x"}"#),
        Some("v1.4.0".to_string())
    );
    assert_eq!(release_tag_from_body(r#"{"name": "x"}"#), None);
    assert_eq!(release_tag_from_body(r#"{"tag_name": 5}"#), None);
    assert_eq!(release_tag_from_body("not json"), None);
}

#[test]
fn hex_colour_takes_at_most_one_hash() {
    assert_eq!(parse_hex_rgb("##808080"), None);
    assert_eq!(parse_hex_rgb("  ##808080"), None);
    assert_eq!(parse_hex_rgb("# 808080"), None);
    assert_eq!(parse_hex_rgb("808080#"), None);
    assert_eq!(parse_hex_rgb("\t#0a0B0c\n"), Some([0x0a, 0x0b, 0x0c]));
}

#[test]
fn releases_up_to_this_build_are_not_announced() {
    assert_eq!(APP_VERSION, "0.4.7");
    assert!(newer_version("v0.2.0").is_none());
    assert!(newer_version("v0.4.7").is_none());
    assert_eq!(newer_version("v0.4.8"), Some("v0.4.8".to_string()));
    assert_eq!(newer_version("0.5.0-rc1"), Some("0.5.0-rc1".to_string()));
}
