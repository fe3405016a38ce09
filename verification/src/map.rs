//! The GPS mini map: map tiles decoded from PNG and copied, clipped, into the map image.

use vstd::arithmetic::div_mod::{
    lemma_fundamental_div_mod_converse_div, lemma_fundamental_div_mod_converse_mod,
};
use vstd::arithmetic::power2::{
    lemma2_to64, lemma_pow2_adds, lemma_pow2_pos, lemma_pow2_strictly_increases, lemma_pow2_unfold,
    pow2,
};
use vstd::prelude::*;

verus! {

/// An RGBA image, four bytes per pixel, row by row.
pub struct MapImage {
    pub w: u32,
    pub h: u32,
    pub rgba: Vec<u8>,
}

/// Whether `rgba` holds exactly `w` by `h` pixels.
pub open spec fn sized(w: nat, h: nat, rgba: Seq<u8>) -> bool {
    rgba.len() == w * h * 4
}

/// Byte `c` of pixel (`x`, `y`) in an image `w` pixels wide.
pub open spec fn at(w: int, x: int, y: int, c: int) -> int {
    (y * w + x) * 4 + c
}

/// Byte `c` of pixel (`x`, `y`) of the map after copying in a `tw` by `th` tile whose
/// top-left corner lands at (`ox`, `oy`): the tile's byte where the tile covers the pixel,
/// the map's own byte elsewhere.
pub open spec fn blit_value(
    out: Seq<u8>,
    ow: int,
    tw: int,
    th: int,
    tile: Seq<u8>,
    ox: int,
    oy: int,
    x: int,
    y: int,
    c: int,
) -> u8 {
    let sx = x - ox;
    let sy = y - oy;
    if 0 <= sx < tw && 0 <= sy < th {
        tile[at(tw, sx, sy, c)]
    } else {
        out[at(ow, x, y, c)]
    }
}

/// Positions of distinct pixels or channels are distinct bytes.
proof fn lemma_at_injective(w: int, x1: int, y1: int, c1: int, x2: int, y2: int, c2: int)
    requires
        0 <= x1 < w,
        0 <= x2 < w,
        0 <= c1 < 4,
        0 <= c2 < 4,
        0 <= y1,
        0 <= y2,
        at(w, x1, y1, c1) == at(w, x2, y2, c2),
    ensures
        x1 == x2 && y1 == y2 && c1 == c2,
{
    assert(c1 == c2 && y1 * w + x1 == y2 * w + x2) by (nonlinear_arith)
        requires
            (y1 * w + x1) * 4 + c1 == (y2 * w + x2) * 4 + c2,
            0 <= c1 < 4,
            0 <= c2 < 4,
    ;
    assert(y1 == y2 && x1 == x2) by (nonlinear_arith)
        requires
            y1 * w + x1 == y2 * w + x2,
            0 <= x1 < w,
            0 <= x2 < w,
            0 <= y1,
            0 <= y2,
    ;
}

/// Pixel positions inside an image fall inside its bytes.
proof fn lemma_at_bound(w: int, h: int, x: int, y: int, c: int)
    requires
        0 <= x < w,
        0 <= y < h,
        0 <= c < 4,
    ensures
        0 <= at(w, x, y, c) < w * h * 4,
{
    assert(0 <= (y * w + x) * 4 + c < w * h * 4) by (nonlinear_arith)
        requires
            0 <= x < w,
            0 <= y < h,
            0 <= c < 4,
    ;
}

/// Copies the `tw` by `th` tile `tile` into the `ow` by `oh` map `out` with its top-left
/// corner at (`ox`, `oy`), clipped to the map.
pub fn blit(out: &mut Vec<u8>, ow: u32, oh: u32, tile: &MapImage, ox: i64, oy: i64)
    requires
        sized(ow as nat, oh as nat, old(out)@),
        sized(tile.w as nat, tile.h as nat, tile.rgba@),
    ensures
        final(out)@.len() == old(out)@.len(),
        forall|x: int, y: int, c: int|
            0 <= x < ow && 0 <= y < oh && 0 <= c < 4 ==> #[trigger] final(out)@[at(ow as int, x, y, c)]
                == blit_value(old(out)@, ow as int, tile.w as int, tile.h as int, tile.rgba@, ox as int, oy as int, x, y, c),
{
    let ghost out0 = out@;
    let tw = tile.w;
    let th = tile.h;
    let mut ty: u32 = 0;
    while ty < th
        invariant
            ty <= th,
            tw == tile.w,
            th == tile.h,
            sized(ow as nat, oh as nat, out0),
            sized(tw as nat, th as nat, tile.rgba@),
            out@.len() == out0.len(),
            forall|x: int, y: int, c: int|
                0 <= x < ow && 0 <= y < oh && 0 <= c < 4 ==> #[trigger] out@[at(ow as int, x, y, c)]
                    == if y - oy < ty {
                    blit_value(out0, ow as int, tw as int, th as int, tile.rgba@, ox as int, oy as int, x, y, c)
                } else {
                    out0[at(ow as int, x, y, c)]
                },
        decreases th - ty,
    {
        let dy: i128 = oy as i128 + ty as i128;
        if 0 <= dy && dy < oh as i128 {
            let ghost before = out@;
            let dyu = dy as u32;
            let mut x: u32 = 0;
            while x < ow
                invariant
                    ty < th,
                    x <= ow,
                    dyu < oh,
                    dyu as int == oy + ty,
                    tw == tile.w,
                    th == tile.h,
                    sized(ow as nat, oh as nat, out0),
                    sized(tw as nat, th as nat, tile.rgba@),
                    out@.len() == out0.len(),
                    forall|px: int, y: int, c: int|
                        0 <= px < ow && 0 <= y < oh && 0 <= c < 4 ==> #[trigger] out@[at(ow as int, px, y, c)]
                            == if y - oy < ty || (y == dyu && px < x) {
                            blit_value(out0, ow as int, tw as int, th as int, tile.rgba@, ox as int, oy as int, px, y, c)
                        } else {
                            out0[at(ow as int, px, y, c)]
                        },
                decreases ow - x,
            {
                let sx: i128 = x as i128 - ox as i128;
                if 0 <= sx && sx < tw as i128 {
                    let sxu = sx as u32;
                    let mut c: usize = 0;
                    while c < 4
                        invariant
                            ty < th,
                            x < ow,
                            dyu < oh,
                            dyu as int == oy + ty,
                            sxu as int == x - ox,
                            sxu < tw,
                            c <= 4,
                            tw == tile.w,
                            th == tile.h,
                            sized(ow as nat, oh as nat, out0),
                            sized(tw as nat, th as nat, tile.rgba@),
                            out@.len() == out0.len(),
                            forall|px: int, y: int, cc: int|
                                0 <= px < ow && 0 <= y < oh && 0 <= cc < 4 ==> #[trigger] out@[at(ow as int, px, y, cc)]
                                    == if y - oy < ty || (y == dyu && px < x) || (y == dyu && px == x && cc < c) {
                                    blit_value(out0, ow as int, tw as int, th as int, tile.rgba@, ox as int, oy as int, px, y, cc)
                                } else {
                                    out0[at(ow as int, px, y, cc)]
                                },
                        decreases 4 - c,
                    {
                        proof {
                            lemma_at_bound(ow as int, oh as int, x as int, dyu as int, c as int);
                            lemma_at_bound(tw as int, th as int, sxu as int, ty as int, c as int);
                        }
                        assert(out@.len() == out.len());
                        assert(tile.rgba@.len() == tile.rgba.len());
                        let di128: u128 = (dyu as u128 * ow as u128 + x as u128) * 4 + c as u128;
                        let si128: u128 = (ty as u128 * tw as u128 + sxu as u128) * 4 + c as u128;
                        assert(di128 == at(ow as int, x as int, dyu as int, c as int));
                        assert(si128 == at(tw as int, sxu as int, ty as int, c as int));
                        let di = di128 as usize;
                        let si = si128 as usize;
                        let v = tile.rgba[si];
                        let ghost prev = out@;
                        out.set(di, v);
                        proof {
                            assert forall|px: int, y: int, cc: int|
                                0 <= px < ow && 0 <= y < oh && 0 <= cc < 4 implies #[trigger] out@[at(ow as int, px, y, cc)]
                                    == if y - oy < ty || (y == dyu && px < x) || (y == dyu && px == x && cc < c + 1) {
                                    blit_value(out0, ow as int, tw as int, th as int, tile.rgba@, ox as int, oy as int, px, y, cc)
                                } else {
                                    out0[at(ow as int, px, y, cc)]
                                } by {
                                lemma_at_bound(ow as int, oh as int, px, y, cc);
                                if at(ow as int, px, y, cc) == di as int {
                                    lemma_at_injective(ow as int, px, y, cc, x as int, dyu as int, c as int);
                                } else {
                                    assert(prev[at(ow as int, px, y, cc)] == out@[at(ow as int, px, y, cc)]);
                                    if px == x && y == dyu && cc == c {
                                        assert(false);
                                    }
                                }
                            }
                        }
                        c = c + 1;
                    }
                } else {
                    proof {
                        assert forall|px: int, y: int, cc: int|
                            0 <= px < ow && 0 <= y < oh && 0 <= cc < 4 implies #[trigger] out@[at(ow as int, px, y, cc)]
                                == if y - oy < ty || (y == dyu && px < x + 1) {
                                blit_value(out0, ow as int, tw as int, th as int, tile.rgba@, ox as int, oy as int, px, y, cc)
                            } else {
                                out0[at(ow as int, px, y, cc)]
                            } by {}
                    }
                }
                x = x + 1;
            }
        }
        ty = ty + 1;
    }
}

/// The pixels of a PNG file: width, height and RGBA bytes, or nothing if `bytes` is not an
/// image the decoder reads.
pub uninterp spec fn png_pixels(bytes: Seq<u8>) -> Option<(u32, u32, Seq<u8>)>;

/// Trusted wrapper of `image::load_from_memory` followed by `to_rgba8`: decodes an image
/// file held in memory (its format guessed from its contents) and converts it to 8-bit
/// RGBA. Stated: the result is a function of the bytes alone, and a decoded image holds
/// four bytes per pixel.
#[verifier::external_body]
fn decode_rgba(bytes: &[u8]) -> (r: Option<(u32, u32, Vec<u8>)>)
    ensures
        match r {
            Some((w, h, px)) => png_pixels(bytes@) == Some((w, h, px@)) && px@.len() == w * h * 4,
            None => png_pixels(bytes@) is None,
        },
{
    match image::load_from_memory(bytes) {
        Ok(img) => {
            let t = img.to_rgba8();
            Some((t.width(), t.height(), t.into_raw()))
        },
        Err(_) => None,
    }
}

/// A map tile decoded from its PNG bytes, or nothing if they are not an image.
pub fn decode_tile(png: &[u8]) -> (r: Option<MapImage>)
    ensures
        match r {
            Some(t) => png_pixels(png@) == Some((t.w, t.h, t.rgba@)) && sized(t.w as nat, t.h as nat, t.rgba@),
            None => png_pixels(png@) is None,
        },
{
    match decode_rgba(png) {
        Some((w, h, rgba)) => Some(MapImage { w, h, rgba }),
        None => None,
    }
}

// ---------------------------------------------------------------- which tiles

/// First map row a request for rows from `y0` covers (rows above 0 are beyond the pole).
pub open spec fn row_lo(y0: i64) -> int {
    if y0 < 0 {
        0
    } else {
        y0 as int
    }
}

/// Last map row a request for rows up to `y1` covers at zoom `z` (`2^z` rows).
pub open spec fn row_hi(z: u8, y1: i64) -> int {
    if y1 >= pow2(z as nat) {
        pow2(z as nat) - 1
    } else {
        y1 as int
    }
}

/// Number of whole numbers from `lo` to `hi`.
pub open spec fn span(lo: int, hi: int) -> int {
    if hi >= lo {
        hi - lo + 1
    } else {
        0
    }
}

/// Entry `k` of the tile list: the column wrapped around the world, the row, and the
/// unwrapped column (which places the tile).
pub open spec fn tile_entry(z: u8, x0: i64, y0: i64, cols: int, k: int) -> (i64, i64, i64) {
    let tx = x0 + k % cols;
    let ty = row_lo(y0) + k / cols;
    ((tx % (pow2(z as nat) as int)) as i64, ty as i64, tx as i64)
}

/// The tiles of the zoom-`z` grid covering columns `x0..=x1` and rows `y0..=y1`, row by
/// row: rows beyond the poles are left out and columns wrap around the world.
pub fn tile_plan(z: u8, x0: i64, y0: i64, x1: i64, y1: i64) -> (r: Vec<(i64, i64, i64)>)
    requires
        z < 63,
        span(row_lo(y0), row_hi(z, y1)) * span(x0 as int, x1 as int) <= usize::MAX,
    ensures
        r@.len() == span(row_lo(y0), row_hi(z, y1)) * span(x0 as int, x1 as int),
        forall|k: int|
            0 <= k < r@.len() ==> #[trigger] r@[k] == tile_entry(
                z,
                x0,
                y0,
                span(x0 as int, x1 as int),
                k,
            ),
{
    let mut n: i64 = 1;
    let mut i: u8 = 0;
    proof {
        lemma2_to64();
    }
    while i < z
        invariant
            i <= z < 63,
            n == pow2(i as nat),
        decreases z - i,
    {
        proof {
            lemma_pow2_unfold((i + 1) as nat);
            lemma_pow2_strictly_increases((i + 1) as nat, 63);
            lemma2_to64();
            lemma_pow2_adds(32, 31);
        }
        n = n * 2;
        i = i + 1;
    }
    proof {
        lemma_pow2_pos(z as nat);
    }
    let ylo: i64 = if y0 < 0 {
        0
    } else {
        y0
    };
    let yhi: i64 = if y1 >= n {
        n - 1
    } else {
        y1
    };
    let cols: i128 = if x1 >= x0 {
        x1 as i128 - x0 as i128 + 1
    } else {
        0
    };
    let ghost rows = span(ylo as int, yhi as int);
    let mut r: Vec<(i64, i64, i64)> = Vec::new();
    if yhi < ylo || cols == 0 {
        proof {
            assert(rows * cols == 0) by (nonlinear_arith)
                requires
                    rows == 0 || cols == 0,
            ;
        }
        return r;
    }
    let mut ty: i64 = ylo;
    while ty <= yhi
        invariant
            ylo <= ty <= yhi + 1,
            yhi < n,
            n == pow2(z as nat),
            n > 0,
            ylo == row_lo(y0),
            yhi == row_hi(z, y1),
            cols == span(x0 as int, x1 as int),
            cols >= 1,
            rows == span(ylo as int, yhi as int),
            rows * cols <= usize::MAX,
            r@.len() == (ty - ylo) * cols,
            forall|k: int| 0 <= k < r@.len() ==> #[trigger] r@[k] == tile_entry(z, x0, y0, cols as int, k),
        decreases yhi - ty + 1,
    {
        let mut j: i128 = 0;
        while j < cols
            invariant
                0 <= j <= cols,
                ylo <= ty <= yhi,
                yhi < n,
                n == pow2(z as nat),
                n > 0,
                ylo == row_lo(y0),
                cols == span(x0 as int, x1 as int),
                cols >= 1,
                rows == span(ylo as int, yhi as int),
                rows * cols <= usize::MAX,
                r@.len() == (ty - ylo) * cols + j,
                forall|k: int| 0 <= k < r@.len() ==> #[trigger] r@[k] == tile_entry(z, x0, y0, cols as int, k),
            decreases cols - j,
        {
            proof {
                assert((ty - ylo) * cols + j < rows * cols) by (nonlinear_arith)
                    requires
                        0 <= j < cols,
                        ty - ylo + 1 <= rows,
                        ty >= ylo,
                ;
            }
            let tx = (x0 as i128 + j) as i64;
            let wrapped = match tx.checked_rem_euclid(n) {
                Some(w) => w,
                None => 0,
            };
            let ghost k = (ty - ylo) * cols + j;
            proof {
                lemma_fundamental_div_mod_converse_div(k, cols as int, (ty - ylo) as int, j as int);
                lemma_fundamental_div_mod_converse_mod(k, cols as int, (ty - ylo) as int, j as int);
                assert(tile_entry(z, x0, y0, cols as int, k) == (wrapped, ty, tx));
            }
            r.push((wrapped, ty, tx));
            j = j + 1;
        }
        proof {
            assert((ty - ylo) * cols + cols == (ty + 1 - ylo) * cols) by (nonlinear_arith);
        }
        ty = ty + 1;
    }
    r
}

} // verus!
