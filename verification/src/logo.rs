//! The RawBlow mark rasterized for the window icon: a dark rounded box with three chevrons
//! in brightening blues, anti-aliased by signed distance, computed in binary32 exactly as
//! the hardware computes it.
//!
//! The specification below is the drawing formula itself, written with the binary32
//! operations of [`crate::binary32`], each of which is proved to round as IEEE 754 does.

use crate::binary32::{
    abs, absolute, clamp, clamp_spec, from_u32, gt, half_of, lt_spec, max, max_spec, max_value,
    min, min_spec, minus, minus_val, plus, plus_val, quotient, quotient_val, round, round_val,
    from_bits_spec, lemma_zero_rounds_to_positive_zero, rounded, sqrt, sqrt_val, times, times_val, to_u8, to_u8_spec, unit, wf, B32,
};
use vstd::arithmetic::div_mod::{
    lemma_fundamental_div_mod_converse_div, lemma_fundamental_div_mod_converse_mod,
};
use vstd::prelude::*;

verus! {

// ---------------------------------------------------------------- the drawing, stated

/// `n as f32`.
pub open spec fn f32_of(n: nat) -> B32 {
    rounded(false, n * unit(0))
}

/// `0.5`.
pub open spec fn one_half() -> B32 {
    rounded(false, unit(-1))
}

/// `f32::MAX`.
pub open spec fn f32_max() -> B32 {
    B32::Fin { neg: false, m: 0xff_ffff, e: 104 }
}

/// Channel `c` of the box fill.
pub open spec fn box_rgb(c: int) -> nat {
    if c == 0 {
        0x0e
    } else if c == 1 {
        0x12
    } else {
        0x18
    }
}

/// Channel `c` of chevron `ci` (back to front).
pub open spec fn chevron_rgb(ci: int, c: int) -> nat {
    if ci == 0 {
        if c == 0 {
            0x3a
        } else if c == 1 {
            0x7b
        } else {
            0xd5
        }
    } else if ci == 1 {
        if c == 0 {
            0x6a
        } else if c == 1 {
            0xb8
        } else {
            0xff
        }
    } else {
        if c == 0 {
            0x8e
        } else if c == 1 {
            0xc9
        } else {
            0xff
        }
    }
}

/// Left x of chevron `ci` in the 64-unit view box.
pub open spec fn chevron_x(ci: int) -> nat {
    (16 + 12 * ci) as nat
}

/// Signed distance from (`px`, `py`) to a `w` by `h` rectangle with corners rounded by `r`
/// whose top-left corner is the origin; negative inside.
pub open spec fn round_rect_dist(px: B32, py: B32, w: B32, h: B32, r: B32) -> B32 {
    let zero = f32_of(0);
    let cx = times_val(w, one_half());
    let cy = times_val(h, one_half());
    let qx = minus_val(absolute(minus_val(px, cx)), minus_val(cx, r));
    let qy = minus_val(absolute(minus_val(py, cy)), minus_val(cy, r));
    let ax = max_spec(qx, zero);
    let ay = max_spec(qy, zero);
    minus_val(
        plus_val(
            sqrt_val(plus_val(times_val(ax, ax), times_val(ay, ay))),
            min_spec(max_spec(qx, qy), zero),
        ),
        r,
    )
}

/// Distance from (`px`, `py`) to the segment from (`x0`, `y0`) to (`x1`, `y1`).
pub open spec fn segment_dist(px: B32, py: B32, x0: B32, y0: B32, x1: B32, y1: B32) -> B32 {
    let zero = f32_of(0);
    let pax = minus_val(px, x0);
    let pay = minus_val(py, y0);
    let bax = minus_val(x1, x0);
    let bay = minus_val(y1, y0);
    let denom = plus_val(times_val(bax, bax), times_val(bay, bay));
    let h = if lt_spec(zero, denom) {
        clamp_spec(
            quotient_val(plus_val(times_val(pax, bax), times_val(pay, bay)), denom),
            zero,
            f32_of(1),
        )
    } else {
        zero
    };
    let dx = minus_val(pax, times_val(bax, h));
    let dy = minus_val(pay, times_val(bay, h));
    sqrt_val(plus_val(times_val(dx, dx), times_val(dy, dy)))
}

/// Stroke `k` of the chevron whose left x is `x` units: from (x, 20) to (x + 12, 32), then
/// on to (x, 44); scaled by `s` and moved by `off`.
pub open spec fn stroke(x: nat, s: B32, off: B32, k: int) -> (B32, B32, B32, B32) {
    let fx = f32_of(x);
    let x12 = plus_val(fx, f32_of(12));
    if k == 0 {
        (
            plus_val(off, times_val(fx, s)),
            plus_val(off, times_val(f32_of(20), s)),
            plus_val(off, times_val(x12, s)),
            plus_val(off, times_val(f32_of(32), s)),
        )
    } else {
        (
            plus_val(off, times_val(x12, s)),
            plus_val(off, times_val(f32_of(32), s)),
            plus_val(off, times_val(fx, s)),
            plus_val(off, times_val(f32_of(44), s)),
        )
    }
}

/// Offset of the mark: `margin` of the canvas.
pub open spec fn icon_off(size: u32, margin: B32) -> B32 {
    times_val(f32_of(size as nat), margin)
}

/// Side of the mark's square.
pub open spec fn icon_inner(size: u32, margin: B32) -> B32 {
    times_val(f32_of(size as nat), minus_val(f32_of(1), times_val(f32_of(2), margin)))
}

/// Pixels per view-box unit.
pub open spec fn icon_scale(size: u32, margin: B32) -> B32 {
    quotient_val(icon_inner(size, margin), f32_of(64))
}

/// Corner radius of the box.
pub open spec fn icon_corner(size: u32, margin: B32) -> B32 {
    times_val(f32_of(14), icon_scale(size, margin))
}

/// Half the stroke width.
pub open spec fn icon_stroke(size: u32, margin: B32) -> B32 {
    times_val(f32_of(2), icon_scale(size, margin))
}

/// Centre of pixel `p` along an axis.
pub open spec fn centre(p: nat) -> B32 {
    plus_val(f32_of(p), one_half())
}

/// Coverage of the box at pixel (`px`, `py`).
pub open spec fn box_cover(size: u32, margin: B32, px: nat, py: nat) -> B32 {
    let off = icon_off(size, margin);
    let inner = icon_inner(size, margin);
    clamp_spec(
        minus_val(
            one_half(),
            round_rect_dist(
                minus_val(centre(px), off),
                minus_val(centre(py), off),
                inner,
                inner,
                icon_corner(size, margin),
            ),
        ),
        f32_of(0),
        f32_of(1),
    )
}

/// Distance from (`fx`, `fy`) to chevron `ci`: the nearer of its two strokes.
pub open spec fn chevron_dist(size: u32, margin: B32, ci: int, fx: B32, fy: B32) -> B32 {
    let s0 = stroke(chevron_x(ci), icon_scale(size, margin), icon_off(size, margin), 0);
    let s1 = stroke(chevron_x(ci), icon_scale(size, margin), icon_off(size, margin), 1);
    min_spec(
        min_spec(f32_max(), segment_dist(fx, fy, s0.0, s0.1, s0.2, s0.3)),
        segment_dist(fx, fy, s1.0, s1.1, s1.2, s1.3),
    )
}

/// Chevron `ci` laid over colour `c` (straight alpha) at (`fx`, `fy`).
pub open spec fn blend(c: (B32, B32, B32, B32), size: u32, margin: B32, ci: int, fx: B32, fy: B32) -> (
    B32,
    B32,
    B32,
    B32,
) {
    let zero = f32_of(0);
    let one = f32_of(1);
    let cov = clamp_spec(
        plus_val(minus_val(icon_stroke(size, margin), chevron_dist(size, margin, ci, fx, fy)), one_half()),
        zero,
        one,
    );
    if lt_spec(zero, cov) {
        let keep = minus_val(one, cov);
        let out_a = plus_val(cov, times_val(c.3, keep));
        if lt_spec(zero, out_a) {
            (
                quotient_val(
                    plus_val(
                        times_val(f32_of(chevron_rgb(ci, 0)), cov),
                        times_val(times_val(c.0, c.3), keep),
                    ),
                    out_a,
                ),
                quotient_val(
                    plus_val(
                        times_val(f32_of(chevron_rgb(ci, 1)), cov),
                        times_val(times_val(c.1, c.3), keep),
                    ),
                    out_a,
                ),
                quotient_val(
                    plus_val(
                        times_val(f32_of(chevron_rgb(ci, 2)), cov),
                        times_val(times_val(c.2, c.3), keep),
                    ),
                    out_a,
                ),
                out_a,
            )
        } else {
            (c.0, c.1, c.2, out_a)
        }
    } else {
        c
    }
}

/// Colour of pixel (`px`, `py`) after the box and the first `n` chevrons.
pub open spec fn paint(size: u32, margin: B32, px: nat, py: nat, n: nat) -> (B32, B32, B32, B32)
    decreases n,
{
    if n == 0 {
        (
            f32_of(box_rgb(0)),
            f32_of(box_rgb(1)),
            f32_of(box_rgb(2)),
            box_cover(size, margin, px, py),
        )
    } else {
        blend(paint(size, margin, px, py, (n - 1) as nat), size, margin, n - 1, centre(px), centre(py))
    }
}

/// Byte `c` (red, green, blue, alpha) of pixel (`px`, `py`).
pub open spec fn icon_byte(size: u32, margin: B32, px: nat, py: nat, c: int) -> u8 {
    let p = paint(size, margin, px, py, 3);
    if c == 0 {
        to_u8_spec(round_val(p.0))
    } else if c == 1 {
        to_u8_spec(round_val(p.1))
    } else if c == 2 {
        to_u8_spec(round_val(p.2))
    } else {
        to_u8_spec(
            clamp_spec(round_val(times_val(p.3, f32_of(255))), f32_of(0), f32_of(255)),
        )
    }
}

// ---------------------------------------------------------------- the drawing, computed

fn round_rect_sdf(px: B32, py: B32, w: B32, h: B32, r: B32) -> (d: B32)
    requires
        wf(px),
        wf(py),
        wf(w),
        wf(h),
        wf(r),
    ensures
        wf(d),
        d == round_rect_dist(px, py, w, h, r),
{
    let half = half_of(1);
    let zero = from_u32(0);
    assert(1 * unit(-1) == unit(-1));
    let cx = times(w, half);
    let cy = times(h, half);
    let qx = minus(abs(minus(px, cx)), minus(cx, r));
    let qy = minus(abs(minus(py, cy)), minus(cy, r));
    let ax = max(qx, zero);
    let ay = max(qy, zero);
    minus(plus(sqrt(plus(times(ax, ax), times(ay, ay))), min(max(qx, qy), zero)), r)
}

fn segment_sdf(px: B32, py: B32, x0: B32, y0: B32, x1: B32, y1: B32) -> (d: B32)
    requires
        wf(px),
        wf(py),
        wf(x0),
        wf(y0),
        wf(x1),
        wf(y1),
    ensures
        wf(d),
        d == segment_dist(px, py, x0, y0, x1, y1),
{
    let zero = from_u32(0);
    let one = from_u32(1);
    let pax = minus(px, x0);
    let pay = minus(py, y0);
    let bax = minus(x1, x0);
    let bay = minus(y1, y0);
    let denom = plus(times(bax, bax), times(bay, bay));
    let h = if gt(denom, zero) {
        clamp(quotient(plus(times(pax, bax), times(pay, bay)), denom), zero, one)
    } else {
        zero
    };
    let dx = minus(pax, times(bax, h));
    let dy = minus(pay, times(bay, h));
    sqrt(plus(times(dx, dx), times(dy, dy)))
}

/// Stroke `k` of the chevron whose left x is `x` units (see [`stroke`]).
fn chevron_stroke(x: u32, s: B32, off: B32, k: usize) -> (seg: (B32, B32, B32, B32))
    requires
        x <= 64,
        k < 2,
        wf(s),
        wf(off),
    ensures
        wf(seg.0) && wf(seg.1) && wf(seg.2) && wf(seg.3),
        seg == stroke(x as nat, s, off, k as int),
{
    let fx = from_u32(x);
    let x12 = plus(fx, from_u32(12));
    if k == 0 {
        (
            plus(off, times(fx, s)),
            plus(off, times(from_u32(20), s)),
            plus(off, times(x12, s)),
            plus(off, times(from_u32(32), s)),
        )
    } else {
        (
            plus(off, times(x12, s)),
            plus(off, times(from_u32(32), s)),
            plus(off, times(fx, s)),
            plus(off, times(from_u32(44), s)),
        )
    }
}

/// Channel `c` of chevron `ci`.
fn chevron_channel(ci: usize, c: usize) -> (v: u32)
    requires
        ci < 3,
        c < 3,
    ensures
        v == chevron_rgb(ci as int, c as int),
{
    if ci == 0 {
        if c == 0 {
            0x3a
        } else if c == 1 {
            0x7b
        } else {
            0xd5
        }
    } else if ci == 1 {
        if c == 0 {
            0x6a
        } else if c == 1 {
            0xb8
        } else {
            0xff
        }
    } else {
        if c == 0 {
            0x8e
        } else if c == 1 {
            0xc9
        } else {
            0xff
        }
    }
}

/// The colour of pixel (`px`, `py`) (see [`paint`]).
fn paint_pixel(size: u32, margin: B32, px: u32, py: u32) -> (p: (B32, B32, B32, B32))
    requires
        wf(margin),
    ensures
        wf(p.0) && wf(p.1) && wf(p.2) && wf(p.3),
        p == paint(size, margin, px as nat, py as nat, 3),
{
    let zero = from_u32(0);
    let one = from_u32(1);
    let half = half_of(1);
    assert(1 * unit(-1) == unit(-1));
    let fsize = from_u32(size);
    let off = times(fsize, margin);
    let inner = times(fsize, minus(one, times(from_u32(2), margin)));
    let s = quotient(inner, from_u32(64));
    let r_box = times(from_u32(14), s);
    let stroke_r = times(from_u32(2), s);
    let fx = plus(from_u32(px), half);
    let fy = plus(from_u32(py), half);
    let cov_box = clamp(
        minus(half, round_rect_sdf(minus(fx, off), minus(fy, off), inner, inner, r_box)),
        zero,
        one,
    );
    let mut r = from_u32(0x0e);
    let mut g = from_u32(0x12);
    let mut b = from_u32(0x18);
    let mut a = cov_box;
    assert((r, g, b, a) == paint(size, margin, px as nat, py as nat, 0));
    let mut ci: usize = 0;
    while ci < 3
        invariant
            ci <= 3,
            wf(r) && wf(g) && wf(b) && wf(a),
            wf(zero) && wf(one) && wf(half) && wf(fx) && wf(fy) && wf(s) && wf(off) && wf(stroke_r),
            zero == f32_of(0),
            one == f32_of(1),
            half == one_half(),
            fx == centre(px as nat),
            fy == centre(py as nat),
            s == icon_scale(size, margin),
            off == icon_off(size, margin),
            stroke_r == icon_stroke(size, margin),
            (r, g, b, a) == paint(size, margin, px as nat, py as nat, ci as nat),
        decreases 3 - ci,
    {
        let x: u32 = 16 + 12 * (ci as u32);
        assert(x as nat == chevron_x(ci as int));
        let mut d = max_value();
        let mut k: usize = 0;
        while k < 2
            invariant
                k <= 2,
                ci < 3,
                x <= 64,
                x as nat == chevron_x(ci as int),
                wf(d) && wf(fx) && wf(fy) && wf(s) && wf(off),
                s == icon_scale(size, margin),
                off == icon_off(size, margin),
                k == 0 ==> d == f32_max(),
                k == 1 ==> d == min_spec(
                    f32_max(),
                    segment_dist(
                        fx,
                        fy,
                        stroke(x as nat, s, off, 0).0,
                        stroke(x as nat, s, off, 0).1,
                        stroke(x as nat, s, off, 0).2,
                        stroke(x as nat, s, off, 0).3,
                    ),
                ),
                k == 2 ==> d == chevron_dist(size, margin, ci as int, fx, fy),
            decreases 2 - k,
        {
            let (x0, y0, x1, y1) = chevron_stroke(x, s, off, k);
            d = min(d, segment_sdf(fx, fy, x0, y0, x1, y1));
            k = k + 1;
        }
        let cov = clamp(plus(minus(stroke_r, d), half), zero, one);
        if gt(cov, zero) {
            let cr = from_u32(chevron_channel(ci, 0));
            let cg = from_u32(chevron_channel(ci, 1));
            let cb = from_u32(chevron_channel(ci, 2));
            let keep = minus(one, cov);
            let out_a = plus(cov, times(a, keep));
            if gt(out_a, zero) {
                r = quotient(plus(times(cr, cov), times(times(r, a), keep)), out_a);
                g = quotient(plus(times(cg, cov), times(times(g, a), keep)), out_a);
                b = quotient(plus(times(cb, cov), times(times(b, a), keep)), out_a);
            }
            a = out_a;
        }
        ci = ci + 1;
    }
    (r, g, b, a)
}

/// Where byte `i` of the buffer lies: pixel `i / 4` in row-major order, channel `i % 4`.
proof fn lemma_byte_position(size: int, px: int, py: int, c: int)
    requires
        0 <= px < size,
        0 <= py,
        0 <= c < 4,
    ensures
        (4 * (py * size + px) + c) / 4 == py * size + px,
        (4 * (py * size + px) + c) % 4 == c,
        (py * size + px) % size == px,
        (py * size + px) / size == py,
{
    lemma_fundamental_div_mod_converse_div(4 * (py * size + px) + c, 4, py * size + px, c);
    lemma_fundamental_div_mod_converse_mod(4 * (py * size + px) + c, 4, py * size + px, c);
    lemma_fundamental_div_mod_converse_div(py * size + px, size, py, px);
    lemma_fundamental_div_mod_converse_mod(py * size + px, size, py, px);
}

/// RGBA bytes (straight alpha), row by row, of the mark drawn `margin` (a fraction of
/// the canvas) inside each edge of a `size` by `size` canvas.
pub fn icon_rgba_inset(size: u32, margin: B32) -> (buf: Vec<u8>)
    requires
        (size as int) * (size as int) * 4 <= usize::MAX,
        wf(margin),
    ensures
        buf@.len() == (size as int) * (size as int) * 4,
        forall|i: int|
            0 <= i < buf@.len() ==> #[trigger] buf@[i] == icon_byte(
                size,
                margin,
                ((i / 4) % (size as int)) as nat,
                ((i / 4) / (size as int)) as nat,
                i % 4,
            ),
{
    let zero = from_u32(0);
    let c255 = from_u32(255);
    let mut buf: Vec<u8> = Vec::new();
    let mut py: u32 = 0;
    while py < size
        invariant
            py <= size,
            buf@.len() == (py as int) * (size as int) * 4,
            (size as int) * (size as int) * 4 <= usize::MAX,
            zero == f32_of(0),
            c255 == f32_of(255),
            wf(zero) && wf(c255) && wf(margin),
            forall|i: int|
                0 <= i < buf@.len() ==> #[trigger] buf@[i] == icon_byte(
                    size,
                    margin,
                    ((i / 4) % (size as int)) as nat,
                    ((i / 4) / (size as int)) as nat,
                    i % 4,
                ),
        decreases size - py,
    {
        let mut px: u32 = 0;
        while px < size
            invariant
                py < size,
                px <= size,
                buf@.len() == ((py as int) * (size as int) + px as int) * 4,
                (size as int) * (size as int) * 4 <= usize::MAX,
                zero == f32_of(0),
                c255 == f32_of(255),
                wf(zero) && wf(c255) && wf(margin),
                forall|i: int|
                    0 <= i < buf@.len() ==> #[trigger] buf@[i] == icon_byte(
                        size,
                        margin,
                        ((i / 4) % (size as int)) as nat,
                        ((i / 4) / (size as int)) as nat,
                        i % 4,
                    ),
            decreases size - px,
        {
            let (r, g, b, a) = paint_pixel(size, margin, px, py);
            assert((py as int) * (size as int) + px as int + 1 <= (size as int) * (size as int)) by (nonlinear_arith)
                requires
                    py < size,
                    px < size,
            ;
            let ghost base = (py as int) * (size as int) + px as int;
            let ghost old_buf = buf@;
            buf.push(to_u8(round(r)));
            buf.push(to_u8(round(g)));
            buf.push(to_u8(round(b)));
            buf.push(to_u8(clamp(round(times(a, c255)), zero, c255)));
            proof {
                assert forall|i: int| 0 <= i < buf@.len() implies #[trigger] buf@[i] == icon_byte(
                    size,
                    margin,
                    ((i / 4) % (size as int)) as nat,
                    ((i / 4) / (size as int)) as nat,
                    i % 4,
                ) by {
                    if i >= old_buf.len() {
                        let c = i - 4 * base;
                        assert(0 <= c < 4);
                        lemma_byte_position(size as int, px as int, py as int, c);
                        assert(i == 4 * base + c);
                    } else {
                        assert(buf@[i] == old_buf[i]);
                    }
                }
            }
            px = px + 1;
        }
        assert(((py as int) * (size as int) + size as int) == (py as int + 1) * (size as int)) by (nonlinear_arith);
        py = py + 1;
    }
    buf
}

/// RGBA bytes of the mark filling a `size` by `size` canvas: the window and taskbar icon.
pub fn icon_rgba(size: u32) -> (buf: Vec<u8>)
    requires
        (size as int) * (size as int) * 4 <= usize::MAX,
    ensures
        buf@.len() == (size as int) * (size as int) * 4,
        forall|i: int|
            0 <= i < buf@.len() ==> #[trigger] buf@[i] == icon_byte(
                size,
                f32_of(0),
                ((i / 4) % (size as int)) as nat,
                ((i / 4) / (size as int)) as nat,
                i % 4,
            ),
{
    icon_rgba_inset(size, from_u32(0))
}

/// The window icon is the inset icon with no margin: a margin of `0.0` (all bits zero)
/// gives every byte of the full-bleed mark, so `icon_rgba(size)` equals
/// `icon_rgba_inset(size, from_bits(0))` byte for byte.
pub proof fn law_full_bleed_is_zero_margin(size: u32, px: nat, py: nat, c: int)
    ensures
        icon_byte(size, f32_of(0), px, py, c) == icon_byte(size, from_bits_spec(0), px, py, c),
{
    lemma_zero_rounds_to_positive_zero();
    assert(0 * unit(0) == 0);
}

} // verus!
