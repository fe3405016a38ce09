//! IEEE 754 binary32 arithmetic carried out on integers: the operations the icon renderer
//! uses, each rounded to nearest, ties to even, as the hardware rounds them.
//!
//! A finite value is `(-1)^neg * m * 2^e` with `m < 2^24` and `-149 <= e <= 104`; a
//! normal value has `m >= 2^23`, a subnormal one (or zero) has `e == -149`.

use vstd::arithmetic::power2::{
    lemma2_to64, lemma_pow2_adds, lemma_pow2_pos, lemma_pow2_strictly_increases, lemma_pow2_unfold,
    pow2,
};
use vstd::prelude::*;

verus! {

/// A binary32 value.
#[derive(Clone, Copy, Debug, PartialEq, Eq, Structural)]
pub enum B32 {
    Fin { neg: bool, m: u32, e: i32 },
    Inf { neg: bool },
    NaN,
}

/// 2^23 and 2^24.
pub const HIDDEN: u32 = 0x80_0000;
pub const LIMIT: u32 = 0x100_0000;

/// Canonical form of a finite value.
pub open spec fn wf(x: B32) -> bool {
    match x {
        B32::Fin { m, e, .. } => m < LIMIT && -149 <= e <= 104 && (m >= HIDDEN || e == -149),
        _ => true,
    }
}

/// `a < b` on values: false when either is NaN, infinities below and above every finite
/// value, and the two zeros equal.
pub open spec fn lt_spec(a: B32, b: B32) -> bool {
    match (a, b) {
        (B32::NaN, _) => false,
        (_, B32::NaN) => false,
        (B32::Inf { neg: na }, B32::Inf { neg: nb }) => na && !nb,
        (B32::Inf { neg: na }, _) => na,
        (_, B32::Inf { neg: nb }) => !nb,
        (B32::Fin { neg: na, m: ma, e: ea }, B32::Fin { neg: nb, m: mb, e: eb }) => signed(
            na,
            mag(ma, ea),
        ) < signed(nb, mag(mb, eb)),
    }
}

/// `a.min(b)`: the other value when one is NaN, else `b` when it is smaller, else `a`.
pub open spec fn min_spec(a: B32, b: B32) -> B32 {
    if a is NaN {
        b
    } else if b is NaN {
        a
    } else if lt_spec(b, a) {
        b
    } else {
        a
    }
}

/// `a.max(b)`: the other value when one is NaN, else `b` when it is larger, else `a`.
pub open spec fn max_spec(a: B32, b: B32) -> B32 {
    if a is NaN {
        b
    } else if b is NaN {
        a
    } else if lt_spec(a, b) {
        b
    } else {
        a
    }
}

/// `x.clamp(lo, hi)` as the icon renderer writes it: raised to `lo` when below it, then
/// lowered to `hi` when above it.
pub open spec fn clamp_spec(x: B32, lo: B32, hi: B32) -> B32 {
    let v = if lt_spec(x, lo) {
        lo
    } else {
        x
    };
    if lt_spec(hi, v) {
        hi
    } else {
        v
    }
}

/// The whole part of a non-negative finite value (truncated).
pub open spec fn trunc_of(m: u32, e: i32) -> int {
    if e >= 0 {
        m as int * pow2(e as nat) as int
    } else {
        m as int / pow2((-e) as nat) as int
    }
}

/// `x as u8`: NaN and negative values give 0, others their whole part, at most 255.
pub open spec fn to_u8_spec(x: B32) -> u8 {
    match x {
        B32::NaN => 0,
        B32::Inf { neg } => if neg {
            0
        } else {
            255
        },
        B32::Fin { neg, m, e } => if neg {
            0
        } else if trunc_of(m, e) > 255 {
            255
        } else {
            trunc_of(m, e) as u8
        },
    }
}

/// A magnitude is never negative, and zero exactly for a zero mantissa.
proof fn lemma_scaled_sign(m: u32, e: i32)
    ensures
        mag(m, e) >= 0,
        mag(m, e) == 0 <==> m == 0,
{
    lemma_pow2_pos((e + 2200) as nat);
    let p = pow2((e + 2200) as nat) as int;
    assert(m as int * p >= 0 && (m as int * p == 0 <==> m == 0)) by (nonlinear_arith)
        requires
            p > 0,
    ;
}

/// Of two nonzero canonical magnitudes, the one with the smaller exponent is smaller.
proof fn lemma_exponent_orders(ma: u32, ea: i32, mb: u32, eb: i32)
    requires
        wf(B32::Fin { neg: false, m: ma, e: ea }),
        wf(B32::Fin { neg: false, m: mb, e: eb }),
        ma > 0,
        ea < eb,
    ensures
        mag(ma, ea) < mag(mb, eb),
{
    let ka = (ea + 2200) as nat;
    let kb = (eb + 2200) as nat;
    lemma2_to64();
    lemma_pow2_pos(ka);
    lemma_pow2_pos(kb);
    lemma_pow2_adds(ka, 24);
    lemma_pow2_adds(kb, 23);
    if ka + 24 < kb + 23 {
        lemma_pow2_strictly_increases(ka + 24, kb + 23);
    }
    let pa = pow2(ka) as int;
    let pb = pow2(kb) as int;
    assert(ma as int * pa < 0x100_0000 * pa) by (nonlinear_arith)
        requires
            ma < 0x100_0000,
            pa > 0,
    ;
    assert(mb as int * pb >= 0x80_0000 * pb) by (nonlinear_arith)
        requires
            mb >= 0x80_0000,
            pb > 0,
    ;
}

// ---------------------------------------------------------------- rounding, stated

/// `2^e` times `2^2200`: every exponent met here is above -2200, so scaled values are whole
/// numbers.
pub open spec fn unit(e: int) -> int {
    pow2((e + 2200) as nat) as int
}

/// The magnitude `m * 2^e`, scaled by `2^2200`.
pub open spec fn mag(m: u32, e: i32) -> int {
    m as int * unit(e as int)
}

/// A canonical finite magnitude.
pub open spec fn canonical(m: u32, e: i32) -> bool {
    m < LIMIT && -149 <= e <= 104 && (m >= HIDDEN || e == -149)
}

/// `|x - v|`.
pub open spec fn dist(x: int, v: int) -> int {
    if x >= v {
        x - v
    } else {
        v - x
    }
}

/// `m * 2^e` is as near to `x` as any binary32 magnitude.
pub open spec fn nearest(x: int, m: u32, e: i32) -> bool {
    forall|m2: u32, e2: i32| #[trigger]
        canonical(m2, e2) ==> dist(x, mag(m, e)) <= dist(x, mag(m2, e2))
}

/// When another binary32 magnitude is just as near to `x`, `m` is even.
pub open spec fn ties_to_even(x: int, m: u32, e: i32) -> bool {
    forall|m2: u32, e2: i32| #[trigger]
        canonical(m2, e2) && mag(m2, e2) != mag(m, e) && dist(x, mag(m2, e2)) == dist(x, mag(m, e))
            ==> m % 2 == 0
}

/// `x` is at least halfway between the largest finite magnitude and `2^128`.
pub open spec fn overflows(x: int) -> bool {
    x >= 0x1ff_ffff * unit(103)
}

/// `r` is the magnitude `x` (scaled by `2^2200`) with sign `neg`, rounded to nearest, ties
/// to even: infinite from halfway above the largest finite value.
pub open spec fn rounds_to(neg: bool, x: int, r: B32) -> bool {
    if overflows(x) {
        r == B32::Inf { neg }
    } else {
        r matches B32::Fin { neg: rn, m, e } && rn == neg && canonical(m, e) && nearest(x, m, e)
            && ties_to_even(x, m, e)
    }
}

/// `unit(a + k) == 2^k * unit(a)`.
proof fn lemma_unit_shift(a: int, k: nat)
    requires
        a + 2200 >= 0,
    ensures
        unit(a + k) == pow2(k) as int * unit(a),
        unit(a) > 0,
{
    let b = (a + 2200) as nat;
    lemma_pow2_adds(b, k);
    lemma_pow2_pos(b);
    assert((a + k + 2200) as nat == b + k);
    let pb = pow2(b) as int;
    let pk = pow2(k) as int;
    assert(pb * pk == pk * pb) by (nonlinear_arith);
}

/// No binary32 magnitude lies strictly between `q0 * 2^e0` and `(q0 + 1) * 2^e0` when
/// `q0` has 24 bits (or `e0` is the subnormal exponent).
proof fn lemma_gap(q0: int, e0: int, m2: u32, e2: i32)
    requires
        -2200 <= e0 <= 2000,
        0 <= q0,
        e0 > -149 ==> q0 >= HIDDEN,
        canonical(m2, e2),
    ensures
        mag(m2, e2) <= q0 * unit(e0) || mag(m2, e2) >= (q0 + 1) * unit(e0),
{
    let u0 = unit(e0);
    if e2 >= e0 {
        let k = (e2 - e0) as nat;
        lemma_unit_shift(e0, k);
        assert(unit(e2 as int) == unit(e0 + k));
        let c = m2 as int * pow2(k) as int;
        assert(mag(m2, e2) == c * u0) by (nonlinear_arith)
            requires
                mag(m2, e2) == m2 as int * unit(e2 as int),
                unit(e2 as int) == pow2(k) as int * u0,
                c == m2 as int * pow2(k) as int,
        ;
        if c <= q0 {
            assert(c * u0 <= q0 * u0) by (nonlinear_arith)
                requires
                    c <= q0,
                    u0 > 0,
            ;
        } else {
            assert(c * u0 >= (q0 + 1) * u0) by (nonlinear_arith)
                requires
                    c >= q0 + 1,
                    u0 > 0,
            ;
        }
    } else {
        let k = (e0 - e2) as nat;
        lemma_unit_shift(e2 as int, k);
        assert(unit(e0) == unit(e2 as int + k));
        lemma2_to64();
        if k > 1 {
            lemma_pow2_strictly_increases(1, k);
        }
        let u2 = unit(e2 as int);
        assert(u0 >= 2 * u2) by (nonlinear_arith)
            requires
                u0 == pow2(k) as int * u2,
                pow2(k) >= 2,
                u2 > 0,
        ;
        assert(mag(m2, e2) < (q0) * u0) by (nonlinear_arith)
            requires
                mag(m2, e2) == m2 as int * u2,
                m2 < 0x100_0000,
                q0 >= 0x80_0000,
                u0 >= 2 * u2,
                u2 > 0,
        ;
    }
}

/// `m * 2^e` is the lower or the upper of the two neighbours `q0 * 2^e0 <= x <
/// (q0 + 1) * 2^e0` on a binary32 grid, the upper one exactly when `x` is past their
/// midpoint or on it with `q0` odd, and even on the midpoint.
pub open spec fn picks_neighbour(x: int, q0: int, e0: int, m: u32, e: i32) -> bool {
    &&& -149 <= e0 <= 2000
    &&& 0 <= q0 < LIMIT
    &&& (e0 > -149 ==> q0 >= HIDDEN)
    &&& q0 * unit(e0) <= x < (q0 + 1) * unit(e0)
    &&& (mag(m, e) == q0 * unit(e0) || mag(m, e) == (q0 + 1) * unit(e0))
    &&& (mag(m, e) == (q0 + 1) * unit(e0) <==> (2 * (x - q0 * unit(e0)) > unit(e0) || (2 * (x - q0
        * unit(e0)) == unit(e0) && q0 % 2 == 1)))
    &&& (2 * (x - q0 * unit(e0)) == unit(e0) ==> m % 2 == 0)
}

/// `m * 2^e` is as near to `n / d` as any binary32 magnitude.
pub open spec fn nearest_ratio(n: int, d: int, m: u32, e: i32) -> bool {
    forall|m2: u32, e2: i32| #[trigger]
        canonical(m2, e2) ==> dist(n, mag(m, e) * d) <= dist(n, mag(m2, e2) * d)
}

/// When another binary32 magnitude is just as near to `n / d`, `m` is even.
pub open spec fn ties_ratio(n: int, d: int, m: u32, e: i32) -> bool {
    forall|m2: u32, e2: i32| #[trigger]
        canonical(m2, e2) && mag(m2, e2) != mag(m, e) && dist(n, mag(m2, e2) * d) == dist(
            n,
            mag(m, e) * d,
        ) ==> m % 2 == 0
}

/// `r` is the magnitude `n / d` (scaled by `2^2200`) with sign `neg`, rounded to nearest,
/// ties to even: infinite from halfway above the largest finite value.
pub open spec fn rounds_ratio(neg: bool, n: int, d: int, r: B32) -> bool {
    if n >= 0x1ff_ffff * unit(103) * d {
        r == B32::Inf { neg }
    } else {
        r matches B32::Fin { neg: rn, m, e } && rn == neg && canonical(m, e) && nearest_ratio(
            n,
            d,
            m,
            e,
        ) && ties_ratio(n, d, m, e)
    }
}

/// [`lemma_round_between`] for a ratio `n / d`.
proof fn lemma_round_between_ratio(n: int, d: int, q0: int, e0: int, m: u32, e: i32)
    requires
        d > 0,
        -149 <= e0 <= 2000,
        0 <= q0,
        e0 > -149 ==> q0 >= HIDDEN,
        q0 * unit(e0) * d <= n < (q0 + 1) * unit(e0) * d,
        mag(m, e) == q0 * unit(e0) || mag(m, e) == (q0 + 1) * unit(e0),
        mag(m, e) == (q0 + 1) * unit(e0) <==> (2 * (n - q0 * unit(e0) * d) > unit(e0) * d || (2 * (n
            - q0 * unit(e0) * d) == unit(e0) * d && q0 % 2 == 1)),
        2 * (n - q0 * unit(e0) * d) == unit(e0) * d ==> m % 2 == 0,
    ensures
        nearest_ratio(n, d, m, e),
        ties_ratio(n, d, m, e),
{
    let u = unit(e0);
    let lo = q0 * u;
    let hi = (q0 + 1) * u;
    let lod = lo * d;
    let hid = hi * d;
    assert(lod == q0 * u * d && hid == (q0 + 1) * u * d) by (nonlinear_arith)
        requires
            lo == q0 * u,
            hi == (q0 + 1) * u,
            lod == lo * d,
            hid == hi * d,
    ;
    assert(hid == lod + u * d) by (nonlinear_arith)
        requires
            lod == q0 * u * d,
            hid == (q0 + 1) * u * d,
    ;
    assert(mag(m, e) * d == lod || mag(m, e) * d == hid);
    assert forall|m2: u32, e2: i32| #[trigger] canonical(m2, e2) implies dist(n, mag(m, e) * d)
        <= dist(n, mag(m2, e2) * d) && (mag(m2, e2) != mag(m, e) && dist(n, mag(m2, e2) * d)
        == dist(n, mag(m, e) * d) ==> m % 2 == 0) by {
        lemma_gap(q0, e0, m2, e2);
        let w = mag(m2, e2);
        if w <= lo {
            assert(w * d <= lod) by (nonlinear_arith)
                requires
                    w <= lo,
                    d > 0,
                    lod == lo * d,
            ;
            assert(w < lo ==> w * d < lod) by (nonlinear_arith)
                requires
                    d > 0,
                    lod == lo * d,
            ;
        } else {
            assert(w * d >= hid) by (nonlinear_arith)
                requires
                    w >= hi,
                    d > 0,
                    hid == hi * d,
            ;
            assert(w > hi ==> w * d > hid) by (nonlinear_arith)
                requires
                    d > 0,
                    hid == hi * d,
            ;
        }
        assert(w * d == mag(m, e) * d ==> w == mag(m, e)) by (nonlinear_arith)
            requires
                d > 0,
        ;
    }
}

/// Rounding between two neighbours: `x` lies in `[q0 * 2^e0, (q0 + 1) * 2^e0)`, the result
/// `m * 2^e` is the lower neighbour, or the upper one exactly when `x` is past the midpoint
/// or on it with `q0` odd, and an even `m` is chosen on the midpoint. Then it is nearest
/// and ties go to even.
proof fn lemma_round_between(x: int, q0: int, e0: int, m: u32, e: i32)
    requires
        -149 <= e0 <= 2000,
        0 <= q0,
        e0 > -149 ==> q0 >= HIDDEN,
        q0 * unit(e0) <= x < (q0 + 1) * unit(e0),
        mag(m, e) == q0 * unit(e0) || mag(m, e) == (q0 + 1) * unit(e0),
        mag(m, e) == (q0 + 1) * unit(e0) <==> (2 * (x - q0 * unit(e0)) > unit(e0) || (2 * (x - q0
            * unit(e0)) == unit(e0) && q0 % 2 == 1)),
        2 * (x - q0 * unit(e0)) == unit(e0) ==> m % 2 == 0,
    ensures
        nearest(x, m, e),
        ties_to_even(x, m, e),
{
    let lo = q0 * unit(e0);
    let hi = (q0 + 1) * unit(e0);
    assert(hi == lo + unit(e0)) by (nonlinear_arith)
        requires
            lo == q0 * unit(e0),
            hi == (q0 + 1) * unit(e0),
    ;
    assert forall|m2: u32, e2: i32| #[trigger] canonical(m2, e2) implies dist(x, mag(m, e)) <= dist(
        x,
        mag(m2, e2),
    ) && (mag(m2, e2) != mag(m, e) && dist(x, mag(m2, e2)) == dist(x, mag(m, e)) ==> m % 2 == 0) by {
        lemma_gap(q0, e0, m2, e2);
    }
}

proof fn lemma_plus_unique(a: B32, b: B32, r1: B32, r2: B32)
    requires
        plus_spec(a, b, r1),
        plus_spec(a, b, r2),
    ensures
        r1 == r2,
{
    if let (B32::Fin { neg: na, m: ma, e: ea }, B32::Fin { neg: nb, m: mb, e: eb }) = (a, b) {
        let sum = signed(na, mag(ma, ea)) + signed(nb, mag(mb, eb));
        if sum != 0 {
            lemma_rounds_unique(sum < 0, abs_int(sum), r1, r2);
        }
    }
}

proof fn lemma_times_unique(a: B32, b: B32, r1: B32, r2: B32)
    requires
        times_spec(a, b, r1),
        times_spec(a, b, r2),
    ensures
        r1 == r2,
{
    if let (B32::Fin { neg: na, m: ma, e: ea }, B32::Fin { neg: nb, m: mb, e: eb }) = (a, b) {
        lemma_rounds_unique(na != nb, ma as int * mb as int * unit(ea + eb), r1, r2);
    }
}

proof fn lemma_quotient_unique(a: B32, b: B32, r1: B32, r2: B32)
    requires
        quotient_spec(a, b, r1),
        quotient_spec(a, b, r2),
    ensures
        r1 == r2,
{
    if let (B32::Fin { neg: na, m: ma, e: ea }, B32::Fin { neg: nb, m: mb, e: eb }) = (a, b) {
        if mb != 0 && ma != 0 {
            lemma_ratio_unique(na != nb, ma as int * unit(ea - eb), mb as int, r1, r2);
        }
    }
}

proof fn lemma_sqrt_spec_unique(x: B32, r1: B32, r2: B32)
    requires
        sqrt_spec(x, r1),
        sqrt_spec(x, r2),
    ensures
        r1 == r2,
{
    if let B32::Fin { neg, m, e } = x {
        if m != 0 && !neg {
            lemma_sqrt_unique(mag(m, e) * unit(0), r1, r2);
        }
    }
}

proof fn lemma_round_unique(x: B32, r1: B32, r2: B32)
    requires
        round_spec(x, r1),
        round_spec(x, r2),
    ensures
        r1 == r2,
{
    if let B32::Fin { neg, m, e } = x {
        if !(e >= 0 || m == 0) {
            lemma_rounds_unique(neg, nearest_whole(m, e) * unit(0), r1, r2);
        }
    }
}

// ---------------------------------------------------------------- one result only

/// A magnitude has one canonical form.
proof fn lemma_canonical_unique(m1: u32, e1: i32, m2: u32, e2: i32)
    requires
        canonical(m1, e1),
        canonical(m2, e2),
        mag(m1, e1) == mag(m2, e2),
    ensures
        m1 == m2,
        m1 != 0 ==> e1 == e2,
{
    lemma2_to64();
    lemma_unit_shift(e1 as int, 0);
    lemma_unit_shift(e2 as int, 0);
    if e1 < e2 {
        let k = (e2 - e1) as nat;
        lemma_unit_shift(e1 as int, k);
        assert(e1 + k == e2);
        if k > 1 {
            lemma_pow2_strictly_increases(1, k);
        }
        assert(false) by (nonlinear_arith)
            requires
                mag(m1, e1) == m1 as int * unit(e1 as int),
                mag(m2, e2) == m2 as int * unit(e2 as int),
                mag(m1, e1) == mag(m2, e2),
                unit(e2 as int) == pow2(k) as int * unit(e1 as int),
                pow2(k) >= 2,
                unit(e1 as int) > 0,
                m1 < 0x100_0000,
                m2 >= 0x80_0000,
        ;
    } else if e2 < e1 {
        let k = (e1 - e2) as nat;
        lemma_unit_shift(e2 as int, k);
        assert(e2 + k == e1);
        if k > 1 {
            lemma_pow2_strictly_increases(1, k);
        }
        assert(false) by (nonlinear_arith)
            requires
                mag(m1, e1) == m1 as int * unit(e1 as int),
                mag(m2, e2) == m2 as int * unit(e2 as int),
                mag(m1, e1) == mag(m2, e2),
                unit(e1 as int) == pow2(k) as int * unit(e2 as int),
                pow2(k) >= 2,
                unit(e2 as int) > 0,
                m2 < 0x100_0000,
                m1 >= 0x80_0000,
        ;
    } else {
        assert(m1 == m2) by (nonlinear_arith)
            requires
                mag(m1, e1) == m1 as int * unit(e1 as int),
                mag(m2, e2) == m2 as int * unit(e1 as int),
                mag(m1, e1) == mag(m2, e2),
                unit(e1 as int) > 0,
        ;
    }
}

/// Between two binary32 magnitudes with even mantissas there is a third.
proof fn lemma_between_evens(m1: u32, e1: i32, m2: u32, e2: i32) -> (w: (u32, i32))
    requires
        canonical(m1, e1),
        canonical(m2, e2),
        mag(m1, e1) < mag(m2, e2),
        m1 % 2 == 0,
        m2 % 2 == 0,
    ensures
        canonical(w.0, w.1),
        mag(m1, e1) < mag(w.0, w.1) < mag(m2, e2),
{
    lemma2_to64();
    lemma_unit_shift(e1 as int, 0);
    lemma_unit_shift(e2 as int, 0);
    let u1 = unit(e1 as int);
    let u2 = unit(e2 as int);
    if e1 == e2 {
        assert(m1 < m2) by (nonlinear_arith)
            requires
                m1 as int * u1 < m2 as int * u1,
                u1 > 0,
        ;
        assert(mag((m1 + 1) as u32, e1) == (m1 + 1) * u1);
        assert(m1 as int * u1 < (m1 + 1) * u1 < m2 as int * u1) by (nonlinear_arith)
            requires
                m1 + 1 < m2,
                u1 > 0,
        ;
        ((m1 + 1) as u32, e1)
    } else if e1 > e2 {
        let k = (e1 - e2) as nat;
        lemma_unit_shift(e2 as int, k);
        assert(e2 + k == e1);
        if k > 1 {
            lemma_pow2_strictly_increases(1, k);
        }
        assert(false) by (nonlinear_arith)
            requires
                m1 as int * u1 < m2 as int * u2,
                u1 == pow2(k) as int * u2,
                pow2(k) >= 2,
                u2 > 0,
                m2 < 0x100_0000,
                m1 >= 0x80_0000,
        ;
        (0, 0)
    } else {
        let k = (e2 - e1) as nat;
        lemma_unit_shift(e1 as int, k);
        assert(e1 + k == e2);
        if k > 1 {
            lemma_pow2_strictly_increases(1, k);
        }
        assert(u2 >= 2 * u1) by (nonlinear_arith)
            requires
                u2 == pow2(k) as int * u1,
                pow2(k) >= 2,
                u1 > 0,
        ;
        if m2 > HIDDEN {
            assert(m1 as int * u1 < (m2 - 1) * u2 < m2 as int * u2) by (nonlinear_arith)
                requires
                    m1 < 0x100_0000,
                    m2 >= 0x80_0001,
                    u2 >= 2 * u1,
                    u1 > 0,
            ;
            ((m2 - 1) as u32, e2)
        } else {
            lemma_unit_shift(e2 - 1, 1);
            assert(e2 - 1 + 1 == e2);
            let v = unit(e2 - 1);
            assert(u2 == 2 * v);
            assert(0xff_ffff * v < m2 as int * u2) by (nonlinear_arith)
                requires
                    m2 == 0x80_0000,
                    u2 == 2 * v,
                    v > 0,
            ;
            if e1 == e2 - 1 {
                assert(m1 <= 0xff_fffe);
                assert(m1 as int * u1 < 0xff_ffff * v) by (nonlinear_arith)
                    requires
                        m1 <= 0xff_fffe,
                        u1 == v,
                        v > 0,
                ;
            } else {
                lemma_unit_mono(e1 as int + 1, e2 - 1);
                lemma_unit_shift(e1 as int, 1);
                assert(m1 as int * u1 < 0xff_ffff * v) by (nonlinear_arith)
                    requires
                        m1 < 0x100_0000,
                        unit(e1 as int + 1) == 2 * u1,
                        unit(e1 as int + 1) <= v,
                        u1 > 0,
                ;
            }
            (0xff_ffffu32, (e2 - 1) as i32)
        }
    }
}

/// Rounding `x` has one result.
proof fn lemma_rounds_unique(neg: bool, x: int, r1: B32, r2: B32)
    requires
        rounds_to(neg, x, r1),
        rounds_to(neg, x, r2),
    ensures
        r1 == r2,
{
    if !overflows(x) {
        let (m1, e1) = match r1 {
            B32::Fin { m, e, .. } => (m, e),
            _ => (0u32, 0i32),
        };
        let (m2, e2) = match r2 {
            B32::Fin { m, e, .. } => (m, e),
            _ => (0u32, 0i32),
        };
        let v1 = mag(m1, e1);
        let v2 = mag(m2, e2);
        assert(dist(x, v1) <= dist(x, v2) && dist(x, v2) <= dist(x, v1)) by {
            assert(canonical(m2, e2));
            assert(canonical(m1, e1));
        }
        if v1 != v2 {
            assert(m1 % 2 == 0 && m2 % 2 == 0) by {
                assert(canonical(m2, e2));
                assert(canonical(m1, e1));
            }
            let (lo_m, lo_e, hi_m, hi_e) = if v1 < v2 {
                (m1, e1, m2, e2)
            } else {
                (m2, e2, m1, e1)
            };
            let w = lemma_between_evens(lo_m, lo_e, hi_m, hi_e);
            assert(canonical(w.0, w.1));
            assert(dist(x, v1) <= dist(x, mag(w.0, w.1)));
        } else {
            lemma_canonical_unique(m1, e1, m2, e2);
            if m1 == 0 {
                assert(e1 == -149 && e2 == -149);
            }
        }
    }
}

/// Rounding `n / d` has one result.
proof fn lemma_ratio_unique(neg: bool, n: int, d: int, r1: B32, r2: B32)
    requires
        d > 0,
        rounds_ratio(neg, n, d, r1),
        rounds_ratio(neg, n, d, r2),
    ensures
        r1 == r2,
{
    if !(n >= 0x1ff_ffff * unit(103) * d) {
        let (m1, e1) = match r1 {
            B32::Fin { m, e, .. } => (m, e),
            _ => (0u32, 0i32),
        };
        let (m2, e2) = match r2 {
            B32::Fin { m, e, .. } => (m, e),
            _ => (0u32, 0i32),
        };
        let v1 = mag(m1, e1);
        let v2 = mag(m2, e2);
        assert(dist(n, v1 * d) <= dist(n, v2 * d) && dist(n, v2 * d) <= dist(n, v1 * d)) by {
            assert(canonical(m2, e2));
            assert(canonical(m1, e1));
        }
        if v1 != v2 {
            assert(m1 % 2 == 0 && m2 % 2 == 0) by {
                assert(canonical(m2, e2));
                assert(canonical(m1, e1));
            }
            let (lo_m, lo_e, hi_m, hi_e) = if v1 < v2 {
                (m1, e1, m2, e2)
            } else {
                (m2, e2, m1, e1)
            };
            let w = lemma_between_evens(lo_m, lo_e, hi_m, hi_e);
            let z = mag(w.0, w.1);
            assert(canonical(w.0, w.1));
            assert(dist(n, v1 * d) <= dist(n, z * d));
            let lo = mag(lo_m, lo_e);
            let hi = mag(hi_m, hi_e);
            assert(lo * d < z * d < hi * d) by (nonlinear_arith)
                requires
                    lo < z < hi,
                    d > 0,
            ;
            assert(dist(n, lo * d) == dist(n, hi * d));
        } else {
            lemma_canonical_unique(m1, e1, m2, e2);
            if m1 == 0 {
                assert(e1 == -149 && e2 == -149);
            }
        }
    }
}

/// Rounding `sqrt(y)` has one result.
proof fn lemma_sqrt_unique(y: int, r1: B32, r2: B32)
    requires
        rounds_sqrt(y, r1),
        rounds_sqrt(y, r2),
    ensures
        r1 == r2,
{
    let (m1, e1) = match r1 {
        B32::Fin { m, e, .. } => (m, e),
        _ => (0u32, 0i32),
    };
    let (m2, e2) = match r2 {
        B32::Fin { m, e, .. } => (m, e),
        _ => (0u32, 0i32),
    };
    let v1 = mag(m1, e1);
    let v2 = mag(m2, e2);
    assert(sqrt_closer(y, v1, v2) && sqrt_closer(y, v2, v1)) by {
        assert(canonical(m2, e2));
        assert(canonical(m1, e1));
    }
    if v1 != v2 {
        assert(m1 % 2 == 0 && m2 % 2 == 0) by {
            assert(canonical(m2, e2));
            assert(canonical(m1, e1));
        }
        let (lo_m, lo_e, hi_m, hi_e) = if v1 < v2 {
            (m1, e1, m2, e2)
        } else {
            (m2, e2, m1, e1)
        };
        let w = lemma_between_evens(lo_m, lo_e, hi_m, hi_e);
        let z = mag(w.0, w.1);
        let lo = mag(lo_m, lo_e);
        let hi = mag(hi_m, hi_e);
        assert(canonical(w.0, w.1));
        assert(sqrt_closer(y, lo, z));
        lemma_unit_shift(lo_e as int, 0);
        assert(lo >= 0) by (nonlinear_arith)
            requires
                lo == lo_m as int * unit(lo_e as int),
                unit(lo_e as int) > 0,
        ;
        assert(4 * y == (lo + hi) * (lo + hi));
        assert(false) by (nonlinear_arith)
            requires
                4 * y <= (lo + z) * (lo + z),
                4 * y == (lo + hi) * (lo + hi),
                0 <= lo < z < hi,
        ;
    } else {
        lemma_canonical_unique(m1, e1, m2, e2);
        if m1 == 0 {
            assert(e1 == -149 && e2 == -149);
        }
    }
}

/// `2^k` for `k < 128`.
fn pw(k: u32) -> (r: u128)
    requires
        k < 128,
    ensures
        r == pow2(k as nat),
{
    let mut r: u128 = 1;
    let mut i: u32 = 0;
    proof {
        lemma2_to64();
    }
    while i < k
        invariant
            i <= k < 128,
            r == pow2(i as nat),
        decreases k - i,
    {
        proof {
            lemma_pow2_unfold((i + 1) as nat);
            lemma_pow2_strictly_increases((i + 1) as nat, 128);
            lemma_pow2_adds(64, 64);
            lemma2_to64();
        }
        assert(pow2(128) == 0x1_0000_0000_0000_0000 * 0x1_0000_0000_0000_0000int) by {
            lemma_pow2_adds(64, 64);
            lemma2_to64();
        }
        r = r * 2;
        i = i + 1;
    }
    r
}

proof fn lemma_div_below(x: int, a: int, b: int)
    requires
        0 <= x < a * b,
        a > 0,
        b > 0,
    ensures
        x / a < b,
{
    assert(x / a < b) by (nonlinear_arith)
        requires
            0 <= x < a * b,
            a > 0,
            b > 0,
    ;
}

proof fn lemma_div_above(x: int, a: int, b: int)
    requires
        x >= a * b,
        a > 0,
        b >= 0,
    ensures
        x / a >= b,
{
    assert(x / a >= b) by (nonlinear_arith)
        requires
            x >= a * b,
            a > 0,
            b >= 0,
    ;
}

/// `unit` grows with the exponent.
proof fn lemma_unit_mono(a: int, b: int)
    requires
        -2200 <= a <= b,
    ensures
        unit(a) <= unit(b),
{
    if a < b {
        lemma_pow2_strictly_increases((a + 2200) as nat, (b + 2200) as nat);
    }
}

/// The three largest binades in terms of `2^103`.
proof fn lemma_top_units()
    ensures
        unit(104) == 2 * unit(103),
        unit(105) == 4 * unit(103),
        unit(103) > 0,
{
    lemma2_to64();
    lemma_unit_shift(103, 1);
    lemma_unit_shift(103, 2);
}

/// Zero is rounded to the zero of its sign.
proof fn lemma_zero_rounds(neg: bool)
    ensures
        rounds_to(neg, 0, B32::Fin { neg, m: 0, e: -149i32 }),
{
    lemma_top_units();
    lemma_unit_shift(-149, 0);
    assert(0x1ff_ffff * unit(103) > 0) by (nonlinear_arith)
        requires
            unit(103) > 0,
    ;
    lemma_round_between(0, 0, -149, 0, -149i32);
}

/// [`round_pack`], together with the two neighbours of `mm * 2^ee` that the finite result
/// was picked from.
#[verifier::spinoff_prover]
#[verifier::rlimit(40)]
fn round_core(neg: bool, mm: u128, ee: i64) -> (res: (B32, Ghost<(int, int)>))
    requires
        mm < 0x1_0000_0000_0000_0000,
        -2000 <= ee <= 2000,
    ensures
        wf(res.0),
        rounds_to(neg, mm as int * unit(ee as int), res.0),
        res.0 matches B32::Fin { m, e, .. } ==> picks_neighbour(
            mm as int * unit(ee as int),
            res.1@.0,
            res.1@.1,
            m,
            e,
        ),
{
    proof {
        lemma2_to64();
        lemma_top_units();
        lemma_unit_shift(ee as int, 0);
    }
    let ghost x = mm as int * unit(ee as int);
    if mm == 0 {
        proof {
            lemma_zero_rounds(neg);
            lemma_unit_shift(-149, 0);
            assert(0 * unit(-149) == 0 && (0 + 1) * unit(-149) == unit(-149));
            lemma_round_between(0, 0, -149, 0, -149i32);
            assert(x == 0);
            assert(picks_neighbour(mm as int * unit(ee as int), 0, -149, 0, -149i32));
        }
        return (B32::Fin { neg, m: 0, e: -149 }, Ghost((0int, -149int)));
    }
    // bit length: 2^(l-1) <= mm < 2^l
    let mut p: u128 = 1;
    let mut l: u32 = 0;
    while p <= mm
        invariant
            p == pow2(l as nat),
            l <= 64,
            mm < 0x1_0000_0000_0000_0000,
            pow2(64) == 0x1_0000_0000_0000_0000,
            0 < mm,
            l > 0 ==> pow2((l - 1) as nat) <= mm,
        decreases 64 - l,
    {
        proof {
            if l >= 64 {
                if l > 64 {
                    lemma_pow2_strictly_increases(64, l as nat);
                }
                assert(false);
            }
            lemma_pow2_unfold((l + 1) as nat);
        }
        p = p * 2;
        l = l + 1;
    }
    proof {
        if l == 0 {
            assert(false);
        }
    }
    let ll = l as i64;
    let mut s: i64 = ll - 24;
    if ee + s < -149 {
        s = -149 - ee;
    }
    if s <= 0 {
        // exact: the mantissa only moves up
        let k = (-s) as u32;
        assert(k <= 24 - ll);
        let f = pw(k);
        proof {
            lemma_pow2_adds(l as nat, k as nat);
            if (l + k) < 24 {
                lemma_pow2_strictly_increases((l + k) as nat, 24);
            }
            assert(mm * f < pow2(l as nat) * f) by (nonlinear_arith)
                requires
                    mm < pow2(l as nat),
                    f > 0,
            ;
            lemma_pow2_pos(k as nat);
        }
        let m = mm * f;
        let e = ee + s;
        proof {
            if s == ll - 24 {
                lemma_pow2_adds((l - 1) as nat, k as nat);
                assert(mm * f >= pow2((l - 1) as nat) * f) by (nonlinear_arith)
                    requires
                        mm >= pow2((l - 1) as nat),
                        f > 0,
                ;
            }
            assert(m > 0) by (nonlinear_arith)
                requires
                    m == mm * f,
                    mm > 0,
                    f > 0,
            ;
            lemma_unit_shift(e as int, k as nat);
            assert(e + k == ee);
            let ue = unit(e as int);
            assert(x == m as int * ue) by (nonlinear_arith)
                requires
                    x == mm as int * unit(ee as int),
                    unit(ee as int) == f as int * ue,
                    m == mm * f,
            ;
        }
        if e > 104 {
            proof {
                lemma_unit_mono(105, e as int);
                let ue = unit(e as int);
                assert(x >= 0x80_0000 * (4 * unit(103))) by (nonlinear_arith)
                    requires
                        x == m as int * ue,
                        m >= 0x80_0000,
                        ue >= 4 * unit(103),
                ;
            }
            return (B32::Inf { neg }, Ghost((0int, 0int)));
        }
        proof {
            lemma_unit_mono(e as int, 104);
            let ue = unit(e as int);
            assert(x <= (0xff_ffff) * (2 * unit(103))) by (nonlinear_arith)
                requires
                    x == m as int * ue,
                    m <= 0xff_ffff,
                    0 < ue <= 2 * unit(103),
            ;
            assert(x < (m as int + 1) * ue) by (nonlinear_arith)
                requires
                    x == m as int * ue,
                    ue > 0,
            ;
            lemma_round_between(x, m as int, e as int, m as u32, e as i32);
        assert(picks_neighbour(mm as int * unit(ee as int), m as int, e as int, m as u32, e as i32));
        }
        return (B32::Fin { neg, m: m as u32, e: e as i32 }, Ghost((m as int, e as int)));
    }
    let su = s as u32;
    let e0 = ee + s;
    proof {
        if s != ll - 24 {
            assert(e0 == -149);
        }
        lemma_unit_shift(ee as int, su as nat);
        assert(e0 == ee + su);
    }
    if su > l {
        proof {
            assert(e0 == -149);
            lemma_pow2_unfold(su as nat);
            if l < su - 1 {
                lemma_pow2_strictly_increases(l as nat, (su - 1) as nat);
            }
            let ue = unit(ee as int);
            let h = pow2((su - 1) as nat) as int;
            let a = h * ue;
            assert(x < a) by (nonlinear_arith)
                requires
                    x == mm as int * ue,
                    mm < h,
                    ue > 0,
                    a == h * ue,
            ;
            assert(unit(e0 as int) == unit(-149));
            assert(unit(-149) == 2 * a) by (nonlinear_arith)
                requires
                    unit(-149) == pow2(su as nat) as int * ue,
                    pow2(su as nat) == 2 * h,
                    a == h * ue,
            ;
            assert(0x1ff_ffff * unit(103) > 0) by (nonlinear_arith)
                requires
                    unit(103) > 0,
            ;
            lemma_unit_mono(-149, 103);
            assert(x < unit(-149));
            assert(x >= 0) by (nonlinear_arith)
                requires
                    x == mm as int * ue,
                    ue > 0,
            ;
            lemma_round_between(x, 0, -149, 0, -149i32);
            assert(picks_neighbour(mm as int * unit(ee as int), 0, -149, 0, -149i32));
        }
        return (B32::Fin { neg, m: 0, e: -149 }, Ghost((0int, -149int)));
    }
    let f = pw(su);
    proof {
        lemma_pow2_pos(su as nat);
    }
    let q0 = mm / f;
    let rem = mm % f;
    let half = f / 2;
    proof {
        lemma_pow2_unfold(su as nat);
        if l > su + 24 {
            assert(false);
        }
        lemma_pow2_adds(su as nat, 24);
        if (l as nat) < su + 24 {
            lemma_pow2_strictly_increases(l as nat, (su + 24) as nat);
        }
        lemma_div_below(mm as int, f as int, pow2(24) as int);
        if s == ll - 24 {
            lemma_pow2_adds(su as nat, 23);
            lemma_div_above(mm as int, f as int, pow2(23) as int);
        }
        assert(mm == q0 * f + rem) by (nonlinear_arith)
            requires
                q0 == mm / f,
                rem == mm % f,
                f > 0,
        ;
        assert(f == 2 * half);
        let ue = unit(ee as int);
        let u0 = unit(e0 as int);
        assert(x == q0 as int * u0 + rem as int * ue) by (nonlinear_arith)
            requires
                x == mm as int * ue,
                u0 == f as int * ue,
                mm == q0 * f + rem,
        ;
        assert(2 * (rem as int * ue) > u0 <==> rem > half) by (nonlinear_arith)
            requires
                u0 == f as int * ue,
                f == 2 * half,
                ue > 0,
        ;
        assert(2 * (rem as int * ue) == u0 <==> rem == half) by (nonlinear_arith)
            requires
                u0 == f as int * ue,
                f == 2 * half,
                ue > 0,
        ;
        assert(0 <= rem as int * ue < u0) by (nonlinear_arith)
            requires
                u0 == f as int * ue,
                rem < f,
                ue > 0,
        ;
    }
    let up = rem > half || (rem == half && q0 % 2 == 1);
    let m1 = if up {
        q0 + 1
    } else {
        q0
    };
    let ghost u0 = unit(e0 as int);
    if m1 == 0 {
        proof {
            assert(e0 == -149);
            assert(q0 == 0);
            assert(0 <= x < u0);
            assert(u0 == unit(-149));
            assert(0 * unit(-149) == 0 && 1 * unit(-149) == unit(-149));
            lemma_round_between(x, 0, -149, 0, -149i32);
            assert(picks_neighbour(mm as int * unit(ee as int), 0, -149, 0, -149i32));
            assert(0x1ff_ffff * unit(103) > 0) by (nonlinear_arith)
                requires
                    unit(103) > 0,
            ;
            lemma_unit_mono(-149, 103);
        }
        return (B32::Fin { neg, m: 0, e: -149 }, Ghost((0int, -149int)));
    }
    let carry = m1 == LIMIT as u128;
    let m: u128 = if carry {
        HIDDEN as u128
    } else {
        m1
    };
    let e: i64 = if carry {
        e0 + 1
    } else {
        e0
    };
    proof {
        lemma_unit_shift(e0 as int, 1);
        assert(mag(m as u32, e as i32) == m1 as int * u0) by (nonlinear_arith)
            requires
                mag(m as u32, e as i32) == m as int * unit(e as int),
                carry ==> m == 0x80_0000 && unit(e as int) == 2 * u0,
                !carry ==> m == m1 && e == e0,
                carry ==> m1 == 0x100_0000,
                u0 == unit(e0 as int),
        ;
    }
    if e > 104 {
        proof {
            if e0 >= 105 {
                lemma_unit_mono(105, e0 as int);
                assert(x >= 0x80_0000 * (4 * unit(103))) by (nonlinear_arith)
                    requires
                        x >= q0 as int * u0,
                        q0 >= 0x80_0000,
                        u0 >= 4 * unit(103),
                ;
            } else {
                assert(e0 == 104 && carry);
                assert(x >= 0x1ff_ffff * unit(103)) by (nonlinear_arith)
                    requires
                        x == q0 as int * u0 + (x - q0 as int * u0),
                        2 * (x - q0 as int * u0) >= u0,
                        q0 == 0xff_ffff,
                        u0 == 2 * unit(103),
                ;
            }
        }
        return (B32::Inf { neg }, Ghost((0int, 0int)));
    }
    proof {
        lemma_unit_mono(e0 as int, 104);
        if carry {
            lemma_unit_mono(e0 as int, 103);
            assert(x < 0x100_0000 * unit(103)) by (nonlinear_arith)
                requires
                    x < q0 as int * u0 + u0,
                    q0 + 1 == 0x100_0000,
                    0 < u0 <= unit(103),
            ;
        } else if up {
            assert(x < 0xff_ffff * (2 * unit(103))) by (nonlinear_arith)
                requires
                    x < q0 as int * u0 + u0,
                    q0 + 1 <= 0xff_ffff,
                    0 < u0 <= 2 * unit(103),
            ;
        } else if q0 == 0xff_ffff {
            assert(2 * (x - q0 as int * u0) < u0);
            assert(x < 0x1ff_ffff * unit(103)) by (nonlinear_arith)
                requires
                    2 * (x - q0 as int * u0) < u0,
                    q0 == 0xff_ffff,
                    0 < u0 <= 2 * unit(103),
            ;
        } else {
            assert(x < 0xff_ffff * (2 * unit(103))) by (nonlinear_arith)
                requires
                    x < q0 as int * u0 + u0,
                    q0 + 1 <= 0xff_ffff,
                    0 < u0 <= 2 * unit(103),
            ;
        }
        assert(x < (q0 as int + 1) * u0) by (nonlinear_arith)
            requires
                x < q0 as int * u0 + u0,
        ;
        assert(u0 > 0);
        assert(q0 as int * u0 != (q0 as int + 1) * u0) by (nonlinear_arith)
            requires
                u0 > 0,
        ;
        lemma_round_between(x, q0 as int, e0 as int, m as u32, e as i32);
    assert(picks_neighbour(mm as int * unit(ee as int), q0 as int, e0 as int, m as u32, e as i32));
    }
    (B32::Fin { neg, m: m as u32, e: e as i32 }, Ghost((q0 as int, e0 as int)))
}

/// The binary32 value nearest to `(-1)^neg * mm * 2^ee` (ties to even), infinite when it
/// is too large.
pub fn round_pack(neg: bool, mm: u128, ee: i64) -> (r: B32)
    requires
        mm < 0x1_0000_0000_0000_0000,
        -2000 <= ee <= 2000,
    ensures
        wf(r),
        rounds_to(neg, mm as int * unit(ee as int), r),
{
    round_core(neg, mm, ee).0
}

/// The value nearest to `x` (scaled) with sign `neg`.
pub open spec fn rounded(neg: bool, x: int) -> B32 {
    choose|r: B32| rounds_to(neg, x, r)
}

/// Zero rounds to `+0.0`, the value whose bits are all zero.
pub proof fn lemma_zero_rounds_to_positive_zero()
    ensures
        rounded(false, 0) == from_bits_spec(0),
{
    let z = B32::Fin { neg: false, m: 0, e: -149i32 };
    assert(from_bits_spec(0) == z);
    lemma_exact_rounds(false, 0, -149i32);
    assert(mag(0, -149i32) == 0);
    lemma_rounds_unique(false, 0, rounded(false, 0), z);
}

/// `n` converted to binary32 (`n as f32`).
pub fn from_u32(n: u32) -> (r: B32)
    ensures
        wf(r),
        rounds_to(false, n as int * unit(0), r),
        r == rounded(false, n as int * unit(0)),
{
    let r = round_pack(false, n as u128, 0);
    proof {
        lemma_rounds_unique(false, n as int * unit(0), r, rounded(false, n as int * unit(0)));
    }
    r
}

/// `n / 2` (exact for the small constants it serves).
pub fn half_of(n: u32) -> (r: B32)
    ensures
        wf(r),
        rounds_to(false, n as int * unit(-1), r),
        r == rounded(false, n as int * unit(-1)),
{
    let r = round_pack(false, n as u128, -1);
    proof {
        lemma_rounds_unique(false, n as int * unit(-1), r, rounded(false, n as int * unit(-1)));
    }
    r
}

/// The largest finite binary32 value, `(2^24 - 1) * 2^104`.
pub fn max_value() -> (r: B32)
    ensures
        wf(r),
        r == (B32::Fin { neg: false, m: 0xff_ffff, e: 104 }),
{
    B32::Fin { neg: false, m: LIMIT - 1, e: 104 }
}

/// A finite value with its mantissa shifted up to the hidden bit (for nonzero values).
fn normalized(m: u32, e: i32) -> (r: (u128, i64))
    requires
        0 < m < LIMIT,
        -149 <= e <= 104,
    ensures
        HIDDEN <= r.0 < LIMIT,
        -180 <= r.1 <= 104,
        r.1 <= e,
        r.0 as int * unit(r.1 as int) == mag(m, e),
        r.0 as int == m as int * pow2((e - r.1) as nat),
{
    let mut mm: u128 = m as u128;
    let mut ee: i64 = e as i64;
    let mut k: u32 = 0;
    proof {
        lemma2_to64();
    }
    while mm < HIDDEN as u128
        invariant
            0 < mm < LIMIT,
            k <= 24,
            ee == e - k,
            mm >= pow2(k as nat),
            mm == m as int * pow2(k as nat),
        decreases LIMIT - mm,
    {
        proof {
            lemma2_to64();
            lemma_pow2_unfold((k + 1) as nat);
            if k >= 23 {
                if k > 23 {
                    lemma_pow2_strictly_increases(23, k as nat);
                }
                assert(false);
            }
            assert(m as int * pow2((k + 1) as nat) == 2 * (m as int * pow2(k as nat))) by (nonlinear_arith)
                requires
                    pow2((k + 1) as nat) == 2 * pow2(k as nat),
            ;
        }
        mm = mm * 2;
        ee = ee - 1;
        k = k + 1;
    }
    proof {
        lemma_unit_shift(ee as int, k as nat);
        assert(ee + k == e);
        assert((e - ee) as nat == k as nat);
        assert(mm as int * unit(ee as int) == m as int * unit(e as int)) by (nonlinear_arith)
            requires
                mm == m as int * pow2(k as nat),
                unit(e as int) == pow2(k as nat) as int * unit(ee as int),
        ;
    }
    (mm, ee)
}

/// `-x`: the sign flipped (NaN stays NaN).
pub open spec fn negated(x: B32) -> B32 {
    match x {
        B32::Fin { neg, m, e } => B32::Fin { neg: !neg, m, e },
        B32::Inf { neg } => B32::Inf { neg: !neg },
        B32::NaN => B32::NaN,
    }
}

/// `|x|`: the sign cleared (NaN stays NaN).
pub open spec fn absolute(x: B32) -> B32 {
    match x {
        B32::Fin { m, e, .. } => B32::Fin { neg: false, m, e },
        B32::Inf { .. } => B32::Inf { neg: false },
        B32::NaN => B32::NaN,
    }
}

/// `-x`.
pub fn neg(x: B32) -> (r: B32)
    requires
        wf(x),
    ensures
        wf(r),
        r == negated(x),
{
    match x {
        B32::Fin { neg, m, e } => B32::Fin { neg: !neg, m, e },
        B32::Inf { neg } => B32::Inf { neg: !neg },
        B32::NaN => B32::NaN,
    }
}

/// `|x|`.
pub fn abs(x: B32) -> (r: B32)
    requires
        wf(x),
    ensures
        wf(r),
        r == absolute(x),
{
    match x {
        B32::Fin { m, e, .. } => B32::Fin { neg: false, m, e },
        B32::Inf { .. } => B32::Inf { neg: false },
        B32::NaN => B32::NaN,
    }
}

/// `x` with the sign `neg`.
pub open spec fn signed(neg: bool, x: int) -> int {
    if neg {
        -x
    } else {
        x
    }
}

/// `|x|`.
pub open spec fn abs_int(x: int) -> int {
    if x < 0 {
        -x
    } else {
        x
    }
}

/// `a + b` as IEEE 754 defines it: NaN for a NaN operand or opposite infinities, an
/// infinity for an infinite operand; for finite operands the exact sum rounded to nearest,
/// ties to even, and an exact zero sum is `+0` unless both operands are `-0`.
pub open spec fn plus_spec(a: B32, b: B32, r: B32) -> bool {
    match (a, b) {
        (B32::NaN, _) => r is NaN,
        (_, B32::NaN) => r is NaN,
        (B32::Inf { neg: na }, B32::Inf { neg: nb }) => if na == nb {
            r == a
        } else {
            r is NaN
        },
        (B32::Inf { .. }, _) => r == a,
        (_, B32::Inf { .. }) => r == b,
        (B32::Fin { neg: na, m: ma, e: ea }, B32::Fin { neg: nb, m: mb, e: eb }) => {
            let sum = signed(na, mag(ma, ea)) + signed(nb, mag(mb, eb));
            if sum == 0 {
                r == B32::Fin { neg: na && nb && ma == 0 && mb == 0, m: 0, e: -149i32 }
            } else {
                rounds_to(sum < 0, abs_int(sum), r)
            }
        },
    }
}

/// A binary32 value rounds to itself.
proof fn lemma_exact_rounds(neg: bool, m: u32, e: i32)
    requires
        canonical(m, e),
    ensures
        rounds_to(neg, mag(m, e), B32::Fin { neg, m, e }),
{
    lemma_top_units();
    lemma_unit_mono(e as int, 104);
    lemma_unit_shift(e as int, 0);
    let u = unit(e as int);
    assert(mag(m, e) <= 0xff_ffff * (2 * unit(103))) by (nonlinear_arith)
        requires
            mag(m, e) == m as int * u,
            m <= 0xff_ffff,
            0 < u <= 2 * unit(103),
    ;
    assert(mag(m, e) < (m as int + 1) * u) by (nonlinear_arith)
        requires
            mag(m, e) == m as int * u,
            u > 0,
    ;
    assert(m as int * u != (m as int + 1) * u) by (nonlinear_arith)
        requires
            u > 0,
    ;
    lemma_round_between(mag(m, e), m as int, e as int, m, e);
}

/// Adding a magnitude `delta` below `2^(e - 15)` to a normal `m * 2^e` (or taking it away)
/// rounds back to `m * 2^e`.
proof fn lemma_tiny_addend(neg: bool, m: u32, e: i32, delta: int, down: bool)
    requires
        canonical(m, e),
        e > -149,
        0 <= delta < unit(e - 15),
    ensures
        rounds_to(neg, if down { mag(m, e) - delta } else { mag(m, e) + delta }, B32::Fin { neg, m, e }),
{
    lemma_top_units();
    lemma2_to64();
    let u = unit(e as int);
    lemma_unit_shift(e - 15, 15);
    lemma_unit_shift(e - 1, 1);
    lemma_unit_shift(e - 15, 14);
    let t = unit(e - 15);
    assert(e - 15 + 15 == e && e - 1 + 1 == e && e - 15 + 14 == e - 1);
    assert(u == 0x8000 * t);
    let v = unit(e - 1);
    assert(v == 0x4000 * t);
    assert(u == 2 * v);
    lemma_unit_mono(e as int, 104);
    let x = if down {
        mag(m, e) - delta
    } else {
        mag(m, e) + delta
    };
    assert(mag(m, e) == m as int * u);
    assert(x <= m as int * u + delta);
    assert(m as int * u <= 0xff_ffff * u) by (nonlinear_arith)
        requires
            m <= 0xff_ffff,
            u > 0,
    ;
    assert(0xff_ffff * u <= 0xff_ffff * (2 * unit(103))) by (nonlinear_arith)
        requires
            u <= 2 * unit(103),
    ;
    assert(!overflows(x));
    assert(delta < u && 2 * delta < v);
    if !down || delta == 0 {
        assert(m as int * u != (m as int + 1) * u) by (nonlinear_arith)
            requires
                u > 0,
        ;
        assert(x < (m as int + 1) * u) by (nonlinear_arith)
            requires
                x == m as int * u + delta,
                delta < u,
        ;
        lemma_round_between(x, m as int, e as int, m, e);
    } else if m > HIDDEN {
        let lo = (m as int - 1) * u;
        assert(lo == m as int * u - u) by (nonlinear_arith)
            requires
                lo == (m as int - 1) * u,
        ;
        assert((m as int - 1 + 1) * u == m as int * u);
        assert(x - lo == u - delta);
        assert(2 * (x - lo) > u);
        lemma_round_between(x, m as int - 1, e as int, m, e);
    } else {
        assert(m == HIDDEN);
        let q: int = 0xff_ffff;
        assert(mag(m, e) == 0x100_0000 * v) by (nonlinear_arith)
            requires
                mag(m, e) == m as int * u,
                m == 0x80_0000,
                u == 2 * v,
        ;
        let lo = q * v;
        assert(lo == 0x100_0000 * v - v) by (nonlinear_arith)
            requires
                q == 0xff_ffff,
                lo == q * v,
        ;
        assert((q + 1) * v == 0x100_0000 * v) by (nonlinear_arith)
            requires
                q == 0xff_ffff,
        ;
        assert(x - lo == v - delta);
        assert(2 * (x - lo) > v);
        assert(e - 1 + 2200 >= 0);
        lemma_round_between(x, q, e - 1, m, e);
    }
}

/// Computes the sum, case by case.
fn plus_exact(a: B32, b: B32) -> (r: B32)
    requires
        wf(a),
        wf(b),
    ensures
        wf(r),
        plus_spec(a, b, r),
{
    match (a, b) {
        (B32::NaN, _) => B32::NaN,
        (_, B32::NaN) => B32::NaN,
        (B32::Inf { neg: na }, B32::Inf { neg: nb }) => if na == nb {
            a
        } else {
            B32::NaN
        },
        (B32::Inf { .. }, _) => a,
        (_, B32::Inf { .. }) => b,
        (B32::Fin { neg: na, m: ma, e: ea }, B32::Fin { neg: nb, m: mb, e: eb }) => {
            proof {
                lemma_scaled_sign(ma, ea);
                lemma_unit_shift(ea as int, 0);
                lemma_unit_shift(eb as int, 0);
                assert(mag(ma, ea) >= 0 && (mag(ma, ea) == 0 <==> ma == 0)) by (nonlinear_arith)
                    requires
                        mag(ma, ea) == ma as int * unit(ea as int),
                        unit(ea as int) > 0,
                ;
                assert(mag(mb, eb) >= 0 && (mag(mb, eb) == 0 <==> mb == 0)) by (nonlinear_arith)
                    requires
                        mag(mb, eb) == mb as int * unit(eb as int),
                        unit(eb as int) > 0,
                ;
            }
            if ma == 0 && mb == 0 {
                return B32::Fin { neg: na && nb, m: 0, e: -149 };
            }
            if ma == 0 {
                proof {
                    lemma_exact_rounds(nb, mb, eb);
                }
                return b;
            }
            if mb == 0 {
                proof {
                    lemma_exact_rounds(na, ma, ea);
                }
                return a;
            }
            // the operand with the larger exponent first
            let (n1, m1, e1, n2, m2, e2) = if ea >= eb {
                (na, ma, ea, nb, mb, eb)
            } else {
                (nb, mb, eb, na, ma, ea)
            };
            let d = (e1 - e2) as u32;
            if d > 38 {
                proof {
                    lemma2_to64();
                    lemma_unit_shift(e2 as int, 24);
                    lemma_unit_mono(e2 as int + 24, e1 - 15);
                    assert(mag(m2, e2) < unit(e1 - 15)) by (nonlinear_arith)
                        requires
                            mag(m2, e2) == m2 as int * unit(e2 as int),
                            m2 < 0x100_0000,
                            unit(e2 as int + 24) == 0x100_0000 * unit(e2 as int),
                            unit(e2 as int + 24) <= unit(e1 - 15),
                            unit(e2 as int) > 0,
                    ;
                    lemma_unit_shift(e1 - 15, 15);
                    assert(e1 - 15 + 15 == e1);
                    assert(mag(m1, e1) >= unit(e1 as int)) by (nonlinear_arith)
                        requires
                            mag(m1, e1) == m1 as int * unit(e1 as int),
                            m1 >= 1,
                            unit(e1 as int) > 0,
                    ;
                    lemma_tiny_addend(n1, m1, e1, mag(m2, e2), n1 != n2);
                }
                return if ea >= eb {
                    a
                } else {
                    b
                };
            }
            let f = pw(d);
            proof {
                lemma2_to64();
                lemma_pow2_adds(32, 6);
                if d < 38 {
                    lemma_pow2_strictly_increases(d as nat, 38);
                }
                assert((m1 as int) * (f as int) < 0x100_0000 * 0x40_0000_0000) by (nonlinear_arith)
                    requires
                        0 <= m1 < 0x100_0000,
                        0 <= f <= 0x40_0000_0000,
                ;
            }
            let big = m1 as u128 * f;
            let small = m2 as u128;
            proof {
                lemma_unit_shift(e2 as int, d as nat);
                assert(e2 + d == e1);
                assert(mag(m1, e1) == big as int * unit(e2 as int)) by (nonlinear_arith)
                    requires
                        mag(m1, e1) == m1 as int * unit(e1 as int),
                        unit(e1 as int) == f as int * unit(e2 as int),
                        big == m1 as u128 * f,
                ;
            }
            let (sign, mm) = if n1 == n2 {
                (n1, big + small)
            } else if big >= small {
                (n1, big - small)
            } else {
                (n2, small - big)
            };
            proof {
                let u2 = unit(e2 as int);
                let sum = signed(na, mag(ma, ea)) + signed(nb, mag(mb, eb));
                assert(sum == signed(n1, mag(m1, e1)) + signed(n2, mag(m2, e2)));
                assert(sum == signed(sign, mm as int * u2)) by (nonlinear_arith)
                    requires
                        sum == signed(n1, big as int * u2) + signed(n2, small as int * u2),
                        n1 == n2 ==> sign == n1 && mm == big + small,
                        n1 != n2 && big >= small ==> sign == n1 && mm == big - small,
                        n1 != n2 && big < small ==> sign == n2 && mm == small - big,
                ;
                assert(mm as int * u2 >= 0 && (mm as int * u2 == 0 <==> mm == 0)) by (nonlinear_arith)
                    requires
                        u2 > 0,
                ;
            }
            if mm == 0 {
                return B32::Fin { neg: false, m: 0, e: -149 };
            }
            round_pack(sign, mm, e2 as i64)
        },
    }
}

/// The value of `a + b`.
pub open spec fn plus_val(a: B32, b: B32) -> B32 {
    choose|r: B32| plus_spec(a, b, r)
}

/// `a + b`.
pub fn plus(a: B32, b: B32) -> (r: B32)
    requires
        wf(a),
        wf(b),
    ensures
        wf(r),
        plus_spec(a, b, r),
        r == plus_val(a, b),
{
    let r = plus_exact(a, b);
    proof {
        lemma_plus_unique(a, b, r, plus_val(a, b));
    }
    r
}

/// `a - b`: `a + (-b)`.
pub open spec fn minus_spec(a: B32, b: B32, r: B32) -> bool {
    plus_spec(a, negated(b), r)
}

/// The value of `a - b`.
pub open spec fn minus_val(a: B32, b: B32) -> B32 {
    plus_val(a, negated(b))
}

/// `a - b`.
pub fn minus(a: B32, b: B32) -> (r: B32)
    requires
        wf(a),
        wf(b),
    ensures
        wf(r),
        minus_spec(a, b, r),
        r == minus_val(a, b),
{
    plus(a, neg(b))
}

/// `a * b` as IEEE 754 defines it: NaN for a NaN operand or infinity times zero, infinity
/// for infinity times anything else, otherwise the exact product rounded to nearest, ties
/// to even, its sign the exclusive or of the signs.
pub open spec fn times_spec(a: B32, b: B32, r: B32) -> bool {
    match (a, b) {
        (B32::NaN, _) => r is NaN,
        (_, B32::NaN) => r is NaN,
        (B32::Inf { neg: na }, B32::Inf { neg: nb }) => r == B32::Inf { neg: na != nb },
        (B32::Inf { neg: na }, B32::Fin { neg: nb, m, .. }) => if m == 0 {
            r is NaN
        } else {
            r == B32::Inf { neg: na != nb }
        },
        (B32::Fin { neg: na, m, .. }, B32::Inf { neg: nb }) => if m == 0 {
            r is NaN
        } else {
            r == B32::Inf { neg: na != nb }
        },
        (B32::Fin { neg: na, m: ma, e: ea }, B32::Fin { neg: nb, m: mb, e: eb }) => rounds_to(
            na != nb,
            ma as int * mb as int * unit(ea + eb),
            r,
        ),
    }
}

/// Computes the product, case by case.
fn times_exact(a: B32, b: B32) -> (r: B32)
    requires
        wf(a),
        wf(b),
    ensures
        wf(r),
        times_spec(a, b, r),
{
    match (a, b) {
        (B32::NaN, _) => B32::NaN,
        (_, B32::NaN) => B32::NaN,
        (B32::Inf { neg: na }, B32::Inf { neg: nb }) => B32::Inf { neg: na != nb },
        (B32::Inf { neg: na }, B32::Fin { neg: nb, m, .. }) => if m == 0 {
            B32::NaN
        } else {
            B32::Inf { neg: na != nb }
        },
        (B32::Fin { neg: na, m, .. }, B32::Inf { neg: nb }) => if m == 0 {
            B32::NaN
        } else {
            B32::Inf { neg: na != nb }
        },
        (B32::Fin { neg: na, m: ma, e: ea }, B32::Fin { neg: nb, m: mb, e: eb }) => {
            proof {
                assert((ma as int) * (mb as int) < 0x100_0000 * 0x100_0000) by (nonlinear_arith)
                    requires
                        0 <= ma < 0x100_0000,
                        0 <= mb < 0x100_0000,
                ;
            }
            round_pack(na != nb, ma as u128 * mb as u128, ea as i64 + eb as i64)
        },
    }
}

/// The value of `a * b`.
pub open spec fn times_val(a: B32, b: B32) -> B32 {
    choose|r: B32| times_spec(a, b, r)
}

/// `a * b`.
pub fn times(a: B32, b: B32) -> (r: B32)
    requires
        wf(a),
        wf(b),
    ensures
        wf(r),
        times_spec(a, b, r),
        r == times_val(a, b),
{
    let r = times_exact(a, b);
    proof {
        lemma_times_unique(a, b, r, times_val(a, b));
    }
    r
}

/// Distances to `n / d` and to `n2 / d2`, for the same ratio, differ by the same factor.
proof fn lemma_dist_scale(n: int, d: int, n2: int, d2: int, v: int)
    requires
        d > 0,
        d2 > 0,
        n * d2 == n2 * d,
    ensures
        dist(n, v * d) * d2 == dist(n2, v * d2) * d,
{
    assert((n - v * d) * d2 == (n2 - v * d2) * d) by (nonlinear_arith)
        requires
            n * d2 == n2 * d,
    ;
    assert((n >= v * d) == (n2 >= v * d2)) by (nonlinear_arith)
        requires
            (n - v * d) * d2 == (n2 - v * d2) * d,
            d > 0,
            d2 > 0,
    ;
    assert((v * d - n) * d2 == (v * d2 - n2) * d) by (nonlinear_arith)
        requires
            (n - v * d) * d2 == (n2 - v * d2) * d,
    ;
}

/// Rounding `n / d` depends on the ratio only.
proof fn lemma_ratio_invariance(neg: bool, n: int, d: int, n2: int, d2: int, r: B32)
    requires
        d > 0,
        d2 > 0,
        n * d2 == n2 * d,
    ensures
        rounds_ratio(neg, n, d, r) == rounds_ratio(neg, n2, d2, r),
{
    let th = 0x1ff_ffff * unit(103);
    assert((n >= th * d) == (n2 >= th * d2)) by (nonlinear_arith)
        requires
            d > 0,
            d2 > 0,
            n * d2 == n2 * d,
    ;
    if let B32::Fin { m, e, .. } = r {
        let v = mag(m, e);
        lemma_dist_scale(n, d, n2, d2, v);
        assert forall|m2: u32, e2: i32| #[trigger] canonical(m2, e2) implies ((dist(n, v * d) <= dist(
            n,
            mag(m2, e2) * d,
        )) == (dist(n2, v * d2) <= dist(n2, mag(m2, e2) * d2))) && ((dist(n, mag(m2, e2) * d)
            == dist(n, v * d)) == (dist(n2, mag(m2, e2) * d2) == dist(n2, v * d2))) by {
            let w = mag(m2, e2);
            lemma_dist_scale(n, d, n2, d2, w);
            let a = dist(n, v * d);
            let b = dist(n, w * d);
            let a2 = dist(n2, v * d2);
            let b2 = dist(n2, w * d2);
            assert((a <= b) == (a2 <= b2) && (b == a) == (b2 == a2)) by (nonlinear_arith)
                requires
                    a * d2 == a2 * d,
                    b * d2 == b2 * d,
                    d > 0,
                    d2 > 0,
            ;
        }
        assert(nearest_ratio(n, d, m, e) == nearest_ratio(n2, d2, m, e));
        assert(ties_ratio(n, d, m, e) == ties_ratio(n2, d2, m, e));
    }
}

/// A result rounded from `(2 * q + st) * 2^x` also rounds `n / d`, when `q` has at least
/// 26 bits and `n / d` lies in `[q, q + 1) * 2^(x + 1)`: on `q * 2^(x + 1)` exactly when
/// `st` is 0, strictly inside when it is 1 (the sticky bit of a longer quotient or root).
proof fn lemma_sticky_rounds(
    neg: bool,
    q: int,
    st: int,
    x: int,
    n: int,
    d: int,
    r: B32,
    q0: int,
    e0: int,
)
    requires
        -2000 <= x <= 2000,
        q >= 0x200_0000,
        st == 0 || st == 1,
        d > 0,
        q * unit(x + 1) * d <= n < (q + 1) * unit(x + 1) * d,
        st == 0 <==> n == q * unit(x + 1) * d,
        rounds_to(neg, (2 * q + st) * unit(x), r),
        r matches B32::Fin { m, e, .. } ==> picks_neighbour((2 * q + st) * unit(x), q0, e0, m, e),
    ensures
        rounds_ratio(neg, n, d, r),
{
    lemma2_to64();
    lemma_top_units();
    lemma_unit_shift(x, 1);
    let ue = unit(x);
    let u1 = unit(x + 1);
    assert(u1 == 2 * ue);
    let xv = (2 * q + st) * ue;
    let th = 0x1ff_ffff * unit(103);
    let delta = n - q * u1 * d;
    assert(0 <= delta < u1 * d) by (nonlinear_arith)
        requires
            q * u1 * d <= n < (q + 1) * u1 * d,
            delta == n - q * u1 * d,
    ;
    // the overflow threshold is met by both or by neither
    if x + 1 <= 103 {
        let k = (103 - (x + 1)) as nat;
        lemma_unit_shift(x + 1, k);
        assert(x + 1 + k == 103);
        let c1 = pow2(k) as int;
        let kk = 0x1ff_ffff * c1;
        assert(th == kk * u1) by (nonlinear_arith)
            requires
                th == 0x1ff_ffff * unit(103),
                unit(103) == c1 * u1,
                kk == 0x1ff_ffff * c1,
        ;
        assert(xv == (2 * q + st) * ue);
        assert((xv >= th) == (q >= kk)) by (nonlinear_arith)
            requires
                xv == (2 * q + st) * ue,
                th == kk * u1,
                u1 == 2 * ue,
                ue > 0,
                st == 0 || st == 1,
        ;
        assert((n >= th * d) == (q >= kk)) by (nonlinear_arith)
            requires
                q * u1 * d <= n < (q + 1) * u1 * d,
                th == kk * u1,
                u1 > 0,
                d > 0,
        ;
    } else {
        lemma_unit_mono(104, x + 1);
        assert(xv >= th) by (nonlinear_arith)
            requires
                xv == (2 * q + st) * ue,
                u1 == 2 * ue,
                u1 >= 2 * unit(103),
                unit(103) > 0,
                q >= 0x200_0000,
                st >= 0,
                th == 0x1ff_ffff * unit(103),
        ;
        assert(n >= th * d) by (nonlinear_arith)
            requires
                q * u1 * d <= n,
                u1 >= 2 * unit(103),
                unit(103) > 0,
                q >= 0x200_0000,
                th == 0x1ff_ffff * unit(103),
                d > 0,
        ;
    }
    assert(overflows(xv) == (n >= th * d));
    if !overflows(xv) {
        let (m, e) = match r {
            B32::Fin { m, e, .. } => (m, e),
            _ => (0u32, 0i32),
        };
        assert(r matches B32::Fin { .. });
        assert(picks_neighbour(xv, q0, e0, m, e));
        let pp = unit(e0);
        // the grid of the result is at least four times as coarse as 2^x
        if e0 <= x + 2 {
            lemma_unit_mono(e0, x + 2);
            lemma_unit_shift(x, 2);
            assert(x + 2 == x + (2 as nat));
            lemma_unit_shift(e0, 0);
            assert(pp > 0);
            assert((q0 + 1) * pp <= 0x100_0000 * (4 * ue)) by (nonlinear_arith)
                requires
                    0 <= q0,
                    q0 + 1 <= 0x100_0000,
                    0 < pp <= 4 * ue,
            ;
            assert(xv >= 0x400_0000 * ue) by (nonlinear_arith)
                requires
                    xv == (2 * q + st) * ue,
                    q >= 0x200_0000,
                    st >= 0,
                    ue > 0,
            ;
            assert(false);
        }
        let j = (e0 - (x + 2)) as nat;
        lemma_unit_shift(x + 2, j);
        lemma_unit_shift(x, 2);
        assert(x + 2 + j == e0);
        assert(x + 2 == x + (2 as nat));
        let w = pow2(j) as int;
        if j > 0 {
            lemma_pow2_strictly_increases(0, j);
        }
        assert(w >= 1);
        assert(pp == 4 * w * ue) by (nonlinear_arith)
            requires
                pp == w * unit(x + 2),
                unit(x + 2) == 4 * ue,
        ;
        let lo = q0 * pp;
        assert(lo == 4 * q0 * w * ue) by (nonlinear_arith)
            requires
                lo == q0 * pp,
                pp == 4 * w * ue,
        ;
        // q0 * 2w <= q < q + 1 <= (q0 + 1) * 2w
        assert(2 * q0 * w <= q && q + 1 <= 2 * (q0 + 1) * w) by (nonlinear_arith)
            requires
                lo <= xv < (q0 + 1) * pp,
                lo == 4 * q0 * w * ue,
                pp == 4 * w * ue,
                xv == (2 * q + st) * ue,
                st == 0 || st == 1,
                ue > 0,
        ;
        let t = q - 2 * q0 * w;
        assert(xv - lo == (2 * t + st) * ue) by (nonlinear_arith)
            requires
                xv == (2 * q + st) * ue,
                lo == 4 * q0 * w * ue,
                t == q - 2 * q0 * w,
        ;
        let lod = lo * d;
        let ppd = pp * d;
        assert(lod == 2 * q0 * w * u1 * d && ppd == 2 * w * u1 * d) by (nonlinear_arith)
            requires
                lod == lo * d,
                ppd == pp * d,
                lo == 4 * q0 * w * ue,
                pp == 4 * w * ue,
                u1 == 2 * ue,
        ;
        assert(n - lod == t * u1 * d + delta) by (nonlinear_arith)
            requires
                delta == n - q * u1 * d,
                lod == 2 * q0 * w * u1 * d,
                t == q - 2 * q0 * w,
        ;
        let ud = u1 * d;
        assert(ud > 0 && t * ud == t * u1 * d && 2 * w * ud == 2 * w * u1 * d) by (nonlinear_arith)
            requires
                u1 > 0,
                d > 0,
                ud == u1 * d,
        ;
        assert(2 * (xv - lo) == (2 * t + st) * u1) by (nonlinear_arith)
            requires
                xv - lo == (2 * t + st) * ue,
                u1 == 2 * ue,
        ;
        assert(pp == 2 * w * u1) by (nonlinear_arith)
            requires
                pp == 4 * w * ue,
                u1 == 2 * ue,
        ;
        assert((2 * (xv - lo) > pp) == (2 * (n - lod) > ppd) && (2 * (xv - lo) == pp) == (2 * (n
            - lod) == ppd)) by (nonlinear_arith)
            requires
                2 * (xv - lo) == (2 * t + st) * u1,
                pp == 2 * w * u1,
                n - lod == t * ud + delta,
                ppd == 2 * w * ud,
                ppd == pp * d,
                ud == u1 * d,
                u1 > 0,
                ud > 0,
                d > 0,
                st == 0 ==> delta == 0,
                st == 1 ==> 0 < delta < ud,
                st == 0 || st == 1,
                t >= 0,
                w >= 1,
        ;
        assert(q0 * unit(e0) * d <= n < (q0 + 1) * unit(e0) * d) by (nonlinear_arith)
            requires
                2 * q0 * w <= q,
                q + 1 <= 2 * (q0 + 1) * w,
                q * u1 * d <= n < (q + 1) * u1 * d,
                unit(e0) == pp,
                pp == 2 * w * u1,
                u1 > 0,
                d > 0,
        ;
        assert(q0 * unit(e0) * d == lod && unit(e0) * d == ppd);
        lemma_round_between_ratio(n, d, q0, e0, m, e);
    }
}

/// `a / b` as IEEE 754 defines it: NaN for a NaN operand, two infinities or two zeros;
/// infinity over a finite value, or a nonzero value over zero, is infinite; a finite value
/// over infinity, or zero over a nonzero value, is zero; otherwise the exact quotient
/// rounded to nearest, ties to even. The sign is the exclusive or of the signs.
pub open spec fn quotient_spec(a: B32, b: B32, r: B32) -> bool {
    match (a, b) {
        (B32::NaN, _) => r is NaN,
        (_, B32::NaN) => r is NaN,
        (B32::Inf { .. }, B32::Inf { .. }) => r is NaN,
        (B32::Inf { neg: na }, B32::Fin { neg: nb, .. }) => r == B32::Inf { neg: na != nb },
        (B32::Fin { neg: na, .. }, B32::Inf { neg: nb }) => r == B32::Fin {
            neg: na != nb,
            m: 0,
            e: -149i32,
        },
        (B32::Fin { neg: na, m: ma, e: ea }, B32::Fin { neg: nb, m: mb, e: eb }) => if mb == 0 {
            if ma == 0 {
                r is NaN
            } else {
                r == B32::Inf { neg: na != nb }
            }
        } else if ma == 0 {
            r == B32::Fin { neg: na != nb, m: 0, e: -149i32 }
        } else {
            rounds_ratio(na != nb, ma as int * unit(ea - eb), mb as int, r)
        },
    }
}

/// Computes the quotient, case by case.
fn quotient_exact(a: B32, b: B32) -> (r: B32)
    requires
        wf(a),
        wf(b),
    ensures
        wf(r),
        quotient_spec(a, b, r),
{
    match (a, b) {
        (B32::NaN, _) => B32::NaN,
        (_, B32::NaN) => B32::NaN,
        (B32::Inf { .. }, B32::Inf { .. }) => B32::NaN,
        (B32::Inf { neg: na }, B32::Fin { neg: nb, .. }) => B32::Inf { neg: na != nb },
        (B32::Fin { neg: na, .. }, B32::Inf { neg: nb }) => B32::Fin { neg: na != nb, m: 0, e: -149 },
        (B32::Fin { neg: na, m: ma, e: ea }, B32::Fin { neg: nb, m: mb, e: eb }) => {
            if mb == 0 {
                return if ma == 0 {
                    B32::NaN
                } else {
                    B32::Inf { neg: na != nb }
                };
            }
            if ma == 0 {
                return B32::Fin { neg: na != nb, m: 0, e: -149 };
            }
            let (xa, ya) = normalized(ma, ea);
            let (xb, yb) = normalized(mb, eb);
            proof {
                lemma2_to64();
                assert(xa * 0x400_0000u128 < 0x100_0000 * 0x400_0000) by (nonlinear_arith)
                    requires
                        xa < 0x100_0000,
                ;
            }
            let num = xa * 0x400_0000u128;
            let q = num / xb;
            let rem = num % xb;
            proof {
                assert(q <= num) by (nonlinear_arith)
                    requires
                        q == num / xb,
                        xb >= 1,
                        num >= 0,
                ;
                assert(num == q * xb + rem && rem < xb) by (nonlinear_arith)
                    requires
                        q == num / xb,
                        rem == num % xb,
                        xb >= 1,
                ;
                assert(q >= 0x200_0000 && q < 0x800_0000) by (nonlinear_arith)
                    requires
                        num == q * xb + rem,
                        rem < xb,
                        num == xa * 0x400_0000,
                        0x80_0000 <= xa < 0x100_0000,
                        0x80_0000 <= xb < 0x100_0000,
                ;
            }
            let sticky: u128 = if rem != 0 {
                1
            } else {
                0
            };
            let x: i64 = ya - yb - 27;
            let (r, nb_ghost) = round_core(na != nb, q * 2 + sticky, x);
            proof {
                let neg = na != nb;
                let u1 = unit(x + 1);
                let big_n = num as int * u1;
                lemma_unit_shift(x + 1, 0);
                assert(q * u1 * xb <= big_n < (q + 1) * u1 * xb) by (nonlinear_arith)
                    requires
                        big_n == num as int * u1,
                        num == q * xb + rem,
                        rem < xb,
                        u1 > 0,
                ;
                assert((sticky == 0) == (big_n == q * u1 * xb)) by (nonlinear_arith)
                    requires
                        big_n == num as int * u1,
                        num == q * xb + rem,
                        u1 > 0,
                        sticky == 0 <==> rem == 0,
                ;
                assert((q * 2 + sticky) as int == 2 * q + sticky);
                lemma_sticky_rounds(
                    neg,
                    q as int,
                    sticky as int,
                    x as int,
                    big_n,
                    xb as int,
                    r,
                    nb_ghost@.0,
                    nb_ghost@.1,
                );
                // the same ratio as `ma * 2^ea / (mb * 2^eb)`
                let ka = (ea - ya) as nat;
                let kb = (eb - yb) as nat;
                lemma_unit_shift(x + 1, 26);
                assert(x + 1 + 26 == ya - yb);
                lemma_unit_shift(ea - eb, kb);
                lemma_unit_shift(ya - yb, ka);
                assert(ea - eb + kb == ea - yb && ya - yb + ka == ea - yb);
                let n = ma as int * unit(ea - eb);
                assert(big_n == xa as int * unit(ya - yb)) by (nonlinear_arith)
                    requires
                        big_n == num as int * u1,
                        num == xa * 0x400_0000,
                        unit(ya - yb) == pow2(26) as int * u1,
                        pow2(26) == 0x400_0000,
                ;
                assert(n * xb == big_n * mb) by (nonlinear_arith)
                    requires
                        n == ma as int * unit(ea - eb),
                        big_n == xa as int * unit(ya - yb),
                        xa as int == ma as int * pow2(ka),
                        xb as int == mb as int * pow2(kb),
                        unit(ea - yb) == pow2(kb) as int * unit(ea - eb),
                        unit(ea - yb) == pow2(ka) as int * unit(ya - yb),
                ;
                lemma_ratio_invariance(neg, n, mb as int, big_n, xb as int, r);
            }
            r
        },
    }
}

/// The value of `a / b`.
pub open spec fn quotient_val(a: B32, b: B32) -> B32 {
    choose|r: B32| quotient_spec(a, b, r)
}

/// `a / b`.
pub fn quotient(a: B32, b: B32) -> (r: B32)
    requires
        wf(a),
        wf(b),
    ensures
        wf(r),
        quotient_spec(a, b, r),
        r == quotient_val(a, b),
{
    let r = quotient_exact(a, b);
    proof {
        lemma_quotient_unique(a, b, r, quotient_val(a, b));
    }
    r
}

/// Largest `s` with `s * s <= n`.
fn isqrt(n: u128) -> (s: u128)
    requires
        n < 0x40_0000_0000_0000,
    ensures
        s * s <= n < (s + 1) * (s + 1),
        s < 0x800_0000,
{
    let mut lo: u128 = 0;
    let mut hi: u128 = 0x800_0000;
    assert(hi * hi > n) by (nonlinear_arith)
        requires
            hi == 0x800_0000,
            n < 0x40_0000_0000_0000,
    ;
    while lo + 1 < hi
        invariant
            lo < hi <= 0x800_0000,
            lo * lo <= n,
            n < hi * hi,
        decreases hi - lo,
    {
        let mid = lo + (hi - lo) / 2;
        assert(mid * mid <= 0x800_0000 * 0x800_0000) by (nonlinear_arith)
            requires
                mid < 0x800_0000,
        ;
        if mid * mid <= n {
            lo = mid;
        } else {
            hi = mid;
        }
    }
    lo
}

/// `|sqrt(y) - v| <= |sqrt(y) - w|` for `v, w >= 0`, compared through squares.
pub open spec fn sqrt_closer(y: int, v: int, w: int) -> bool {
    if v < w {
        4 * y <= (v + w) * (v + w)
    } else if v > w {
        4 * y >= (v + w) * (v + w)
    } else {
        true
    }
}

/// `m * 2^e` is as near to `sqrt(y)` as any binary32 magnitude.
pub open spec fn nearest_sqrt(y: int, m: u32, e: i32) -> bool {
    forall|m2: u32, e2: i32| #[trigger]
        canonical(m2, e2) ==> sqrt_closer(y, mag(m, e), mag(m2, e2))
}

/// When another binary32 magnitude is just as near to `sqrt(y)`, `m` is even.
pub open spec fn ties_sqrt(y: int, m: u32, e: i32) -> bool {
    forall|m2: u32, e2: i32| #[trigger]
        canonical(m2, e2) && mag(m2, e2) != mag(m, e) && 4 * y == (mag(m, e) + mag(m2, e2)) * (mag(
            m,
            e,
        ) + mag(m2, e2)) ==> m % 2 == 0
}

/// `r` is `sqrt(y)` (with `y` scaled by `2^4400`, so that the root is scaled by `2^2200`)
/// rounded to nearest, ties to even.
pub open spec fn rounds_sqrt(y: int, r: B32) -> bool {
    r matches B32::Fin { neg, m, e } && !neg && canonical(m, e) && nearest_sqrt(y, m, e)
        && ties_sqrt(y, m, e)
}

/// `sqrt(x)` as IEEE 754 defines it: NaN for NaN and values below zero, zeros and `+inf`
/// kept, otherwise the exact root rounded to nearest, ties to even.
pub open spec fn sqrt_spec(x: B32, r: B32) -> bool {
    match x {
        B32::NaN => r is NaN,
        B32::Inf { neg } => if neg {
            r is NaN
        } else {
            r == x
        },
        B32::Fin { neg, m, e } => if m == 0 {
            r == x
        } else if neg {
            r is NaN
        } else {
            rounds_sqrt(mag(m, e) * unit(0), r)
        },
    }
}

/// [`lemma_round_between`] for `sqrt(y)`.
proof fn lemma_round_between_sqrt(y: int, q0: int, e0: int, m: u32, e: i32)
    requires
        -149 <= e0 <= 2000,
        0 <= q0,
        e0 > -149 ==> q0 >= HIDDEN,
        (q0 * unit(e0)) * (q0 * unit(e0)) <= y < ((q0 + 1) * unit(e0)) * ((q0 + 1) * unit(e0)),
        mag(m, e) == q0 * unit(e0) || mag(m, e) == (q0 + 1) * unit(e0),
        mag(m, e) == (q0 + 1) * unit(e0) <==> (4 * y > (q0 * unit(e0) + (q0 + 1) * unit(e0)) * (q0
            * unit(e0) + (q0 + 1) * unit(e0)) || (4 * y == (q0 * unit(e0) + (q0 + 1) * unit(e0)) * (
        q0 * unit(e0) + (q0 + 1) * unit(e0)) && q0 % 2 == 1)),
        4 * y == (q0 * unit(e0) + (q0 + 1) * unit(e0)) * (q0 * unit(e0) + (q0 + 1) * unit(e0))
            ==> m % 2 == 0,
    ensures
        nearest_sqrt(y, m, e),
        ties_sqrt(y, m, e),
{
    lemma_unit_shift(e0, 0);
    let u = unit(e0);
    let lo = q0 * u;
    let hi = (q0 + 1) * u;
    assert(0 <= lo < hi) by (nonlinear_arith)
        requires
            lo == q0 * u,
            hi == (q0 + 1) * u,
            q0 >= 0,
            u > 0,
    ;
    let v = mag(m, e);
    assert forall|m2: u32, e2: i32| #[trigger] canonical(m2, e2) implies sqrt_closer(y, v, mag(m2, e2))
        && (mag(m2, e2) != v && 4 * y == (v + mag(m2, e2)) * (v + mag(m2, e2)) ==> m % 2 == 0) by {
        lemma_gap(q0, e0, m2, e2);
        lemma_unit_shift(e2 as int, 0);
        let w = mag(m2, e2);
        assert(w >= 0) by (nonlinear_arith)
            requires
                w == m2 as int * unit(e2 as int),
                unit(e2 as int) > 0,
        ;
        if v == lo {
            assert(4 * y <= (lo + hi) * (lo + hi));
            if w < lo {
                assert(4 * y > (v + w) * (v + w)) by (nonlinear_arith)
                    requires
                        lo * lo <= y,
                        0 <= w < lo,
                        v == lo,
                ;
            } else if w > lo {
                assert(w >= hi);
                if w > hi {
                    assert(4 * y < (v + w) * (v + w)) by (nonlinear_arith)
                        requires
                            4 * y <= (lo + hi) * (lo + hi),
                            0 <= lo < hi < w,
                            v == lo,
                    ;
                }
            }
        } else {
            assert(v == hi);
            assert(4 * y >= (lo + hi) * (lo + hi));
            if w > hi {
                assert(4 * y < (v + w) * (v + w)) by (nonlinear_arith)
                    requires
                        y < hi * hi,
                        0 <= hi < w,
                        v == hi,
                ;
            } else if w < hi {
                assert(w <= lo);
                if w < lo {
                    assert(4 * y > (v + w) * (v + w)) by (nonlinear_arith)
                        requires
                            4 * y >= (lo + hi) * (lo + hi),
                            0 <= w < lo < hi,
                            v == hi,
                    ;
                }
            }
        }
    }
}

/// A root rounded from `(2 * s + st) * 2^x` also rounds `sqrt(y)` when `y = a * 4^(x + 1)`
/// (scaled), `s` is the integer root of `a` with at least 26 bits, and `st` tells whether
/// `a` is a perfect square.
proof fn lemma_sqrt_sticky(s: int, st: int, a: int, x: int, y: int, r: B32, q0: int, e0: int)
    requires
        -2000 <= x <= 37,
        s >= 0x200_0000,
        s * s <= a < (s + 1) * (s + 1),
        a < 0x40_0000_0000_0000,
        st == 0 || st == 1,
        st == 0 <==> a == s * s,
        y == a * (unit(x + 1) * unit(x + 1)),
        rounds_to(false, (2 * s + st) * unit(x), r),
        r matches B32::Fin { m, e, .. } ==> picks_neighbour((2 * s + st) * unit(x), q0, e0, m, e),
    ensures
        rounds_sqrt(y, r),
{
    lemma2_to64();
    lemma_top_units();
    lemma_unit_shift(x, 1);
    let ue = unit(x);
    let u1 = unit(x + 1);
    assert(u1 == 2 * ue);
    let xv = (2 * s + st) * ue;
    // far below the overflow threshold
    lemma_unit_mono(x + 1, 38);
    lemma_unit_shift(38, 65);
    assert(38 + 65 == 103);
    lemma_pow2_adds(32, 33);
    lemma_pow2_adds(32, 1);
    assert(xv <= (2 * s + 1) * ue) by (nonlinear_arith)
        requires
            xv == (2 * s + st) * ue,
            st <= 1,
            ue > 0,
    ;
    assert(s < 0x1_0000_0000) by (nonlinear_arith)
        requires
            s * s <= a,
            a < 0x40_0000_0000_0000,
            s >= 0,
    ;
    assert(xv < 0x1_0000_0000 * 4 * unit(38)) by (nonlinear_arith)
        requires
            xv <= (2 * s + 1) * ue,
            0 <= s < 0x1_0000_0000,
            u1 == 2 * ue,
            0 < u1 <= unit(38),
    ;
    assert(!overflows(xv)) by (nonlinear_arith)
        requires
            xv < 0x1_0000_0000 * 4 * unit(38),
            unit(103) == pow2(65) as int * unit(38),
            pow2(65) == pow2(32) * pow2(33),
            pow2(32) == 0x1_0000_0000,
            pow2(33) == pow2(32) * pow2(1),
            pow2(1) == 2,
            unit(38) > 0,
            overflows(xv) <==> xv >= 0x1ff_ffff * unit(103),
    ;
    let (m, e) = match r {
        B32::Fin { m, e, .. } => (m, e),
        _ => (0u32, 0i32),
    };
    assert(r matches B32::Fin { .. });
    assert(picks_neighbour(xv, q0, e0, m, e));
    let pp = unit(e0);
    if e0 <= x + 2 {
        lemma_unit_mono(e0, x + 2);
        lemma_unit_shift(x, 2);
        assert(x + 2 == x + (2 as nat));
        lemma_unit_shift(e0, 0);
        assert((q0 + 1) * pp <= 0x100_0000 * (4 * ue)) by (nonlinear_arith)
            requires
                0 <= q0,
                q0 + 1 <= 0x100_0000,
                0 < pp <= 4 * ue,
        ;
        assert(xv >= 0x400_0000 * ue) by (nonlinear_arith)
            requires
                xv == (2 * s + st) * ue,
                s >= 0x200_0000,
                st >= 0,
                ue > 0,
        ;
        assert(false);
    }
    let j = (e0 - (x + 2)) as nat;
    lemma_unit_shift(x + 2, j);
    lemma_unit_shift(x, 2);
    assert(x + 2 + j == e0);
    assert(x + 2 == x + (2 as nat));
    let w = pow2(j) as int;
    if j > 0 {
        lemma_pow2_strictly_increases(0, j);
    }
    assert(w >= 1);
    assert(pp == 4 * w * ue) by (nonlinear_arith)
        requires
            pp == w * unit(x + 2),
            unit(x + 2) == 4 * ue,
    ;
    let lo = q0 * pp;
    let hi = (q0 + 1) * pp;
    assert(lo == 4 * q0 * w * ue && hi == lo + pp) by (nonlinear_arith)
        requires
            lo == q0 * pp,
            hi == (q0 + 1) * pp,
            pp == 4 * w * ue,
    ;
    assert(2 * q0 * w <= s && s + 1 <= 2 * (q0 + 1) * w) by (nonlinear_arith)
        requires
            lo <= xv < hi,
            lo == 4 * q0 * w * ue,
            hi == lo + pp,
            pp == 4 * w * ue,
            xv == (2 * s + st) * ue,
            st == 0 || st == 1,
            ue > 0,
    ;
    let t = s - 2 * q0 * w;
    let k = 2 * q0 * w + w;
    // the root lies between the neighbours
    assert(lo * lo <= y < hi * hi) by (nonlinear_arith)
        requires
            2 * q0 * w <= s,
            s + 1 <= 2 * (q0 + 1) * w,
            lo == 4 * q0 * w * ue,
            hi == lo + pp,
            pp == 4 * w * ue,
            u1 == 2 * ue,
            ue > 0,
            q0 >= 0,
            w >= 1,
            s * s <= a < (s + 1) * (s + 1),
            y == a * (u1 * u1),
    ;
    assert(lo + hi == 2 * k * u1) by (nonlinear_arith)
        requires
            lo == 4 * q0 * w * ue,
            hi == lo + pp,
            pp == 4 * w * ue,
            u1 == 2 * ue,
            k == 2 * q0 * w + w,
    ;
    assert(2 * (xv - lo) == 2 * (2 * t + st) * ue) by (nonlinear_arith)
        requires
            xv == (2 * s + st) * ue,
            lo == 4 * q0 * w * ue,
            t == s - 2 * q0 * w,
    ;
    // the same side of the midpoint for the root and for the rounded input
    assert((2 * (xv - lo) > pp) == (2 * t + st > 2 * w) && (2 * (xv - lo) == pp) == (2 * t + st == 2
        * w)) by (nonlinear_arith)
        requires
            2 * (xv - lo) == 2 * (2 * t + st) * ue,
            pp == 4 * w * ue,
            ue > 0,
    ;
    let v2 = u1 * u1;
    assert(v2 > 0) by (nonlinear_arith)
        requires
            v2 == u1 * u1,
            u1 > 0,
    ;
    assert((4 * y > (lo + hi) * (lo + hi)) == (a > k * k) && (4 * y == (lo + hi) * (lo + hi)) == (a
        == k * k)) by (nonlinear_arith)
        requires
            lo + hi == 2 * k * u1,
            y == a * v2,
            v2 == u1 * u1,
            v2 > 0,
    ;
    assert(s - k == t - w);
    assert(k >= 0) by (nonlinear_arith)
        requires
            k == 2 * q0 * w + w,
            q0 >= 0,
            w >= 1,
    ;
    if st == 0 {
        assert((2 * t > 2 * w) == (a > k * k) && (2 * t == 2 * w) == (a == k * k)) by (nonlinear_arith)
            requires
                a == s * s,
                s - k == t - w,
                s >= 0,
                k >= 0,
        ;
    } else {
        if t >= w {
            assert(a > k * k) by (nonlinear_arith)
                requires
                    s * s < a,
                    s >= k,
                    k >= 0,
            ;
        } else {
            assert(a < k * k) by (nonlinear_arith)
                requires
                    a < (s + 1) * (s + 1),
                    s + 1 <= k,
                    s >= 0,
            ;
        }
    }
    assert(q0 * unit(e0) == lo && (q0 + 1) * unit(e0) == hi);
    lemma_round_between_sqrt(y, q0, e0, m, e);
}

/// Computes the root, case by case.
fn sqrt_exact(x: B32) -> (r: B32)
    requires
        wf(x),
    ensures
        wf(r),
        sqrt_spec(x, r),
{
    match x {
        B32::NaN => B32::NaN,
        B32::Inf { neg } => if neg {
            B32::NaN
        } else {
            x
        },
        B32::Fin { neg, m, e } => {
            if m == 0 {
                return x;
            }
            if neg {
                return B32::NaN;
            }
            let (mut mm, mut ee) = normalized(m, e);
            proof {
                lemma2_to64();
            }
            if ee % 2 != 0 {
                proof {
                    lemma_unit_shift(ee - 1, 1);
                    assert(ee - 1 + 1 == ee);
                    assert((mm * 2) as int * unit(ee - 1) == mm as int * unit(ee as int)) by (nonlinear_arith)
                        requires
                            unit(ee as int) == 2 * unit(ee - 1),
                    ;
                }
                mm = mm * 2;
                ee = ee - 1;
            }
            assert(mm * 0x1000_0000u128 < 0x200_0000 * 0x1000_0000) by (nonlinear_arith)
                requires
                    mm < 0x200_0000,
            ;
            let a = mm * 0x1000_0000u128;
            let s = isqrt(a);
            let rem = a - s * s;
            let sticky: u128 = if rem != 0 {
                1
            } else {
                0
            };
            proof {
                assert(s >= 0x200_0000) by (nonlinear_arith)
                    requires
                        a < (s + 1) * (s + 1),
                        a == mm * 0x1000_0000,
                        mm >= 0x80_0000,
                        s >= 0,
                ;
                assert(s * 2 + sticky < 0x1_0000_0000_0000_0000) by (nonlinear_arith)
                    requires
                        s < 0x800_0000,
                        sticky <= 1,
                ;
            }
            let h: i64 = (ee - 28) / 2;
            let x1: i64 = h - 1;
            let (r, nb) = round_core(false, s * 2 + sticky, x1);
            proof {
                assert(ee % 2 == 0);
                assert(2 * h == ee - 28);
                let y = mag(m, e) * unit(0);
                // a * 4^h equals the value of `x` (scaled twice)
                lemma_unit_shift((ee - 28) as int, 28);
                assert(ee - 28 + 28 == ee);
                lemma_pow2_adds((h + 2200) as nat, (h + 2200) as nat);
                lemma_pow2_adds((ee - 28 + 2200) as nat, 2200);
                assert((h + 2200) as nat + (h + 2200) as nat == (ee - 28 + 2200) as nat + 2200);
                assert(unit(h as int) * unit(h as int) == unit(ee - 28) * unit(0));
                assert(y == a as int * (unit(h as int) * unit(h as int))) by (nonlinear_arith)
                    requires
                        y == mag(m, e) * unit(0),
                        mag(m, e) == mm as int * unit(ee as int),
                        unit(ee as int) == pow2(28) as int * unit(ee - 28),
                        pow2(28) == 0x1000_0000,
                        a == mm * 0x1000_0000,
                        unit(h as int) * unit(h as int) == unit(ee - 28) * unit(0),
                ;
                assert(x1 + 1 == h);
                assert((s * 2 + sticky) as int == 2 * s + sticky);
                lemma_sqrt_sticky(
                    s as int,
                    sticky as int,
                    a as int,
                    x1 as int,
                    y,
                    r,
                    nb@.0,
                    nb@.1,
                );
            }
            r
        },
    }
}

/// The value of `sqrt(x)`.
pub open spec fn sqrt_val(x: B32) -> B32 {
    choose|r: B32| sqrt_spec(x, r)
}

/// `sqrt(x)`.
pub fn sqrt(x: B32) -> (r: B32)
    requires
        wf(x),
    ensures
        wf(r),
        sqrt_spec(x, r),
        r == sqrt_val(x),
{
    let r = sqrt_exact(x);
    proof {
        lemma_sqrt_spec_unique(x, r, sqrt_val(x));
    }
    r
}

/// `|x| < |y|` for finite canonical forms, as magnitudes.
fn mag_lt(ma: u32, ea: i32, mb: u32, eb: i32) -> (r: bool)
    requires
        wf(B32::Fin { neg: false, m: ma, e: ea }),
        wf(B32::Fin { neg: false, m: mb, e: eb }),
    ensures
        r == (mag(ma, ea) < mag(mb, eb)),
{
    proof {
        lemma_scaled_sign(ma, ea);
        lemma_scaled_sign(mb, eb);
        lemma_pow2_pos((ea + 2200) as nat);
        let pa = pow2((ea + 2200) as nat) as int;
        if ma > 0 && mb > 0 {
            if ea < eb {
                lemma_exponent_orders(ma, ea, mb, eb);
            } else if eb < ea {
                lemma_exponent_orders(mb, eb, ma, ea);
            } else {
                assert(ma < mb <==> ma as int * pa < mb as int * pa) by (nonlinear_arith)
                    requires
                        pa > 0,
                ;
            }
        }
    }
    if ma == 0 || mb == 0 {
        return ma == 0 && mb != 0;
    }
    if ea != eb {
        ea < eb
    } else {
        ma < mb
    }
}

/// `a < b` (false when either is NaN).
pub fn lt(a: B32, b: B32) -> (r: bool)
    requires
        wf(a),
        wf(b),
    ensures
        r == lt_spec(a, b),
{
    match (a, b) {
        (B32::NaN, _) => false,
        (_, B32::NaN) => false,
        (B32::Inf { neg: na }, B32::Inf { neg: nb }) => na && !nb,
        (B32::Inf { neg: na }, _) => na,
        (_, B32::Inf { neg: nb }) => !nb,
        (B32::Fin { neg: na, m: ma, e: ea }, B32::Fin { neg: nb, m: mb, e: eb }) => {
            proof {
                lemma_scaled_sign(ma, ea);
                lemma_scaled_sign(mb, eb);
            }
            if ma == 0 && mb == 0 {
                false
            } else if na && !nb {
                true
            } else if !na && nb {
                false
            } else if !na {
                mag_lt(ma, ea, mb, eb)
            } else {
                mag_lt(mb, eb, ma, ea)
            }
        },
    }
}

/// `a > b`.
pub fn gt(a: B32, b: B32) -> (r: bool)
    requires
        wf(a),
        wf(b),
    ensures
        r == lt_spec(b, a),
{
    lt(b, a)
}

/// `a.min(b)`: the other value when one is NaN.
pub fn min(a: B32, b: B32) -> (r: B32)
    requires
        wf(a),
        wf(b),
    ensures
        wf(r),
        r == min_spec(a, b),
{
    if matches!(a, B32::NaN) {
        b
    } else if matches!(b, B32::NaN) {
        a
    } else if lt(b, a) {
        b
    } else {
        a
    }
}

/// `a.max(b)`: the other value when one is NaN.
pub fn max(a: B32, b: B32) -> (r: B32)
    requires
        wf(a),
        wf(b),
    ensures
        wf(r),
        r == max_spec(a, b),
{
    if matches!(a, B32::NaN) {
        b
    } else if matches!(b, B32::NaN) {
        a
    } else if lt(a, b) {
        b
    } else {
        a
    }
}

/// `x.clamp(lo, hi)`: NaN stays NaN.
pub fn clamp(x: B32, lo: B32, hi: B32) -> (r: B32)
    requires
        wf(x),
        wf(lo),
        wf(hi),
    ensures
        wf(r),
        r == clamp_spec(x, lo, hi),
{
    let mut v = x;
    if lt(v, lo) {
        v = lo;
    }
    if gt(v, hi) {
        v = hi;
    }
    v
}

/// `floor(m * 2^e + 1/2)`: the magnitude rounded to a whole number, halves up.
pub open spec fn nearest_whole(m: u32, e: i32) -> int {
    if e >= 0 {
        m as int * pow2(e as nat) as int
    } else {
        (2 * m as int + pow2((-e) as nat) as int) / pow2((1 - e) as nat) as int
    }
}

/// `x.round()`: whole values and non-finite ones stay; others go to the nearest whole
/// number, halves away from zero, keeping the sign (a zero result keeps it too).
pub open spec fn round_spec(x: B32, r: B32) -> bool {
    match x {
        B32::Fin { neg, m, e } => if e >= 0 || m == 0 {
            r == x
        } else {
            rounds_to(neg, nearest_whole(m, e) * unit(0), r)
        },
        _ => r == x,
    }
}

/// Computes the rounded value, case by case.
fn round_exact(x: B32) -> (r: B32)
    requires
        wf(x),
    ensures
        wf(r),
        round_spec(x, r),
{
    match x {
        B32::Fin { neg, m, e } => {
            if e >= 0 || m == 0 {
                return x;
            }
            let k = (-e) as u32;
            proof {
                lemma2_to64();
                lemma_pow2_unfold((k + 1) as nat);
                assert((1 - e) as nat == (k + 1) as nat);
                assert((-e) as nat == k as nat);
            }
            if k > 24 {
                proof {
                    if k > 25 {
                        lemma_pow2_strictly_increases(25, k as nat);
                    }
                    let p = pow2(k as nat) as int;
                    assert((2 * m as int + p) / (2 * p) == 0) by (nonlinear_arith)
                        requires
                            0 <= m < 0x100_0000,
                            p >= 0x200_0000,
                    ;
                    assert(0 * unit(0) == 0);
                    lemma_zero_rounds(neg);
                }
                return B32::Fin { neg, m: 0, e: -149 };
            }
            let f = pw(k);
            proof {
                lemma_pow2_pos(k as nat);
            }
            let q = m as u128 / f;
            let rem = m as u128 % f;
            proof {
                assert(q <= m) by (nonlinear_arith)
                    requires
                        q == m as u128 / f,
                        f >= 1,
                ;
                assert(m == q * f + rem && rem < f) by (nonlinear_arith)
                    requires
                        q == m as u128 / f,
                        rem == m as u128 % f,
                        f >= 1,
                ;
            }
            let qr = if rem * 2 >= f {
                q + 1
            } else {
                q
            };
            proof {
                let n = 2 * m as int + f as int;
                let d = 2 * f as int;
                assert(qr * d <= n < (qr + 1) * d) by (nonlinear_arith)
                    requires
                        m == q * f + rem,
                        rem < f,
                        n == 2 * m as int + f as int,
                        d == 2 * f as int,
                        rem * 2 >= f ==> qr == q + 1,
                        rem * 2 < f ==> qr == q,
                ;
                assert(n / d == qr) by (nonlinear_arith)
                    requires
                        qr * d <= n < (qr + 1) * d,
                        d > 0,
                ;
                assert(pow2((k + 1) as nat) == d);
            }
            round_pack(neg, qr, 0)
        },
        _ => x,
    }
}

/// The value of `x.round()`.
pub open spec fn round_val(x: B32) -> B32 {
    choose|r: B32| round_spec(x, r)
}

/// `x.round()`: to the nearest integer, halves away from zero.
pub fn round(x: B32) -> (r: B32)
    requires
        wf(x),
    ensures
        wf(r),
        round_spec(x, r),
        r == round_val(x),
{
    let r = round_exact(x);
    proof {
        lemma_round_unique(x, r, round_val(x));
    }
    r
}

/// `x as u8`: truncated toward zero and saturated to 0..=255; NaN gives 0.
pub fn to_u8(x: B32) -> (r: u8)
    requires
        wf(x),
    ensures
        r == to_u8_spec(x),
{
    match x {
        B32::NaN => 0,
        B32::Inf { neg } => if neg {
            0
        } else {
            255
        },
        B32::Fin { neg, m, e } => {
            if neg {
                return 0;
            }
            if m == 0 {
                proof {
                    lemma_pow2_pos((-e) as nat);
                    let p = pow2((-e) as nat) as int;
                    assert(0int / p == 0) by (nonlinear_arith)
                        requires
                            p > 0,
                    ;
                }
                return 0;
            }
            if e >= 8 {
                proof {
                    lemma2_to64();
                    if e > 8 {
                        lemma_pow2_strictly_increases(8, e as nat);
                    }
                    let p = pow2(e as nat) as int;
                    assert(m as int * p >= p) by (nonlinear_arith)
                        requires
                            m >= 1,
                            p > 0,
                    ;
                }
                return 255;
            }
            if e >= 0 {
                let f = pw(e as u32);
                proof {
                    lemma2_to64();
                    if e < 8 {
                        lemma_pow2_strictly_increases(e as nat, 8);
                    }
                    assert((m as int) * (f as int) < 0x100_0000 * 0x100) by (nonlinear_arith)
                        requires
                            0 <= m < 0x100_0000,
                            0 <= f < 0x100,
                    ;
                }
                let v = m as u128 * f;
                return if v > 255 {
                    255
                } else {
                    v as u8
                };
            }
            let k = (-e) as u32;
            if k >= 32 {
                proof {
                    lemma2_to64();
                    lemma_pow2_strictly_increases(24, k as nat);
                    let p = pow2(k as nat) as int;
                    assert((m as int) / p == 0) by (nonlinear_arith)
                        requires
                            0 <= m < 0x100_0000,
                            p > 0x100_0000,
                    ;
                }
                return 0;
            }
            let f = pw(k);
            proof {
                lemma_pow2_pos(k as nat);
                assert(m as u128 / f <= m) by (nonlinear_arith)
                    requires
                        f >= 1,
                ;
            }
            let v = m as u128 / f;
            if v > 255 {
                255
            } else {
                v as u8
            }
        },
    }
}

/// The IEEE 754 bit pattern of a value: sign bit, 8 exponent bits biased by 127 (0 for
/// subnormals and zero, 255 for infinities and NaN), 23 fraction bits; NaN as the quiet NaN.
pub open spec fn bits_spec(x: B32) -> int {
    match x {
        B32::NaN => 0x7fc0_0000,
        B32::Inf { neg } => if neg {
            0xff80_0000
        } else {
            0x7f80_0000
        },
        B32::Fin { neg, m, e } => (if neg {
            0x8000_0000int
        } else {
            0
        }) + if m < HIDDEN {
            m as int
        } else {
            (e + 150) * 0x80_0000 + (m - HIDDEN)
        },
    }
}

/// The value a bit pattern stands for.
pub open spec fn from_bits_spec(bits: u32) -> B32 {
    let neg = bits >= 0x8000_0000;
    let rest = bits % 0x8000_0000;
    let biased = rest / 0x80_0000;
    let frac = rest % 0x80_0000;
    if biased == 255 {
        if frac == 0 {
            B32::Inf { neg }
        } else {
            B32::NaN
        }
    } else if biased == 0 {
        B32::Fin { neg, m: frac as u32, e: -149i32 }
    } else {
        B32::Fin { neg, m: (frac + HIDDEN) as u32, e: (biased - 150) as i32 }
    }
}

/// The bit pattern of `x` (`f32::to_bits`), NaN as the quiet NaN.
pub fn to_bits(x: B32) -> (r: u32)
    requires
        wf(x),
    ensures
        r == bits_spec(x),
{
    match x {
        B32::NaN => 0x7fc0_0000,
        B32::Inf { neg } => if neg {
            0xff80_0000
        } else {
            0x7f80_0000
        },
        B32::Fin { neg, m, e } => {
            let sign: u32 = if neg {
                0x8000_0000
            } else {
                0
            };
            if m < HIDDEN {
                sign + m
            } else {
                let biased = (e + 150) as u32;
                assert(biased * 0x80_0000 < 255 * 0x80_0000) by (nonlinear_arith)
                    requires
                        1 <= biased <= 254,
                ;
                sign + biased * 0x80_0000 + (m - HIDDEN)
            }
        },
    }
}

/// The value of a bit pattern (`f32::from_bits`).
pub fn from_bits(bits: u32) -> (r: B32)
    ensures
        wf(r),
        r == from_bits_spec(bits),
{
    let neg = bits >= 0x8000_0000;
    let rest = bits % 0x8000_0000;
    let biased = rest / 0x80_0000;
    let frac = rest % 0x80_0000;
    if biased == 255 {
        if frac == 0 {
            B32::Inf { neg }
        } else {
            B32::NaN
        }
    } else if biased == 0 {
        B32::Fin { neg, m: frac, e: -149 }
    } else {
        B32::Fin { neg, m: frac + HIDDEN, e: biased as i32 - 150 }
    }
}

/// Writing a value as bits and reading them back gives the value again (NaN aside, whose
/// payload is not kept).
pub proof fn law_bits_round_trip(x: B32)
    requires
        wf(x),
        !(x is NaN),
    ensures
        0 <= bits_spec(x) <= u32::MAX,
        from_bits_spec(bits_spec(x) as u32) == x,
{
    match x {
        B32::Fin { neg, m, e } => {
            let sign: int = if neg {
                0x8000_0000
            } else {
                0
            };
            if m >= HIDDEN {
                let b = e + 150;
                assert(1 <= b <= 254);
                let low = b * 0x80_0000 + (m - HIDDEN);
                assert(low < 0x8000_0000) by (nonlinear_arith)
                    requires
                        1 <= b <= 254,
                        0 <= m - HIDDEN < 0x80_0000,
                        low == b * 0x80_0000 + (m - HIDDEN),
                ;
                assert(low / 0x80_0000 == b && low % 0x80_0000 == m - HIDDEN) by (nonlinear_arith)
                    requires
                        1 <= b <= 254,
                        0 <= m - HIDDEN < 0x80_0000,
                        low == b * 0x80_0000 + (m - HIDDEN),
                ;
                assert((sign + low) % 0x8000_0000 == low);
                assert((sign + low) >= 0x8000_0000 <==> neg);
            } else {
                assert((sign + m) % 0x8000_0000 == m as int);
            }
        },
        _ => {},
    }
}

/// Reading a bit pattern and writing the value back gives the same bits, for every pattern
/// that is not a NaN.
pub proof fn law_bits_read_back(bits: u32)
    requires
        !(from_bits_spec(bits) is NaN),
    ensures
        wf(from_bits_spec(bits)),
        bits_spec(from_bits_spec(bits)) == bits,
{
    let rest = bits % 0x8000_0000;
    let biased = rest / 0x80_0000;
    let frac = rest % 0x80_0000;
    assert(rest == biased * 0x80_0000 + frac) by (nonlinear_arith)
        requires
            biased == rest / 0x80_0000,
            frac == rest % 0x80_0000,
    ;
    assert(biased <= 255) by (nonlinear_arith)
        requires
            biased == rest / 0x80_0000,
            0 <= rest < 0x8000_0000,
    ;
}

} // verus!
