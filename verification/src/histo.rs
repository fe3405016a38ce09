//! RGB histogram of a decoded image for the photo overlay.

use vstd::prelude::*;

verus! {

/// Pixel count above which the histogram samples every `n`-th pixel only.
pub const HISTO_SAMPLE_TARGET: usize = 200_000;

/// RGB histogram: 64 bins per channel and the largest bin (at least 1).
pub struct Histo {
    pub bins: [[u32; 64]; 3],
    pub max: u32,
}

/// Distance between sampled pixels for an image of `px` pixels.
pub open spec fn histo_step(px: nat) -> nat {
    if px / (HISTO_SAMPLE_TARGET as nat) >= 1 {
        px / (HISTO_SAMPLE_TARGET as nat)
    } else {
        1
    }
}

/// Among pixels `k * step` for `k < n` that lie below `px`, how many have channel `ch`
/// whose value falls in bin `bin` (value divided by 4).
pub open spec fn bin_count(rgba: Seq<u8>, px: nat, step: nat, ch: int, bin: int, n: nat) -> nat
    decreases n,
{
    if n == 0 {
        0
    } else {
        let k = (n - 1) as nat;
        bin_count(rgba, px, step, ch, bin, k) + if k * step < px && rgba[4 * (k * step) + ch]
            / 4 == bin {
            1nat
        } else {
            0nat
        }
    }
}

/// Largest element of `s`, 0 for an empty sequence.
pub open spec fn seq_max(s: Seq<u32>) -> u32
    decreases s.len(),
{
    if s.len() == 0 {
        0
    } else if s.last() > seq_max(s.drop_last()) {
        s.last()
    } else {
        seq_max(s.drop_last())
    }
}

/// The histogram of an RGBA buffer: bins count the sampled pixels (every
/// [`histo_step`]-th, the alpha byte ignored) and `max` is the largest bin, at least 1.
pub open spec fn is_histo_of(h: Histo, rgba: Seq<u8>) -> bool {
    let n = rgba.len();
    let px = n / 4;
    let step = histo_step(px);
    &&& forall|ch: int, bin: int|
        0 <= ch < 3 && 0 <= bin < 64 ==> #[trigger] h.bins@[ch]@[bin] == bin_count(
            rgba,
            px,
            step,
            ch,
            bin,
            px,
        )
    &&& h.max == if seq_max(h.bins@[0]@ + h.bins@[1]@ + h.bins@[2]@) >= 1 {
        seq_max(h.bins@[0]@ + h.bins@[1]@ + h.bins@[2]@)
    } else {
        1
    }
}

proof fn lemma_bin_count_le(rgba: Seq<u8>, px: nat, step: nat, ch: int, bin: int, n: nat)
    ensures
        bin_count(rgba, px, step, ch, bin, n) <= n,
    decreases n,
{
    if n > 0 {
        lemma_bin_count_le(rgba, px, step, ch, bin, (n - 1) as nat);
    }
}

proof fn lemma_bin_count_tail(rgba: Seq<u8>, px: nat, step: nat, ch: int, bin: int, j: nat, n: nat)
    requires
        j <= n,
        j * step >= px,
    ensures
        bin_count(rgba, px, step, ch, bin, n) == bin_count(rgba, px, step, ch, bin, j),
    decreases n,
{
    if n > j {
        let k = (n - 1) as nat;
        assert(k * step >= j * step) by (nonlinear_arith)
            requires
                k >= j,
        ;
        lemma_bin_count_tail(rgba, px, step, ch, bin, j, k);
    }
}

proof fn lemma_samples_bound(px: nat, step: nat, j: nat)
    requires
        step == histo_step(px),
        j * step < px,
    ensures
        j < 400_000,
{
    if px / 200_000 >= 1 {
        assert(px < 200_000 * (step + 1)) by (nonlinear_arith)
            requires
                step == px / 200_000,
        ;
        assert(j < 400_000) by (nonlinear_arith)
            requires
                j * step < px,
                px < 200_000 * (step + 1),
                step >= 1,
        ;
    } else {
        assert(px < 200_000);
    }
}

fn seq_max_step(m: u32, s: Ghost<Seq<u32>>, x: u32) -> (r: u32)
    requires
        m == seq_max(s@),
    ensures
        r == seq_max(s@.push(x)),
{
    assert(s@.push(x).drop_last() =~= s@);
    if x > m {
        x
    } else {
        m
    }
}

/// Histogram of an RGBA buffer (large images are sampled so the cost stays bounded).
pub fn compute_histo(rgba: &[u8]) -> (h: Histo)
    ensures
        is_histo_of(h, rgba@),
{
    let mut r = [0u32; 64];
    let mut g = [0u32; 64];
    let mut b = [0u32; 64];
    let n = rgba.len();
    let px = n / 4;
    let ghost pxn = px as nat;
    let step = if px / HISTO_SAMPLE_TARGET >= 1 {
        px / HISTO_SAMPLE_TARGET
    } else {
        1
    };
    let mut i: usize = 0;
    let ghost mut j: nat = 0;
    while i < px
        invariant
            px == rgba@.len() / 4,
            n == rgba@.len(),
            px == n / 4,
            step as nat == histo_step(px as nat),
            step >= 1,
            i == j * step,
            j * step < px + step,
            j > 0 ==> (j - 1) * step < px,
            forall|bin: int| 0 <= bin < 64 ==> #[trigger] r@[bin] == bin_count(rgba@, px as nat, step as nat, 0, bin, j),
            forall|bin: int| 0 <= bin < 64 ==> #[trigger] g@[bin] == bin_count(rgba@, px as nat, step as nat, 1, bin, j),
            forall|bin: int| 0 <= bin < 64 ==> #[trigger] b@[bin] == bin_count(rgba@, px as nat, step as nat, 2, bin, j),
            j <= 400_000,
        decreases px + step - i,
    {
        proof {
            lemma_samples_bound(px as nat, step as nat, j);
        }
        assert(i * 4 + 3 < n);
        let o = i * 4;
        let rv = (rgba[o] / 4) as usize;
        let gv = (rgba[o + 1] / 4) as usize;
        let bv = (rgba[o + 2] / 4) as usize;
        proof {
            assert forall|ch: int, bin: int| 0 <= ch < 3 && 0 <= bin < 64 implies bin_count(rgba@, px as nat, step as nat, ch, bin, j) <= j by {
                lemma_bin_count_le(rgba@, px as nat, step as nat, ch, bin, j);
            }
            assert(r@[rv as int] <= j);
            assert(g@[gv as int] <= j);
            assert(b@[bv as int] <= j);
        }
        r[rv] = r[rv] + 1;
        g[gv] = g[gv] + 1;
        b[bv] = b[bv] + 1;
        proof {
            assert(o == 4 * (j * step));
            j = j + 1;
        }
        i = i + step;
        proof {
            assert(i == j * step) by (nonlinear_arith)
                requires
                    i == (j - 1) * step + step,
            ;
        }
    }
    proof {
        assert forall|ch: int, bin: int| 0 <= ch < 3 && 0 <= bin < 64 implies bin_count(rgba@, px as nat, step as nat, ch, bin, px as nat) == bin_count(rgba@, px as nat, step as nat, ch, bin, j) by {
            assert(j <= px) by (nonlinear_arith)
                requires
                    j > 0 ==> (j - 1) * step < px,
                    step >= 1,
            ;
            lemma_bin_count_tail(rgba@, px as nat, step as nat, ch, bin, j, px as nat);
        }
    }
    let bins = [r, g, b];
    let ghost all = r@ + g@ + b@;
    let mut m: u32 = 0;
    let mut k: usize = 0;
    while k < 192
        invariant
            k <= 192,
            all == r@ + g@ + b@,
            all.len() == 192,
            m == seq_max(all.take(k as int)),
        decreases 192 - k,
    {
        let x = if k < 64 {
            r[k]
        } else if k < 128 {
            g[k - 64]
        } else {
            b[k - 128]
        };
        assert(x == all[k as int]);
        assert(all.take(k + 1) == all.take(k as int).push(x));
        m = seq_max_step(m, Ghost(all.take(k as int)), x);
        k = k + 1;
    }
    assert(all.take(192) == all);
    let max = if m >= 1 {
        m
    } else {
        1
    };
    let h = Histo { bins, max };
    assert(h.bins@[0] == r && h.bins@[1] == g && h.bins@[2] == b);
    h
}

} // verus!
