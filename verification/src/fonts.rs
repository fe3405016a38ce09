//! Which of the system's CJK fonts the interface loads.

use vstd::prelude::*;

verus! {

/// Most CJK fonts loaded (the preferred one and fallbacks).
pub const MAX_CJK_FONTS: usize = 4;

/// Whether a candidate font file of `len` bytes is loaded next to the fonts already kept
/// (of sizes `kept`): it is not empty and no kept font has the same size (the same file
/// reached by another path).
pub fn accept_font(kept: &Vec<usize>, len: usize) -> (r: bool)
    ensures
        r == (len > 0 && !kept@.contains(len)),
{
    if len == 0 {
        return false;
    }
    let mut i: usize = 0;
    while i < kept.len()
        invariant
            i <= kept.len(),
            forall|j: int| 0 <= j < i ==> kept@[j] != len,
        decreases kept.len() - i,
    {
        if kept[i] == len {
            proof {
                assert(kept@[i as int] == len);
            }
            return false;
        }
        i = i + 1;
    }
    true
}

} // verus!
