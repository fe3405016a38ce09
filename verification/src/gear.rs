//! The camera bodies and lenses found in a folder, offered as choices by the culling
//! filters: each name trimmed, blank names dropped, every name once, in the order in which
//! `String` values compare.

use crate::text::{chars_of, string_from_chars, trim, trim_range};
use vstd::prelude::*;

verus! {

// ---------------------------------------------------------------- order of names

/// `a` comes strictly before `b`: the order of `String` (byte-wise over UTF-8, which is the
/// same as character by character over code points), a proper prefix first.
pub open spec fn lex_lt(a: Seq<char>, b: Seq<char>) -> bool
    decreases a.len(),
{
    if b.len() == 0 {
        false
    } else if a.len() == 0 {
        true
    } else if a[0] != b[0] {
        a[0] < b[0]
    } else {
        lex_lt(a.drop_first(), b.drop_first())
    }
}

/// No name comes before itself.
pub proof fn lemma_lex_irreflexive(a: Seq<char>)
    ensures
        !lex_lt(a, a),
    decreases a.len(),
{
    if a.len() > 0 {
        lemma_lex_irreflexive(a.drop_first());
    }
}

/// The order is transitive.
pub proof fn lemma_lex_transitive(a: Seq<char>, b: Seq<char>, c: Seq<char>)
    requires
        lex_lt(a, b),
        lex_lt(b, c),
    ensures
        lex_lt(a, c),
    decreases a.len(),
{
    if a.len() > 0 && b.len() > 0 && c.len() > 0 && a[0] == b[0] && b[0] == c[0] {
        lemma_lex_transitive(a.drop_first(), b.drop_first(), c.drop_first());
    }
}

/// Of two different names, one comes first.
pub proof fn lemma_lex_total(a: Seq<char>, b: Seq<char>)
    requires
        a != b,
    ensures
        lex_lt(a, b) || lex_lt(b, a),
    decreases a.len(),
{
    if a.len() == 0 && b.len() == 0 {
        assert(a =~= b);
    } else if a.len() > 0 && b.len() > 0 && a[0] == b[0] {
        if a.drop_first() == b.drop_first() {
            assert(a =~= b) by {
                assert(a.drop_first().len() == b.drop_first().len());
                assert forall|i: int| 0 <= i < a.len() implies a[i] == b[i] by {
                    if i > 0 {
                        assert(a[i] == a.drop_first()[i - 1]);
                        assert(b[i] == b.drop_first()[i - 1]);
                    }
                }
            }
        }
        lemma_lex_total(a.drop_first(), b.drop_first());
    }
}

/// Whether `a` comes strictly before `b` (see [`lex_lt`]).
pub fn lex_less(a: &Vec<char>, b: &Vec<char>) -> (r: bool)
    ensures
        r == lex_lt(a@, b@),
{
    let mut i: usize = 0;
    assert(a@.skip(0) =~= a@);
    assert(b@.skip(0) =~= b@);
    while i < a.len() && i < b.len()
        invariant
            i <= a@.len(),
            i <= b@.len(),
            lex_lt(a@, b@) == lex_lt(a@.skip(i as int), b@.skip(i as int)),
        decreases a@.len() - i,
    {
        let x = a[i];
        let y = b[i];
        proof {
            assert(a@.skip(i as int)[0] == a@[i as int]);
            assert(b@.skip(i as int)[0] == b@[i as int]);
        }
        if x != y {
            return x < y;
        }
        proof {
            assert(a@.skip(i as int).drop_first() =~= a@.skip(i as int + 1));
            assert(b@.skip(i as int).drop_first() =~= b@.skip(i as int + 1));
        }
        i = i + 1;
    }
    i < b.len()
}

// ---------------------------------------------------------------- lists of names

/// Every name comes strictly before the next: sorted, and no name twice.
pub open spec fn strictly_sorted(s: Seq<Seq<char>>) -> bool {
    forall|i: int, j: int| 0 <= i < j < s.len() ==> lex_lt(#[trigger] s[i], #[trigger] s[j])
}

/// The names found among the raw values `raw`: each trimmed, blank ones left out.
pub open spec fn found_names(raw: Seq<Seq<char>>) -> Set<Seq<char>>
    decreases raw.len(),
{
    if raw.len() == 0 {
        Set::empty()
    } else {
        let t = trim(raw.last());
        let rest = found_names(raw.drop_last());
        if t.len() > 0 {
            rest.insert(t)
        } else {
            rest
        }
    }
}

/// The characters of each element of `v`.
pub open spec fn char_views(v: Seq<Vec<char>>) -> Seq<Seq<char>> {
    Seq::new(v.len(), |k: int| v[k]@)
}

/// The characters of each string of `v`.
pub open spec fn string_views(v: Seq<String>) -> Seq<Seq<char>> {
    Seq::new(v.len(), |k: int| v[k]@)
}

/// Putting `x` at position `p` of a sorted list, after every name smaller than it and
/// before every larger one, keeps the list sorted and adds just `x`.
proof fn lemma_insert_sorted(s: Seq<Seq<char>>, p: int, x: Seq<char>)
    requires
        strictly_sorted(s),
        0 <= p <= s.len(),
        forall|k: int| 0 <= k < p ==> lex_lt(#[trigger] s[k], x),
        forall|k: int| p <= k < s.len() ==> lex_lt(x, #[trigger] s[k]),
    ensures
        strictly_sorted(s.insert(p, x)),
        s.insert(p, x).to_set() == s.to_set().insert(x),
{
    let t = s.insert(p, x);
    assert(t.len() == s.len() + 1);
    assert forall|k: int| 0 <= k < t.len() implies #[trigger] t[k] == (if k < p {
        s[k]
    } else if k == p {
        x
    } else {
        s[k - 1]
    }) by {}
    assert forall|i: int, j: int| 0 <= i < j < t.len() implies lex_lt(#[trigger] t[i], #[trigger] t[j]) by {
        if i < p && j > p {
            assert(lex_lt(s[i], x));
            assert(lex_lt(x, s[j - 1]));
            lemma_lex_transitive(s[i], x, s[j - 1]);
        } else if i < p && j < p {
            assert(lex_lt(s[i], s[j]));
        } else if i > p {
            assert(lex_lt(s[i - 1], s[j - 1]));
        }
    }
    assert(t.to_set() =~= s.to_set().insert(x)) by {
        assert forall|y: Seq<char>| t.contains(y) implies s.to_set().insert(x).contains(y) by {
            let k = choose|k: int| 0 <= k < t.len() && t[k] == y;
            if k < p {
                assert(s[k] == y);
            } else if k > p {
                assert(s[k - 1] == y);
            }
        }
        assert forall|y: Seq<char>| s.to_set().insert(x).contains(y) implies t.contains(y) by {
            if y == x {
                assert(t[p] == x);
            } else {
                let k = choose|k: int| 0 <= k < s.len() && s[k] == y;
                if k < p {
                    assert(t[k] == y);
                } else {
                    assert(t[k + 1] == y);
                }
            }
        }
    }
}

/// Puts the name `x` into the sorted list `list` at its place, unless it is there already.
fn insert_name(list: &mut Vec<Vec<char>>, x: Vec<char>)
    requires
        strictly_sorted(char_views(old(list)@)),
    ensures
        strictly_sorted(char_views(final(list)@)),
        char_views(final(list)@).to_set() == char_views(old(list)@).to_set().insert(x@),
{
    let ghost s = char_views(list@);
    let mut p: usize = 0;
    while p < list.len() && lex_less(&list[p], &x)
        invariant
            p <= list@.len(),
            s == char_views(list@),
            strictly_sorted(s),
            forall|k: int| 0 <= k < p ==> lex_lt(#[trigger] s[k], x@),
        decreases list@.len() - p,
    {
        p = p + 1;
    }
    if p < list.len() && !lex_less(&x, &list[p]) {
        proof {
            assert(s[p as int] == list@[p as int]@);
            if s[p as int] != x@ {
                lemma_lex_total(s[p as int], x@);
            }
            assert(s.to_set().insert(x@) =~= s.to_set()) by {
                assert(s.contains(x@));
            }
        }
        return;
    }
    proof {
        assert forall|k: int| p <= k < s.len() implies lex_lt(x@, #[trigger] s[k]) by {
            assert(s[p as int] == list@[p as int]@);
            if k > p {
                lemma_lex_transitive(x@, s[p as int], s[k]);
            }
        }
        lemma_insert_sorted(s, p as int, x@);
    }
    let ghost xv = x@;
    list.insert(p, x);
    proof {
        assert(char_views(list@) =~= s.insert(p as int, xv));
    }
}

/// The characters `s[lo..hi]` as a vector of their own.
fn copy_range(s: &Vec<char>, lo: usize, hi: usize) -> (r: Vec<char>)
    requires
        lo <= hi <= s@.len(),
    ensures
        r@ == s@.subrange(lo as int, hi as int),
{
    let mut r: Vec<char> = Vec::new();
    let mut i: usize = lo;
    while i < hi
        invariant
            lo <= i <= hi <= s@.len(),
            r@ == s@.subrange(lo as int, i as int),
        decreases hi - i,
    {
        r.push(s[i]);
        i = i + 1;
        assert(r@ =~= s@.subrange(lo as int, i as int));
    }
    r
}

/// The choices offered for the raw camera (or lens) names `raw` read from a folder's
/// EXIF: each name trimmed, blank ones dropped, every name once, in ascending order.
pub fn name_list(raw: &Vec<String>) -> (r: Vec<String>)
    ensures
        strictly_sorted(string_views(r@)),
        string_views(r@).to_set() == found_names(string_views(raw@)),
{
    let mut list: Vec<Vec<char>> = Vec::new();
    let mut i: usize = 0;
    proof {
        assert(char_views(list@).to_set() =~= Set::empty());
        assert(string_views(raw@).take(0) =~= Seq::<Seq<char>>::empty());
    }
    while i < raw.len()
        invariant
            i <= raw@.len(),
            strictly_sorted(char_views(list@)),
            char_views(list@).to_set() == found_names(string_views(raw@).take(i as int)),
        decreases raw@.len() - i,
    {
        let c = chars_of(raw[i].as_str());
        let (lo, hi) = trim_range(&c, 0, c.len());
        proof {
            let pre = string_views(raw@).take(i as int + 1);
            assert(pre.drop_last() =~= string_views(raw@).take(i as int));
            assert(pre.last() == raw@[i as int]@);
            assert(c@.subrange(0, c@.len() as int) =~= c@);
        }
        if lo < hi {
            let t = copy_range(&c, lo, hi);
            insert_name(&mut list, t);
        }
        i = i + 1;
    }
    proof {
        assert(string_views(raw@).take(raw@.len() as int) =~= string_views(raw@));
    }
    let mut out: Vec<String> = Vec::new();
    let mut j: usize = 0;
    while j < list.len()
        invariant
            j <= list@.len(),
            string_views(out@) =~= char_views(list@).take(j as int),
        decreases list@.len() - j,
    {
        let s = string_from_chars(&list[j]);
        let ghost before = out@;
        assert(string_views(before).len() == before.len());
        assert(before.len() == j);
        out.push(s);
        proof {
            assert(out@ == before.push(s));
            assert forall|k: int| 0 <= k <= j implies #[trigger] string_views(out@)[k] == char_views(
                list@,
            ).take(j as int + 1)[k] by {
                if k < j {
                    assert(string_views(out@)[k] == out@[k]@);
                    assert(out@[k] == before[k]);
                    assert(string_views(before)[k] == before[k]@);
                }
            }
        }
        j = j + 1;
        assert(string_views(out@) =~= char_views(list@).take(j as int));
    }
    proof {
        assert(char_views(list@).take(list@.len() as int) =~= char_views(list@));
    }
    out
}

/// A sorted list without repeats is fixed by the names it holds: two such lists with the
/// same names are the same list. So [`name_list`] has exactly one possible result.
pub proof fn law_sorted_names_are_unique(s: Seq<Seq<char>>, t: Seq<Seq<char>>)
    requires
        strictly_sorted(s),
        strictly_sorted(t),
        s.to_set() == t.to_set(),
    ensures
        s == t,
    decreases s.len(),
{
    if s.len() == 0 {
        if t.len() > 0 {
            assert(t.to_set().contains(t[0]));
        }
        assert(s =~= t);
    } else {
        assert(s.to_set().contains(s[0]));
        assert(t.contains(s[0]));
        assert(t.len() > 0);
        assert(t.to_set().contains(t[0]));
        assert(s.contains(t[0]));
        let k = choose|k: int| 0 <= k < t.len() && t[k] == s[0];
        let m = choose|m: int| 0 <= m < s.len() && s[m] == t[0];
        if k > 0 && m > 0 {
            assert(lex_lt(t[0], t[k]));
            assert(lex_lt(s[0], s[m]));
            lemma_lex_transitive(s[0], t[0], s[0]);
            lemma_lex_irreflexive(s[0]);
        } else if k > 0 {
            assert(lex_lt(t[0], t[k]));
            lemma_lex_irreflexive(t[0]);
        } else if m > 0 {
            assert(lex_lt(s[0], s[m]));
            lemma_lex_irreflexive(s[0]);
        }
        assert(s[0] == t[0]);
        let s1 = s.drop_first();
        let t1 = t.drop_first();
        assert forall|i: int, j: int| 0 <= i < j < s1.len() implies lex_lt(#[trigger] s1[i], #[trigger] s1[j]) by {
            assert(lex_lt(s[i + 1], s[j + 1]));
        }
        assert forall|i: int, j: int| 0 <= i < j < t1.len() implies lex_lt(#[trigger] t1[i], #[trigger] t1[j]) by {
            assert(lex_lt(t[i + 1], t[j + 1]));
        }
        assert(s1.to_set() =~= t1.to_set()) by {
            assert forall|y: Seq<char>| s1.contains(y) implies t1.contains(y) by {
                let i = choose|i: int| 0 <= i < s1.len() && s1[i] == y;
                assert(lex_lt(s[0], s[i + 1]));
                assert(t.to_set().contains(y));
                let j = choose|j: int| 0 <= j < t.len() && t[j] == y;
                if j == 0 {
                    lemma_lex_irreflexive(y);
                }
                assert(t1[j - 1] == y);
            }
            assert forall|y: Seq<char>| t1.contains(y) implies s1.contains(y) by {
                let j = choose|j: int| 0 <= j < t1.len() && t1[j] == y;
                assert(lex_lt(t[0], t[j + 1]));
                assert(s.to_set().contains(y));
                let i = choose|i: int| 0 <= i < s.len() && s[i] == y;
                if i == 0 {
                    lemma_lex_irreflexive(y);
                }
                assert(s1[i - 1] == y);
            }
        }
        law_sorted_names_are_unique(s1, t1);
        assert(s =~= t) by {
            assert forall|i: int| 0 <= i < s.len() implies s[i] == t[i] by {
                if i > 0 {
                    assert(s[i] == s1[i - 1]);
                    assert(t[i] == t1[i - 1]);
                }
            }
        }
    }
}

} // verus!
