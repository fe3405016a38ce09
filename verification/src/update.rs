//! New-release notice: reading the latest release tag and comparing versions.

use crate::text::{
    all_digits, chars_of, find_first_of, first_of, is_ws, parse_unsigned, parse_unsigned_spec,
    string_from_chars, trim, trim_range,
};
use vstd::prelude::*;

verus! {

/// Version of this build, the one a release tag is compared against.
pub const APP_VERSION: &'static str = "0.4.7";

/// Number of leading `v`/`V` characters of `s`.
pub open spec fn v_prefix_len(s: Seq<char>) -> nat
    decreases s.len(),
{
    if s.len() > 0 && (s[0] == 'v' || s[0] == 'V') {
        1 + v_prefix_len(s.drop_first())
    } else {
        0
    }
}

proof fn lemma_v_prefix_exact(s: Seq<char>, k: int)
    requires
        0 <= k <= s.len(),
        forall|i: int| 0 <= i < k ==> (#[trigger] s[i] == 'v' || s[i] == 'V'),
        k < s.len() ==> !(s[k] == 'v' || s[k] == 'V'),
    ensures
        v_prefix_len(s) == k,
    decreases s.len(),
{
    if k > 0 {
        assert(s[0] == 'v' || s[0] == 'V');
        let d = s.drop_first();
        assert forall|i: int| 0 <= i < k - 1 implies (#[trigger] d[i] == 'v' || d[i] == 'V') by {
            assert(d[i] == s[i + 1]);
        }
        if k - 1 < d.len() {
            assert(d[k - 1] == s[k]);
        }
        lemma_v_prefix_exact(d, k - 1);
    }
}

/// The numeric part of a version string: trimmed, without leading `v`/`V`, cut at the
/// first `-` or `+` (pre-release and build metadata are ignored).
pub open spec fn version_core(s: Seq<char>) -> Seq<char> {
    let t = trim(s);
    let u = t.skip(v_prefix_len(t) as int);
    u.take(first_of(u, '-', '+') as int)
}

/// The pieces of `s` between `.` separators (always at least one piece).
pub open spec fn dot_fields(s: Seq<char>) -> Seq<Seq<char>>
    decreases s.len(),
{
    let i = first_of(s, '.', '.');
    if i >= s.len() {
        seq![s]
    } else {
        seq![s.take(i as int)] + dot_fields(s.skip(i as int + 1))
    }
}

/// Numeric value of the `k`-th version field: a missing field counts as 0, a present one
/// must parse (after trimming) as a `u32`.
pub open spec fn field_value(parts: Seq<Seq<char>>, k: int) -> Option<nat> {
    if k < parts.len() {
        parse_unsigned_spec(trim(parts[k]), u32::MAX as nat)
    } else {
        Some(0)
    }
}

/// `(major, minor, patch)` of `v1.2.3`, `1.2`, `v0.6.0-rc1` and the like; `None` when a
/// present field is not a number.
pub open spec fn semver_of(s: Seq<char>) -> Option<(u32, u32, u32)> {
    let parts = dot_fields(version_core(s));
    match (field_value(parts, 0), field_value(parts, 1), field_value(parts, 2)) {
        (Some(a), Some(b), Some(c)) => Some((a as u32, b as u32, c as u32)),
        _ => None,
    }
}

/// Lexicographic order of version triples.
pub open spec fn semver_gt(a: (u32, u32, u32), b: (u32, u32, u32)) -> bool {
    a.0 > b.0 || (a.0 == b.0 && (a.1 > b.1 || (a.1 == b.1 && a.2 > b.2)))
}

proof fn lemma_dot_fields_step(s: Seq<char>)
    ensures
        dot_fields(s).len() >= 1,
        dot_fields(s)[0] == s.take(first_of(s, '.', '.') as int),
        first_of(s, '.', '.') < s.len() ==> dot_fields(s).drop_first() == dot_fields(
            s.skip(first_of(s, '.', '.') as int + 1),
        ),
        first_of(s, '.', '.') >= s.len() ==> dot_fields(s).len() == 1,
{
    lemma_first_of_le(s, '.', '.');
    let i = first_of(s, '.', '.');
    if i >= s.len() {
        assert(s.take(i as int) == s);
    } else {
        let rest = dot_fields(s.skip(i as int + 1));
        assert((seq![s.take(i as int)] + rest).drop_first() == rest);
    }
}

proof fn lemma_first_of_le(s: Seq<char>, a: char, b: char)
    ensures
        first_of(s, a, b) <= s.len(),
    decreases s.len(),
{
    if s.len() > 0 && !(s[0] == a || s[0] == b) {
        lemma_first_of_le(s.drop_first(), a, b);
    }
}

/// Trims `c[lo..hi]` and parses it as a `u32`.
fn parse_field(c: &Vec<char>, lo: usize, hi: usize) -> (r: Option<u32>)
    requires
        lo <= hi <= c.len(),
    ensures
        r == match parse_unsigned_spec(trim(c@.subrange(lo as int, hi as int)), u32::MAX as nat) {
            Some(v) => Some(v as u32),
            None => None::<u32>,
        },
{
    let (a, b) = trim_range(c, lo, hi);
    match parse_unsigned(c, a, b, 0xffff_ffffu64) {
        Some(v) => Some(v as u32),
        None => None,
    }
}

/// Major, minor and patch of a version string such as `v1.2.3`, `1.2` (patch 0) or
/// `v0.6.0-rc1` (pre-release ignored); `None` when it is not a version.
#[verifier::spinoff_prover]
#[verifier::rlimit(40)]
pub fn parse_semver(s: &str) -> (r: Option<(u32, u32, u32)>)
    ensures
        r == semver_of(s@),
{
    let c = chars_of(s);
    let (lo, hi) = trim_range(&c, 0, c.len());
    let ghost t = trim(s@);
    assert(c@.subrange(0, c@.len() as int) == s@);
    let mut p = lo;
    while p < hi && (c[p] == 'v' || c[p] == 'V')
        invariant
            lo <= p <= hi <= c.len(),
            forall|i: int| lo <= i < p ==> (#[trigger] c@[i] == 'v' || c@[i] == 'V'),
        decreases hi - p,
    {
        p = p + 1;
    }
    proof {
        assert forall|i: int| 0 <= i < p - lo implies (#[trigger] t[i] == 'v' || t[i] == 'V') by {
            assert(t[i] == c@[i + lo]);
        }
        if p < hi {
            assert(t[p - lo] == c@[p as int]);
        }
        lemma_v_prefix_exact(t, p - lo);
        assert(t.skip(p - lo) == c@.subrange(p as int, hi as int));
    }
    let end = find_first_of(&c, p, hi, '-', '+');
    let ghost core = c@.subrange(p as int, end as int);
    assert(core == version_core(s@));
    let ghost parts = dot_fields(core);
    // first field
    let d0 = find_first_of(&c, p, end, '.', '.');
    proof {
        lemma_dot_fields_step(core);
        assert(core.take(d0 - p) == c@.subrange(p as int, d0 as int));
    }
    let a = match parse_field(&c, p, d0) {
        Some(v) => v,
        None => {
            return None;
        },
    };
    let mut b: u32 = 0;
    let mut cc: u32 = 0;
    if d0 < end {
        let s1 = d0 + 1;
        let ghost core1 = c@.subrange(s1 as int, end as int);
        proof {
            assert(core.skip(d0 - p + 1) == core1);
            lemma_dot_fields_step(core1);
        }
        let d1 = find_first_of(&c, s1, end, '.', '.');
        proof {
            assert(core1.take(d1 - s1) == c@.subrange(s1 as int, d1 as int));
            assert(parts[1] == dot_fields(core1)[0]);
        }
        b = match parse_field(&c, s1, d1) {
            Some(v) => v,
            None => {
                return None;
            },
        };
        if d1 < end {
            let s2 = d1 + 1;
            let ghost core2 = c@.subrange(s2 as int, end as int);
            proof {
                assert(core1.skip(d1 - s1 + 1) == core2);
                lemma_dot_fields_step(core2);
            }
            let d2 = find_first_of(&c, s2, end, '.', '.');
            proof {
                assert(core2.take(d2 - s2) == c@.subrange(s2 as int, d2 as int));
                assert(parts[2] == dot_fields(core2)[0]);
            }
            cc = match parse_field(&c, s2, d2) {
                Some(v) => v,
                None => {
                    return None;
                },
            };
        } else {
            assert(parts.len() == 2);
        }
    } else {
        assert(parts.len() == 1);
    }
    Some((a, b, cc))
}

/// Display string of the latest release when its tag is newer than [`APP_VERSION`];
/// `None` when it is not newer or either version does not parse.
pub fn newer_version(latest_tag: &str) -> (r: Option<String>)
    ensures
        r matches Some(v) ==> v@ == trim(latest_tag@),
        r is Some <==> (match (semver_of(APP_VERSION@), semver_of(latest_tag@)) {
            (Some(cur), Some(lat)) => semver_gt(lat, cur),
            _ => false,
        }),
{
    let cur = match parse_semver(APP_VERSION) {
        Some(v) => v,
        None => {
            return None;
        },
    };
    let lat = match parse_semver(latest_tag) {
        Some(v) => v,
        None => {
            return None;
        },
    };
    let gt = lat.0 > cur.0 || (lat.0 == cur.0 && (lat.1 > cur.1 || (lat.1 == cur.1 && lat.2
        > cur.2)));
    if gt {
        let c = chars_of(latest_tag);
        let (lo, hi) = trim_range(&c, 0, c.len());
        assert(c@.subrange(0, c@.len() as int) == latest_tag@);
        let mut t: Vec<char> = Vec::new();
        let mut i = lo;
        while i < hi
            invariant
                lo <= i <= hi <= c.len(),
                t@ == c@.subrange(lo as int, i as int),
            decreases hi - i,
        {
            t.push(c[i]);
            i = i + 1;
        }
        Some(string_from_chars(&t))
    } else {
        None
    }
}

/// What `serde_json` finds at `key` of the JSON object `body` when that member is a string.
pub uninterp spec fn json_string_member(body: Seq<char>, key: Seq<char>) -> Option<Seq<char>>;

/// Trusted wrapper of `serde_json::from_str::<serde_json::Value>` followed by
/// `Value::get(key)` and `Value::as_str`: the string stored under `key` in the top-level
/// JSON object `body`, or `None` when `body` is not JSON, not an object, lacks the member,
/// or the member is not a string. The result depends on `body` and `key` alone.
#[verifier::external_body]
fn json_member_str(body: &str, key: &str) -> (r: Option<String>)
    ensures
        match r {
            Some(v) => json_string_member(body@, key@) == Some(v@),
            None => json_string_member(body@, key@) is None,
        },
{
    let v: serde_json::Value = serde_json::from_str(body).ok()?;
    v.get(key).and_then(|t| t.as_str()).map(|s| s.to_string())
}

/// The `tag_name` of a GitHub "latest release" response body, when present.
pub fn release_tag_from_body(body: &str) -> (r: Option<String>)
    ensures
        match r {
            Some(v) => json_string_member(body@, "tag_name"@) == Some(v@),
            None => json_string_member(body@, "tag_name"@) is None,
        },
{
    json_member_str(body, "tag_name")
}

} // verus!
