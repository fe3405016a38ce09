//! Photo background colour as `#RRGGBB` text.

use crate::text::{chars_of, string_from_chars, trim, trim_range, ws_prefix_len, ws_suffix_len, is_ws};
use vstd::prelude::*;

verus! {

/// Whether `c` is an ASCII hexadecimal digit (`char::is_ascii_hexdigit`).
pub open spec fn is_hex(c: char) -> bool {
    ('0' <= c <= '9') || ('a' <= c <= 'f') || ('A' <= c <= 'F')
}

/// Value of a hexadecimal digit.
pub open spec fn hex_val(c: char) -> u8 {
    if '0' <= c <= '9' {
        (c as u32 - '0' as u32) as u8
    } else if 'a' <= c <= 'f' {
        (c as u32 - 'a' as u32 + 10) as u8
    } else {
        (c as u32 - 'A' as u32 + 10) as u8
    }
}

/// Length of the optional `#` in front of `s`: one when `s` starts with `#`, else none.
pub open spec fn hash_prefix_len(s: Seq<char>) -> nat {
    if s.len() > 0 && s[0] == '#' {
        1
    } else {
        0
    }
}

/// The colour written in `s`: after trimming whitespace, six hexadecimal digits, or `#`
/// followed by six hexadecimal digits, read as red, green and blue bytes; otherwise `None`
/// (so a second `#` is refused).
pub open spec fn rgb_of(s: Seq<char>) -> Option<Seq<u8>> {
    let t = trim(s);
    let h = t.skip(hash_prefix_len(t) as int);
    if h.len() == 6 && (forall|i: int| 0 <= i < 6 ==> is_hex(#[trigger] h[i])) {
        Some(
            seq![
                (hex_val(h[0]) * 16 + hex_val(h[1])) as u8,
                (hex_val(h[2]) * 16 + hex_val(h[3])) as u8,
                (hex_val(h[4]) * 16 + hex_val(h[5])) as u8,
            ],
        )
    } else {
        None
    }
}

/// Upper-case hexadecimal digit for `d < 16`.
pub open spec fn upper_hex_digit(d: u8) -> char {
    if d < 10 {
        (('0' as u32) + d) as char
    } else {
        (('A' as u32) + d - 10) as char
    }
}

/// Two upper-case hexadecimal digits of `b`.
pub open spec fn hex_byte(b: u8) -> Seq<char> {
    seq![upper_hex_digit(b / 16), upper_hex_digit(b % 16)]
}

/// `#RRGGBB` spelling of a colour.
pub open spec fn hex_str_of(rgb: Seq<u8>) -> Seq<char> {
    seq!['#'] + hex_byte(rgb[0]) + hex_byte(rgb[1]) + hex_byte(rgb[2])
}

fn hex_digit_value(c: char) -> (r: Option<u8>)
    ensures
        r is Some <==> is_hex(c),
        r matches Some(v) ==> v == hex_val(c) && v < 16,
{
    if '0' <= c && c <= '9' {
        Some((c as u32 - '0' as u32) as u8)
    } else if 'a' <= c && c <= 'f' {
        Some((c as u32 - 'a' as u32 + 10) as u8)
    } else if 'A' <= c && c <= 'F' {
        Some((c as u32 - 'A' as u32 + 10) as u8)
    } else {
        None
    }
}

/// Parses `#rrggbb` or `rrggbb` (surrounding whitespace allowed, either letter case);
/// anything else is `None`, so a half-typed value never changes the colour.
pub fn parse_hex_rgb(s: &str) -> (r: Option<[u8; 3]>)
    ensures
        match r {
            Some(a) => rgb_of(s@) == Some(a@),
            None => rgb_of(s@) is None,
        },
{
    let c = chars_of(s);
    let (lo, hi) = trim_range(&c, 0, c.len());
    assert(c@.subrange(0, c@.len() as int) == s@);
    let ghost t = trim(s@);
    let mut p = lo;
    if p < hi && c[p] == '#' {
        p = p + 1;
    }
    proof {
        if lo < hi {
            assert(t[0] == c@[lo as int]);
        }
        assert(hash_prefix_len(t) == p - lo);
    }
    let ghost h = t.skip(p - lo);
    assert(h == c@.subrange(p as int, hi as int));
    if hi - p != 6 {
        return None;
    }
    let mut vals: Vec<u8> = Vec::new();
    let mut i: usize = 0;
    while i < 6
        invariant
            p + 6 == hi <= c.len(),
            h == c@.subrange(p as int, hi as int),
            t == trim(s@),
            hash_prefix_len(t) == p - lo,
            h == t.skip(p - lo),
            i <= 6,
            vals.len() == i,
            forall|k: int| 0 <= k < i ==> is_hex(#[trigger] h[k]) && vals@[k] == hex_val(h[k])
                && vals@[k] < 16,
        decreases 6 - i,
    {
        assert(h[i as int] == c@[p + i]);
        let dv = hex_digit_value(c[p + i]);
        match dv {
            Some(v) => {
                let ghost old_vals = vals@;
                vals.push(v);
                assert(forall|k: int| 0 <= k < i ==> vals@[k] == old_vals[k]);
                assert(vals@[i as int] == v);
            },
            None => {
                assert(!is_hex(h[i as int]));
                return None;
            },
        }
        i = i + 1;
    }
    let a = [vals[0] * 16 + vals[1], vals[2] * 16 + vals[3], vals[4] * 16 + vals[5]];
    assert(a@ == seq![
        (hex_val(h[0]) * 16 + hex_val(h[1])) as u8,
        (hex_val(h[2]) * 16 + hex_val(h[3])) as u8,
        (hex_val(h[4]) * 16 + hex_val(h[5])) as u8,
    ]);
    Some(a)
}

fn upper_hex_char(d: u8) -> (c: char)
    requires
        d < 16,
    ensures
        c == upper_hex_digit(d),
{
    match d {
        0 => '0',
        1 => '1',
        2 => '2',
        3 => '3',
        4 => '4',
        5 => '5',
        6 => '6',
        7 => '7',
        8 => '8',
        9 => '9',
        10 => 'A',
        11 => 'B',
        12 => 'C',
        13 => 'D',
        14 => 'E',
        _ => 'F',
    }
}

/// `#RRGGBB` in upper case.
pub fn hex_str(rgb: [u8; 3]) -> (r: String)
    ensures
        r@ == hex_str_of(rgb@),
{
    let mut v: Vec<char> = Vec::new();
    v.push('#');
    let mut i: usize = 0;
    while i < 3
        invariant
            i <= 3,
            v@ == hex_str_of(rgb@).take(1 + 2 * i),
        decreases 3 - i,
    {
        let b = rgb[i];
        v.push(upper_hex_char(b / 16));
        v.push(upper_hex_char(b % 16));
        assert(v@ == hex_str_of(rgb@).take(1 + 2 * (i + 1)));
        i = i + 1;
    }
    assert(hex_str_of(rgb@).take(7) == hex_str_of(rgb@));
    string_from_chars(&v)
}

/// Round trip: reading back the `#RRGGBB` text of any colour gives that colour, so
/// `parse_hex_rgb(&hex_str(c))` is `Some(c)` for every `c`.
pub proof fn law_hex_round_trip(rgb: [u8; 3])
    ensures
        rgb_of(hex_str_of(rgb@)) == Some(rgb@),
{
    let s = hex_str_of(rgb@);
    assert(s.len() == 7);
    assert(!is_ws(s[0]));
    assert(!is_ws(s[6]));
    assert(ws_prefix_len(s) == 0);
    assert(ws_suffix_len(s) == 0);
    assert(s.skip(0) == s);
    assert(s.take(7) == s);
    assert(trim(s) == s);
    let h = s.drop_first();
    assert(s[0] == '#');
    assert(hash_prefix_len(s) == 1);
    assert(s.skip(1) == h);
    assert forall|k: int| 0 <= k < 3 implies (hex_val(upper_hex_digit(#[trigger] rgb@[k] / 16)) * 16
        + hex_val(upper_hex_digit(rgb@[k] % 16))) as u8 == rgb@[k] by {
        let b = rgb@[k];
        assert(b / 16 < 16 && b % 16 < 16);
        assert(b == (b / 16) * 16 + b % 16);
    }
    assert(rgb_of(s) =~= Some(rgb@));
}

} // verus!
