//! EXIF summary lines shown in the photo overlay.

use crate::text::{chars_of, first_of, find_first_of, push_str, string_from_chars};
use vstd::prelude::*;

verus! {

/// The EXIF fields the overlay shows, as read from the file (each may be missing).
pub struct ExifInfo {
    pub camera: Option<String>,
    pub lens: Option<String>,
    pub aperture: Option<String>,
    pub shutter: Option<String>,
    pub iso: Option<String>,
    pub focal_length: Option<String>,
    pub datetime: Option<String>,
}

impl Default for ExifInfo {
    fn default() -> (r: Self)
        ensures
            r.camera is None,
            r.lens is None,
            r.aperture is None,
            r.shutter is None,
            r.iso is None,
            r.focal_length is None,
            r.datetime is None,
    {
        ExifInfo {
            camera: None,
            lens: None,
            aperture: None,
            shutter: None,
            iso: None,
            focal_length: None,
            datetime: None,
        }
    }
}

/// `s` with every `:` replaced by `.`.
pub open spec fn colons_to_dots(s: Seq<char>) -> Seq<char> {
    s.map_values(|c: char| if c == ':' { '.' } else { c })
}

/// Display form of an EXIF date-time: `YYYY:MM:DD HH:MM:SS` becomes `YYYY.MM.DD HH:MM:SS`.
/// Only the part before the first space has its colons turned into dots; without a space
/// the whole text is treated as a date.
pub open spec fn capture_datetime_text(dt: Seq<char>) -> Seq<char> {
    let i = first_of(dt, ' ', ' ');
    if i < dt.len() {
        colons_to_dots(dt.take(i as int)) + seq![' '] + dt.skip(i as int + 1)
    } else {
        colons_to_dots(dt)
    }
}

fn push_colons_to_dots(out: &mut Vec<char>, c: &Vec<char>, lo: usize, hi: usize)
    requires
        lo <= hi <= c.len(),
    ensures
        final(out)@ == old(out)@ + colons_to_dots(c@.subrange(lo as int, hi as int)),
{
    let ghost u = c@.subrange(lo as int, hi as int);
    let mut i = lo;
    while i < hi
        invariant
            lo <= i <= hi <= c.len(),
            u == c@.subrange(lo as int, hi as int),
            out@ == old(out)@ + colons_to_dots(u.take(i - lo)),
        decreases hi - i,
    {
        let ch = c[i];
        let d = if ch == ':' {
            '.'
        } else {
            ch
        };
        proof {
            assert(u.take(i + 1 - lo) == u.take(i - lo).push(ch));
            assert(colons_to_dots(u.take(i + 1 - lo)) == colons_to_dots(u.take(i - lo)).push(d));
        }
        out.push(d);
        i = i + 1;
    }
    assert(u.take(hi - lo) == u);
}

/// EXIF capture date-time for display (`2024:06:03 14:30:45` → `2024.06.03 14:30:45`).
pub fn format_capture_datetime(dt: &str) -> (r: String)
    ensures
        r@ == capture_datetime_text(dt@),
{
    let c = chars_of(dt);
    let sp = find_first_of(&c, 0, c.len(), ' ', ' ');
    assert(c@.subrange(0, c@.len() as int) == dt@);
    let mut out: Vec<char> = Vec::new();
    if sp < c.len() {
        push_colons_to_dots(&mut out, &c, 0, sp);
        out.push(' ');
        let ghost mid = out@;
        let mut i = sp + 1;
        while i < c.len()
            invariant
                sp < i <= c.len(),
                out@ == mid + c@.subrange(sp + 1, i as int),
            decreases c.len() - i,
        {
            out.push(c[i]);
            i = i + 1;
        }
        assert(c@.subrange(0, sp as int) == dt@.take(sp as int));
        assert(c@.subrange(sp + 1, c.len() as int) == dt@.skip(sp + 1));
    } else {
        push_colons_to_dots(&mut out, &c, 0, c.len());
    }
    string_from_chars(&out)
}

/// The exposure items of `ex` that are present, in the order aperture, shutter (with an `s`
/// suffix), ISO (with an `ISO ` prefix), focal length.
pub open spec fn exposure_parts(ex: ExifInfo) -> Seq<Seq<char>> {
    let a = match ex.aperture {
        Some(v) => seq![v@],
        None => Seq::empty(),
    };
    let s = match ex.shutter {
        Some(v) => seq![v@ + seq!['s']],
        None => Seq::empty(),
    };
    let i = match ex.iso {
        Some(v) => seq![seq!['I', 'S', 'O', ' '] + v@],
        None => Seq::empty(),
    };
    let f = match ex.focal_length {
        Some(v) => seq![v@],
        None => Seq::empty(),
    };
    a + s + i + f
}

/// `parts` joined with two spaces between neighbours.
pub open spec fn join_two_spaces(parts: Seq<Seq<char>>) -> Seq<char>
    decreases parts.len(),
{
    if parts.len() == 0 {
        Seq::empty()
    } else if parts.len() == 1 {
        parts[0]
    } else {
        join_two_spaces(parts.drop_last()) + seq![' ', ' '] + parts.last()
    }
}

/// Overlay lines for `ex`: camera, lens, the joined exposure line (only when one of its items
/// is present) and the display date-time, each only when present.
pub open spec fn exif_lines_of(ex: ExifInfo) -> Seq<Seq<char>> {
    let cam = match ex.camera {
        Some(v) => seq![v@],
        None => Seq::empty(),
    };
    let lens = match ex.lens {
        Some(v) => seq![v@],
        None => Seq::empty(),
    };
    let expo = exposure_parts(ex);
    let e = if expo.len() > 0 {
        seq![join_two_spaces(expo)]
    } else {
        Seq::empty()
    };
    let dt = match ex.datetime {
        Some(v) => seq![capture_datetime_text(v@)],
        None => Seq::empty(),
    };
    cam + lens + e + dt
}

/// Views of a vector of character vectors.
pub open spec fn views(v: Seq<Vec<char>>) -> Seq<Seq<char>> {
    v.map_values(|x: Vec<char>| x@)
}

fn append_chars(out: &mut Vec<char>, w: &Vec<char>)
    ensures
        final(out)@ == old(out)@ + w@,
{
    let mut k: usize = 0;
    while k < w.len()
        invariant
            k <= w.len(),
            out@ == old(out)@ + w@.take(k as int),
        decreases w.len() - k,
    {
        out.push(w[k]);
        k = k + 1;
    }
    assert(w@.take(w@.len() as int) == w@);
}

/// The joined exposure line of `ex`, when it has at least one exposure item.
fn exposure_line(ex: &ExifInfo) -> (r: Option<Vec<char>>)
    ensures
        match r {
            Some(v) => exposure_parts(*ex).len() > 0 && v@ == join_two_spaces(exposure_parts(*ex)),
            None => exposure_parts(*ex).len() == 0,
        },
{
    let mut expo: Vec<Vec<char>> = Vec::new();
    let ghost mut want: Seq<Seq<char>> = Seq::empty();
    if let Some(v) = &ex.aperture {
        expo.push(chars_of(v.as_str()));
        proof {
            want = want.push(v@);
        }
    }
    assert(views(expo@) =~= want);
    if let Some(v) = &ex.shutter {
        let mut t = chars_of(v.as_str());
        t.push('s');
        assert(t@ =~= v@ + seq!['s']);
        expo.push(t);
        proof {
            want = want.push(v@ + seq!['s']);
        }
    }
    assert(views(expo@) =~= want);
    if let Some(v) = &ex.iso {
        let mut t: Vec<char> = Vec::new();
        push_str(&mut t, "ISO ");
        proof {
            reveal_strlit("ISO ");
        }
        let w = chars_of(v.as_str());
        append_chars(&mut t, &w);
        assert(t@ =~= seq!['I', 'S', 'O', ' '] + v@);
        expo.push(t);
        proof {
            want = want.push(seq!['I', 'S', 'O', ' '] + v@);
        }
    }
    assert(views(expo@) =~= want);
    if let Some(v) = &ex.focal_length {
        expo.push(chars_of(v.as_str()));
        proof {
            want = want.push(v@);
        }
    }
    assert(views(expo@) =~= want);
    assert(views(expo@) =~= exposure_parts(*ex));
    if expo.len() == 0 {
        return None;
    }
    let mut joined: Vec<char> = Vec::new();
    let mut k: usize = 0;
    while k < expo.len()
        invariant
            0 < expo.len(),
            k <= expo.len(),
            views(expo@) == exposure_parts(*ex),
            k > 0 ==> joined@ == join_two_spaces(views(expo@).take(k as int)),
            k == 0 ==> joined@.len() == 0,
        decreases expo.len() - k,
    {
        if k > 0 {
            joined.push(' ');
            joined.push(' ');
        }
        append_chars(&mut joined, &expo[k]);
        proof {
            let vk = views(expo@).take(k + 1);
            assert(vk.drop_last() == views(expo@).take(k as int));
            assert(vk.last() == expo@[k as int]@);
            if k == 0 {
                assert(vk.len() == 1);
            }
        }
        k = k + 1;
    }
    assert(views(expo@).take(expo.len() as int) == views(expo@));
    Some(joined)
}

/// Lines of the EXIF overlay for `ex`.
pub fn exif_lines(ex: &ExifInfo) -> (r: Vec<String>)
    ensures
        r@.len() == exif_lines_of(*ex).len(),
        forall|k: int| 0 <= k < r@.len() ==> #[trigger] r@[k]@ == exif_lines_of(*ex)[k],
{
    let mut lines: Vec<String> = Vec::new();
    let ghost mut want: Seq<Seq<char>> = Seq::empty();
    if let Some(cam) = &ex.camera {
        lines.push(cam.clone());
        proof {
            want = want.push(cam@);
        }
    }
    assert(lines@.len() == want.len() && forall|k: int| 0 <= k < lines@.len() ==> #[trigger] lines@[k]@ == want[k]);
    if let Some(lens) = &ex.lens {
        lines.push(lens.clone());
        proof {
            want = want.push(lens@);
        }
    }
    assert(lines@.len() == want.len() && forall|k: int| 0 <= k < lines@.len() ==> #[trigger] lines@[k]@ == want[k]);
    if let Some(line) = exposure_line(ex) {
        lines.push(string_from_chars(&line));
        proof {
            want = want.push(join_two_spaces(exposure_parts(*ex)));
        }
    }
    assert(lines@.len() == want.len() && forall|k: int| 0 <= k < lines@.len() ==> #[trigger] lines@[k]@ == want[k]);
    if let Some(dt) = &ex.datetime {
        lines.push(format_capture_datetime(dt.as_str()));
        proof {
            want = want.push(capture_datetime_text(dt@));
        }
    }
    assert(lines@.len() == want.len() && forall|k: int| 0 <= k < lines@.len() ==> #[trigger] lines@[k]@ == want[k]);
    assert(want =~= exif_lines_of(*ex));
    lines
}

} // verus!
