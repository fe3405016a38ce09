//! Autofocus points on screen: how the EXIF orientation of a photo moves a point given in
//! sensor coordinates (normalised to 0..1, origin at the top left), and which points the
//! "zoom to focus" centre is averaged over. The coordinates themselves are floating point
//! and stay with the application, which applies the choices made here.

use vstd::prelude::*;

verus! {

/// How a point in sensor coordinates `(x, y, w, h)` reaches display coordinates: with
/// `swap` the display's horizontal axis is the sensor's vertical one (and width and height
/// trade places); then `flip_x` takes `1 - x` on screen, and `flip_y` takes `1 - y`.
#[derive(Clone, Copy, Debug, PartialEq, Eq, Structural)]
pub struct AfAxes {
    pub swap: bool,
    pub flip_x: bool,
    pub flip_y: bool,
}

/// The axes for EXIF orientation `orient`: 2 mirrors left-right, 3 turns by 180°, 4
/// mirrors top-bottom, 5 transposes, 6 turns 90° clockwise (`(1 - y, x)`), 7 transposes
/// and turns by 180° (`(1 - y, 1 - x)`), 8 turns 90° counter-clockwise (`(y, 1 - x)`);
/// any other value leaves the point as it is.
pub open spec fn axes_spec(orient: u16) -> AfAxes {
    if orient == 2 {
        AfAxes { swap: false, flip_x: true, flip_y: false }
    } else if orient == 3 {
        AfAxes { swap: false, flip_x: true, flip_y: true }
    } else if orient == 4 {
        AfAxes { swap: false, flip_x: false, flip_y: true }
    } else if orient == 5 {
        AfAxes { swap: true, flip_x: false, flip_y: false }
    } else if orient == 6 {
        AfAxes { swap: true, flip_x: true, flip_y: false }
    } else if orient == 7 {
        AfAxes { swap: true, flip_x: true, flip_y: true }
    } else if orient == 8 {
        AfAxes { swap: true, flip_x: false, flip_y: true }
    } else {
        AfAxes { swap: false, flip_x: false, flip_y: false }
    }
}

/// The axes of orientation `orient` (see [`axes_spec`]).
pub fn af_axes(orient: u16) -> (a: AfAxes)
    ensures
        a == axes_spec(orient),
{
    match orient {
        2 => AfAxes { swap: false, flip_x: true, flip_y: false },
        3 => AfAxes { swap: false, flip_x: true, flip_y: true },
        4 => AfAxes { swap: false, flip_x: false, flip_y: true },
        5 => AfAxes { swap: true, flip_x: false, flip_y: false },
        6 => AfAxes { swap: true, flip_x: true, flip_y: false },
        7 => AfAxes { swap: true, flip_x: true, flip_y: true },
        8 => AfAxes { swap: true, flip_x: false, flip_y: true },
        _ => AfAxes { swap: false, flip_x: false, flip_y: false },
    }
}

/// Where a point `(x, y)` lands on screen, with `one` standing for the full width (1.0):
/// the mapping of [`AfAxes`] written over exact numbers.
pub open spec fn place(a: AfAxes, x: int, y: int, one: int) -> (int, int) {
    let (u, v) = if a.swap {
        (y, x)
    } else {
        (x, y)
    };
    (if a.flip_x {
        one - u
    } else {
        u
    }, if a.flip_y {
        one - v
    } else {
        v
    })
}

/// Turning a photo a quarter clockwise (orientation 6) and then a quarter back
/// (orientation 8) puts every point where it was; so does the reverse order, and so does
/// every mirror (orientations 2 and 4) or half turn (orientation 3) applied twice.
pub proof fn law_turns_undo_each_other(x: int, y: int, one: int)
    ensures
        ({
            let p = place(axes_spec(6), x, y, one);
            place(axes_spec(8), p.0, p.1, one)
        }) == (x, y),
        ({
            let p = place(axes_spec(8), x, y, one);
            place(axes_spec(6), p.0, p.1, one)
        }) == (x, y),
        ({
            let p = place(axes_spec(2), x, y, one);
            place(axes_spec(2), p.0, p.1, one)
        }) == (x, y),
        ({
            let p = place(axes_spec(3), x, y, one);
            place(axes_spec(3), p.0, p.1, one)
        }) == (x, y),
        ({
            let p = place(axes_spec(4), x, y, one);
            place(axes_spec(4), p.0, p.1, one)
        }) == (x, y),
{
}

/// The positions of `pts` (each `(in focus, selected)`) for which `keep` holds, in order.
pub open spec fn picked(pts: Seq<(bool, bool)>, keep: spec_fn((bool, bool)) -> bool) -> Seq<usize> {
    Seq::new(pts.len(), |i: int| i as usize).filter(|i: usize| keep(pts[i as int]))
}

/// The points the focus centre is averaged over: those in focus if any is, else the
/// selected ones if any is, else all of them; `None` when there is no point at all.
pub open spec fn centre_group(pts: Seq<(bool, bool)>) -> Option<Seq<usize>> {
    if exists|i: int| 0 <= i < pts.len() && (#[trigger] pts[i]).0 {
        Some(picked(pts, |p: (bool, bool)| p.0))
    } else if exists|i: int| 0 <= i < pts.len() && (#[trigger] pts[i]).1 {
        Some(picked(pts, |p: (bool, bool)| p.1))
    } else if pts.len() > 0 {
        Some(picked(pts, |p: (bool, bool)| true))
    } else {
        None
    }
}

/// The positions of `pts` whose first flag holds (`which == 0`), whose second flag holds
/// (`which == 1`), or all of them (`which == 2`).
fn pick(pts: &Vec<(bool, bool)>, which: u8) -> (r: Vec<usize>)
    requires
        which <= 2,
    ensures
        which == 0 ==> r@ == picked(pts@, |p: (bool, bool)| p.0),
        which == 1 ==> r@ == picked(pts@, |p: (bool, bool)| p.1),
        which == 2 ==> r@ == picked(pts@, |p: (bool, bool)| true),
{
    let ghost keep: spec_fn((bool, bool)) -> bool = if which == 0 {
        |p: (bool, bool)| p.0
    } else if which == 1 {
        |p: (bool, bool)| p.1
    } else {
        |p: (bool, bool)| true
    };
    let mut r: Vec<usize> = Vec::new();
    let mut i: usize = 0;
    while i < pts.len()
        invariant
            i <= pts@.len(),
            which <= 2,
            keep == (if which == 0 {
                |p: (bool, bool)| p.0
            } else if which == 1 {
                |p: (bool, bool)| p.1
            } else {
                |p: (bool, bool)| true
            }),
            r@ == Seq::new(i as nat, |j: int| j as usize).filter(|j: usize| keep(pts@[j as int])),
        decreases pts@.len() - i,
    {
        let ghost idx = Seq::new(i as nat, |j: int| j as usize);
        proof {
            assert(Seq::new((i + 1) as nat, |j: int| j as usize) =~= idx.push(i));
            idx.lemma_filter_push(i, |j: usize| keep(pts@[j as int]));
        }
        let (f, s) = pts[i];
        let hit = if which == 0 {
            f
        } else if which == 1 {
            s
        } else {
            true
        };
        if hit {
            r.push(i);
        }
        i = i + 1;
    }
    r
}

/// The points (given as `(in focus, selected)`) whose display positions are averaged for
/// the "zoom to focus" centre (see [`centre_group`]).
pub fn af_centre_group(pts: &Vec<(bool, bool)>) -> (r: Option<Vec<usize>>)
    ensures
        match centre_group(pts@) {
            Some(g) => r matches Some(v) && v@ == g,
            None => r is None,
        },
{
    let mut any_focus = false;
    let mut any_selected = false;
    let mut i: usize = 0;
    while i < pts.len()
        invariant
            i <= pts@.len(),
            any_focus == exists|j: int| 0 <= j < i && (#[trigger] pts@[j]).0,
            any_selected == exists|j: int| 0 <= j < i && (#[trigger] pts@[j]).1,
        decreases pts@.len() - i,
    {
        let (f, s) = pts[i];
        any_focus = any_focus || f;
        any_selected = any_selected || s;
        i = i + 1;
    }
    if any_focus {
        Some(pick(pts, 0))
    } else if any_selected {
        Some(pick(pts, 1))
    } else if pts.len() > 0 {
        Some(pick(pts, 2))
    } else {
        None
    }
}

} // verus!
