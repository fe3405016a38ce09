//! Moving through the filtered view: arrow keys and wheel, the auto-advance after a
//! rating, grid clicks and multi-selection, the jump dialog and the resume position.

use crate::marks::{passes, Filters, Mark};
use crate::session::{current_of, session_wf, visible, CullSession, SessionModel, ViewCarry, ViewMode};
use crate::text::{chars_of, parse_unsigned, parse_unsigned_spec, trim, trim_range};
use vstd::prelude::*;

verus! {

// ---------------------------------------------------------------- positions in a list

/// First position below `n` at which `s` holds `x`.
pub open spec fn position_upto(s: Seq<usize>, x: usize, n: nat) -> Option<nat>
    decreases n,
{
    if n == 0 {
        None
    } else {
        match position_upto(s, x, (n - 1) as nat) {
            Some(k) => Some(k),
            None => if s[n - 1] == x {
                Some((n - 1) as nat)
            } else {
                None
            },
        }
    }
}

/// First position at which `s` holds `x`.
pub open spec fn position(s: Seq<usize>, x: usize) -> Option<nat> {
    position_upto(s, x, s.len())
}

pub proof fn lemma_position_upto(s: Seq<usize>, x: usize, n: nat)
    requires
        n <= s.len(),
    ensures
        position_upto(s, x, n) matches Some(k) ==> k < n && s[k as int] == x && forall|j: int|
            0 <= j < k ==> s[j] != x,
        position_upto(s, x, n) is None ==> forall|j: int| 0 <= j < n ==> s[j] != x,
    decreases n,
{
    if n > 0 {
        lemma_position_upto(s, x, (n - 1) as nat);
    }
}

/// First position of `x` in `v`.
pub fn position_of(v: &Vec<usize>, x: usize) -> (r: Option<usize>)
    ensures
        r == match position(v@, x) {
            Some(k) => Some(k as usize),
            None => None::<usize>,
        },
{
    let mut res: Option<usize> = None;
    let mut i: usize = 0;
    while i < v.len()
        invariant
            i <= v.len(),
            res == match position_upto(v@, x, i as nat) {
                Some(k) => Some(k as usize),
                None => None::<usize>,
            },
            position_upto(v@, x, i as nat) matches Some(k) ==> k < i,
        decreases v.len() - i,
    {
        if res.is_none() && v[i] == x {
            res = Some(i);
        }
        i = i + 1;
    }
    res
}

// ---------------------------------------------------------------- view mode on a move

/// What a move to another photo does to ORIG: with `ZoomOnly` a fitted view drops back to
/// the preview and a zoomed one keeps ORIG; with `Keep` nothing changes.
pub open spec fn keep_view(s: SessionModel) -> SessionModel {
    match s.view_carry {
        ViewCarry::ZoomOnly => SessionModel { full_raw: s.full_raw && !s.fit, ..s },
        ViewCarry::Keep => s,
    }
}

/// Grid columns as the layout uses them: between 4 and 12.
pub open spec fn cols_clamped(c: usize) -> usize {
    if c < 4 {
        4
    } else if c > 12 {
        12
    } else {
        c
    }
}

/// In the grid, a keyboard move leaves a single cursor: the selection is dropped, the
/// anchor moves to the cursor and the cursor's row is scrolled into view.
pub open spec fn grid_cursor(s: SessionModel) -> SessionModel {
    if s.view == ViewMode::Grid {
        SessionModel {
            selected: Seq::empty(),
            sel_anchor: Some(s.index),
            grid_scroll_to: Some((s.index / cols_clamped(s.grid_cols)) as usize),
            ..s
        }
    } else {
        s
    }
}

/// Filtered position to show after an undo or redo: that of `photo` if it is visible, else
/// `fallback` clamped to the list.
pub open spec fn focus_model(s: SessionModel, photo: Option<usize>, fallback: usize) -> SessionModel {
    let f = visible(s.marks, s.filters);
    if f.len() == 0 {
        SessionModel { index: 0, ..s }
    } else {
        let clamped: usize = if fallback < f.len() {
            fallback
        } else {
            (f.len() - 1) as usize
        };
        let pos: usize = match photo {
            Some(r) => match position(f, r) {
                Some(k) => k as usize,
                None => clamped,
            },
            None => clamped,
        };
        grid_cursor(keep_view(SessionModel { index: pos, ..s }))
    }
}

/// New filtered position right after a rating: one further if the rated photo is still
/// visible, the same otherwise (the list closed up), clamped to the end; none if the list
/// became empty.
pub open spec fn index_after_rate_spec(index: usize, still_visible: bool, new_len: usize) -> Option<usize> {
    if new_len == 0 {
        None
    } else {
        let next: int = if still_visible {
            index + 1
        } else {
            index as int
        };
        Some(
            if next < new_len {
                next as usize
            } else {
                (new_len - 1) as usize
            },
        )
    }
}

/// Filtered position after rating the photo at `index`.
pub fn index_after_rate(index: usize, still_visible: bool, new_len: usize) -> (r: Option<usize>)
    ensures
        r == index_after_rate_spec(index, still_visible, new_len),
{
    if new_len == 0 {
        return None;
    }
    if still_visible {
        if index < new_len - 1 {
            Some(index + 1)
        } else {
            Some(new_len - 1)
        }
    } else if index < new_len - 1 {
        Some(index)
    } else {
        Some(new_len - 1)
    }
}

/// The move after rating photo `photo` (auto-advance).
pub open spec fn after_rate(s: SessionModel, photo: usize) -> SessionModel {
    let still = photo < s.marks.len() && passes(s.filters, s.marks[photo as int]);
    match index_after_rate_spec(s.index, still, visible(s.marks, s.filters).len() as usize) {
        Some(n) => keep_view(SessionModel { index: n, ..s }),
        None => s,
    }
}

/// Filtered position reached by moving `delta` from `index` in a list of `len` photos.
pub open spec fn moved_index(index: usize, delta: i64, len: nat) -> usize {
    let cur = index + delta;
    if cur < 0 {
        0
    } else if cur >= len {
        (len - 1) as usize
    } else {
        cur as usize
    }
}

/// Arrow keys and wheel: move by `delta` within the filtered list, clamped to it.
pub open spec fn advance_model(s: SessionModel, delta: i64) -> SessionModel {
    let len = visible(s.marks, s.filters).len();
    if len == 0 {
        s
    } else {
        keep_view(SessionModel { index: moved_index(s.index, delta, len), ..s })
    }
}

/// Whether a move of `delta` pushes past the last photo (the viewer then reports how many
/// photos are still unrated).
pub open spec fn hits_end(s: SessionModel, delta: i64) -> bool {
    let len = visible(s.marks, s.filters).len();
    len > 0 && delta > 0 && s.index + delta >= len
}

/// Cells moved by one press of up or down: a grid row, or one photo.
pub open spec fn row_step_spec(s: SessionModel) -> i64 {
    if s.view == ViewMode::Grid {
        cols_clamped(s.grid_cols) as i64
    } else {
        1
    }
}

// ---------------------------------------------------------------- grid selection

/// `sel` with `x` added at the end unless it is there already.
pub open spec fn insert_new(sel: Seq<usize>, x: usize) -> Seq<usize> {
    if sel.contains(x) {
        sel
    } else {
        sel.push(x)
    }
}

/// `sel` with `x` taken out if it is there, added at the end if not.
pub open spec fn toggled(sel: Seq<usize>, x: usize) -> Seq<usize> {
    match position(sel, x) {
        Some(k) => sel.remove(k as int),
        None => sel.push(x),
    }
}

/// `sel` with the photos at filtered positions `lo..end` (those that exist) added.
pub open spec fn add_range(sel: Seq<usize>, f: Seq<usize>, lo: nat, end: nat) -> Seq<usize>
    decreases end,
{
    if end <= lo {
        sel
    } else {
        let p = add_range(sel, f, lo, (end - 1) as nat);
        if end - 1 < f.len() {
            insert_new(p, f[end - 1])
        } else {
            p
        }
    }
}

/// A click on grid cell `fi`: with the command key it toggles that photo in the selection,
/// with shift it adds the range from the anchor, plain it clears the selection; the cursor
/// moves to the cell either way.
pub open spec fn grid_click_model(s: SessionModel, fi: usize, command: bool, shift: bool) -> SessionModel {
    let f = visible(s.marks, s.filters);
    let t = if command {
        SessionModel { selected: toggled(s.selected, f[fi as int]), sel_anchor: Some(fi), ..s }
    } else if shift {
        let a: usize = match s.sel_anchor {
            Some(a) => a,
            None => fi,
        };
        let lo: usize = if a < fi {
            a
        } else {
            fi
        };
        let hi: usize = if a < fi {
            fi
        } else {
            a
        };
        SessionModel { selected: add_range(s.selected, f, lo as nat, (hi + 1) as nat), ..s }
    } else {
        SessionModel { selected: Seq::empty(), sel_anchor: Some(fi), ..s }
    };
    SessionModel { index: fi, ..t }
}

/// What adding the photos at positions `lo..end` puts in a selection: what was there, and
/// exactly the photos at those positions.
proof fn lemma_add_range_contains(sel: Seq<usize>, f: Seq<usize>, lo: nat, end: nat, x: usize)
    ensures
        add_range(sel, f, lo, end).contains(x) <==> (sel.contains(x) || exists|k: int|
            lo <= k < end && k < f.len() && #[trigger] f[k] == x),
    decreases end,
{
    if end > lo {
        let p = add_range(sel, f, lo, (end - 1) as nat);
        lemma_add_range_contains(sel, f, lo, (end - 1) as nat, x);
        if end - 1 < f.len() {
            let y = f[end - 1];
            if !p.contains(y) {
                let q = p.push(y);
                if q.contains(x) {
                    let i = choose|i: int| 0 <= i < q.len() && q[i] == x;
                    if i < p.len() {
                        assert(p[i] == x);
                    }
                }
                if p.contains(x) {
                    let i = choose|i: int| 0 <= i < p.len() && p[i] == x;
                    assert(q[i] == x);
                }
                if x == y {
                    assert(q[p.len() as int] == x);
                }
            }
        }
        if exists|k: int| lo <= k < end && k < f.len() && #[trigger] f[k] == x {
            let k = choose|k: int| lo <= k < end && k < f.len() && #[trigger] f[k] == x;
            if k < end - 1 {
                assert(lo <= k < end - 1 && k < f.len() && f[k] == x);
            }
        }
    }
}

/// A shift-click in the grid adds every photo between the anchor and the clicked cell,
/// whichever of the two comes first (the clicked cell when there is no anchor), keeps what
/// was selected, adds nothing else, and moves the cursor to the clicked cell.
pub proof fn law_shift_click_selects_the_range(s: SessionModel, fi: usize)
    requires
        fi < visible(s.marks, s.filters).len(),
    ensures
        ({
            let f = visible(s.marks, s.filters);
            let a: int = match s.sel_anchor {
                Some(a) => a as int,
                None => fi as int,
            };
            let lo = if a <= fi { a } else { fi as int };
            let hi = if a <= fi { fi as int } else { a };
            let r = grid_click_model(s, fi, false, true);
            &&& forall|k: int| lo <= k <= hi && k < f.len() ==> r.selected.contains(#[trigger] f[k])
            &&& forall|x: usize| s.selected.contains(x) ==> #[trigger] r.selected.contains(x)
            &&& forall|x: usize| #[trigger] r.selected.contains(x) ==> s.selected.contains(x)
                || exists|k: int| lo <= k <= hi && k < f.len() && #[trigger] f[k] == x
            &&& r.index == fi
        }),
{
    let f = visible(s.marks, s.filters);
    let a: usize = match s.sel_anchor {
        Some(a) => a,
        None => fi,
    };
    let lo: usize = if a < fi { a } else { fi };
    let hi: usize = if a < fi { fi } else { a };
    let r = grid_click_model(s, fi, false, true);
    assert(r.selected == add_range(s.selected, f, lo as nat, (hi + 1) as nat));
    assert forall|k: int| lo <= k <= hi && k < f.len() implies r.selected.contains(#[trigger] f[k]) by {
        lemma_add_range_contains(s.selected, f, lo as nat, (hi + 1) as nat, f[k]);
    }
    assert forall|x: usize| s.selected.contains(x) implies #[trigger] r.selected.contains(x) by {
        lemma_add_range_contains(s.selected, f, lo as nat, (hi + 1) as nat, x);
    }
    assert forall|x: usize| #[trigger] r.selected.contains(x) implies s.selected.contains(x) || exists|k: int|
        lo <= k <= hi && k < f.len() && #[trigger] f[k] == x by {
        lemma_add_range_contains(s.selected, f, lo as nat, (hi + 1) as nat, x);
    }
}

// ---------------------------------------------------------------- jump and resume

/// Filtered position named by the jump dialog's number field: the trimmed text as a
/// 1-based position in a list of `total` photos.
pub open spec fn jump_target(text: Seq<char>, total: nat) -> Option<nat> {
    match parse_unsigned_spec(trim(text), usize::MAX as nat) {
        Some(n) => if 1 <= n <= total {
            Some((n - 1) as nat)
        } else {
            None
        },
        None => None,
    }
}

/// First photo index whose path is `p`.
pub open spec fn path_position(paths: Seq<Seq<char>>, p: Seq<char>) -> Option<nat>
    decreases paths.len(),
{
    if paths.len() == 0 {
        None
    } else {
        match path_position(paths.drop_last(), p) {
            Some(k) => Some(k),
            None => if paths.last() == p {
                Some((paths.len() - 1) as nat)
            } else {
                None
            },
        }
    }
}

/// Where a folder reopens: the filtered position of the photo last viewed there (found by
/// path), or the first photo if it is gone or filtered out.
pub open spec fn resume_spec(s: SessionModel, saved: Seq<char>) -> usize {
    match path_position(s.paths, saved) {
        Some(photo) => match position(visible(s.marks, s.filters), photo as usize) {
            Some(k) => k as usize,
            None => 0,
        },
        None => 0,
    }
}

proof fn lemma_path_position(paths: Seq<Seq<char>>, p: Seq<char>)
    ensures
        path_position(paths, p) matches Some(k) ==> k < paths.len(),
    decreases paths.len(),
{
    if paths.len() > 0 {
        lemma_path_position(paths.drop_last(), p);
    }
}

proof fn lemma_add_range_beyond(sel: Seq<usize>, f: Seq<usize>, lo: nat, end: nat)
    requires
        f.len() <= end,
    ensures
        add_range(sel, f, lo, end) == add_range(sel, f, lo, f.len()),
    decreases end,
{
    if end > f.len() {
        lemma_add_range_beyond(sel, f, lo, (end - 1) as nat);
    }
}

proof fn lemma_remove_no_dup(s: Seq<usize>, k: int)
    requires
        s.no_duplicates(),
        0 <= k < s.len(),
    ensures
        s.remove(k).no_duplicates(),
{
    let t = s.remove(k);
    assert forall|i: int, j: int| 0 <= i < t.len() && 0 <= j < t.len() && i != j implies t[i]
        != t[j] by {
        let i2 = if i < k {
            i
        } else {
            i + 1
        };
        let j2 = if j < k {
            j
        } else {
            j + 1
        };
        assert(t[i] == s[i2]);
        assert(t[j] == s[j2]);
    }
}

proof fn lemma_push_no_dup(s: Seq<usize>, x: usize)
    requires
        s.no_duplicates(),
        !s.contains(x),
    ensures
        s.push(x).no_duplicates(),
{
    let t = s.push(x);
    assert forall|i: int, j: int| 0 <= i < t.len() && 0 <= j < t.len() && i != j implies t[i]
        != t[j] by {
        if i == s.len() {
            assert(t[j] == s[j]);
            assert(s.contains(s[j]));
        } else if j == s.len() {
            assert(t[i] == s[i]);
            assert(s.contains(s[i]));
        }
    }
}

proof fn lemma_add_range_no_dup(sel: Seq<usize>, f: Seq<usize>, lo: nat, end: nat)
    requires
        sel.no_duplicates(),
    ensures
        add_range(sel, f, lo, end).no_duplicates(),
    decreases end,
{
    if end > lo {
        let p = add_range(sel, f, lo, (end - 1) as nat);
        lemma_add_range_no_dup(sel, f, lo, (end - 1) as nat);
        if end - 1 < f.len() && !p.contains(f[end - 1]) {
            lemma_push_no_dup(p, f[end - 1]);
        }
    }
}

/// Takes `x` out of the selection if it is there, adds it if not.
fn toggle_selected(sel: &mut Vec<usize>, x: usize, Ghost(n): Ghost<nat>)
    requires
        old(sel)@.no_duplicates(),
        x < n,
        forall|k: int| 0 <= k < old(sel)@.len() ==> #[trigger] old(sel)@[k] < n,
    ensures
        final(sel)@ == toggled(old(sel)@, x),
        final(sel)@.no_duplicates(),
        forall|k: int| 0 <= k < final(sel)@.len() ==> #[trigger] final(sel)@[k] < n,
{
    proof {
        lemma_position_upto(sel@, x, sel@.len());
    }
    match position_of(sel, x) {
        Some(k) => {
            proof {
                lemma_remove_no_dup(sel@, k as int);
                let ghost p = position(old(sel)@, x);
                assert(p is Some);
                assert(p->0 < sel.len());
            }
            sel.remove(k);
        },
        None => {
            proof {
                lemma_push_no_dup(sel@, x);
            }
            sel.push(x);
        },
    }
}

/// Adds to the selection the photos at filtered positions `lo..=hi` of `f`.
fn select_range(sel: &mut Vec<usize>, f: &Vec<usize>, lo: usize, hi: usize, Ghost(n): Ghost<nat>)
    requires
        old(sel)@.no_duplicates(),
        lo <= hi,
        forall|k: int| 0 <= k < old(sel)@.len() ==> #[trigger] old(sel)@[k] < n,
        forall|k: int| 0 <= k < f@.len() ==> #[trigger] f@[k] < n,
    ensures
        final(sel)@ == add_range(old(sel)@, f@, lo as nat, (hi + 1) as nat),
        final(sel)@.no_duplicates(),
        forall|k: int| 0 <= k < final(sel)@.len() ==> #[trigger] final(sel)@[k] < n,
{
    let ghost sel0 = sel@;
    let mut k = lo;
    while k <= hi && k < f.len()
        invariant
            lo <= k,
            k <= lo || k <= f.len(),
            k <= hi + 1,
            sel0.no_duplicates(),
            sel@ == add_range(sel0, f@, lo as nat, k as nat),
            forall|j: int| 0 <= j < sel@.len() ==> #[trigger] sel@[j] < n,
            forall|j: int| 0 <= j < f@.len() ==> #[trigger] f@[j] < n,
        decreases f.len() - k,
    {
        let x = f[k];
        proof {
            lemma_add_range_no_dup(sel0, f@, lo as nat, k as nat);
            lemma_position_upto(sel@, x, sel@.len());
        }
        match position_of(sel, x) {
            Some(_) => {},
            None => {
                sel.push(x);
            },
        }
        k = k + 1;
    }
    proof {
        if k <= hi {
            lemma_add_range_beyond(sel0, f@, lo as nat, (hi + 1) as nat);
        }
        lemma_add_range_no_dup(sel0, f@, lo as nat, (hi + 1) as nat);
    }
}

/// Photos decoded ahead of the current one in the prefetch window, and behind it.
pub const PREFETCH_AHEAD: usize = 80;
pub const PREFETCH_BEHIND: usize = 16;

/// A window of filtered positions around the current one: from `behind` before it to
/// `ahead` after it, cut to the list of `len` photos. `(current, first, last)`.
pub open spec fn window_spec(index: usize, len: nat, behind: nat, ahead: nat) -> (int, int, int) {
    let cur: int = if index < len {
        index as int
    } else {
        len - 1
    };
    let lo: int = if cur >= behind {
        cur - behind
    } else {
        0
    };
    let hi: int = if cur + ahead < len {
        cur + ahead
    } else {
        len - 1
    };
    (cur, lo, hi)
}

/// The preview preload window for the setting `preload`: at most 64 ahead, and a third of
/// that (at least one) behind; nothing around when the setting is zero or negative.
pub open spec fn preload_spans(preload: i32) -> (nat, nat) {
    let ahead: nat = if preload <= 0 {
        0
    } else if preload > 64 {
        64
    } else {
        preload as nat
    };
    let behind: nat = if ahead == 0 {
        0
    } else if ahead / 3 >= 1 {
        ahead / 3
    } else {
        1
    };
    (behind, ahead)
}

impl CullSession {
    /// Filtered positions to decode around the current photo: `(current, first, last)`,
    /// none when no photo passes the filters.
    fn window(&self, behind: usize, ahead: usize) -> (r: Option<(usize, usize, usize)>)
        requires
            session_wf(self@),
            ahead <= 80,
        ensures
            visible(self@.marks, self@.filters).len() == 0 ==> r is None,
            visible(self@.marks, self@.filters).len() > 0 ==> (r matches Some(w) && (w.0 as int, w.1 as int, w.2 as int)
                == window_spec(self.index, visible(self@.marks, self@.filters).len(), behind as nat, ahead as nat)),
    {
        proof {
            crate::session::lemma_visible(self.marks@, self.filters);
        }
        let len = self.filtered().len();
        if len == 0 {
            return None;
        }
        let cur = if self.index < len {
            self.index
        } else {
            len - 1
        };
        let lo = if cur >= behind {
            cur - behind
        } else {
            0
        };
        let hi = if cur + ahead < len {
            cur + ahead
        } else {
            len - 1
        };
        Some((cur, lo, hi))
    }

    /// The preview preload window for the setting `preload` (see [`preload_spans`]).
    pub fn preload_window(&self, preload: i32) -> (r: Option<(usize, usize, usize)>)
        requires
            session_wf(self@),
        ensures
            visible(self@.marks, self@.filters).len() == 0 ==> r is None,
            visible(self@.marks, self@.filters).len() > 0 ==> (r matches Some(w) && (w.0 as int, w.1 as int, w.2 as int)
                == window_spec(
                self.index,
                visible(self@.marks, self@.filters).len(),
                preload_spans(preload).0,
                preload_spans(preload).1,
            )),
    {
        let ahead: usize = if preload <= 0 {
            0
        } else if preload > 64 {
            64
        } else {
            preload as usize
        };
        let behind: usize = if ahead == 0 {
            0
        } else if ahead / 3 >= 1 {
            ahead / 3
        } else {
            1
        };
        self.window(behind, ahead)
    }

    /// The thumbnail prefetch window: [`PREFETCH_BEHIND`] before the current photo to
    /// [`PREFETCH_AHEAD`] after it.
    pub fn prefetch_window(&self) -> (r: Option<(usize, usize, usize)>)
        requires
            session_wf(self@),
        ensures
            visible(self@.marks, self@.filters).len() == 0 ==> r is None,
            visible(self@.marks, self@.filters).len() > 0 ==> (r matches Some(w) && (w.0 as int, w.1 as int, w.2 as int)
                == window_spec(
                self.index,
                visible(self@.marks, self@.filters).len(),
                PREFETCH_BEHIND as nat,
                PREFETCH_AHEAD as nat,
            )),
    {
        self.window(PREFETCH_BEHIND, PREFETCH_AHEAD)
    }

    /// The number shown for the current photo in "n / total": its position counted from one,
    /// at most the number of photos passing the filters (and 1 when none does).
    pub fn position_shown(&self) -> (r: usize)
        requires
            session_wf(self@),
        ensures
            r == (if self.index + 1 < visible(self@.marks, self@.filters).len() {
                self.index + 1
            } else if visible(self@.marks, self@.filters).len() > 1 {
                visible(self@.marks, self@.filters).len() as int
            } else {
                1
            }),
    {
        proof {
            crate::session::lemma_visible(self.marks@, self.filters);
        }
        let len = self.filtered().len();
        let top = if len > 1 {
            len
        } else {
            1
        };
        if self.index < top - 1 {
            self.index + 1
        } else {
            top
        }
    }

    /// The filtered positions `start..end` of the film strip with room for `room`
    /// thumbnails: centred on the current photo as far as the start of the list allows, cut
    /// at its end. `None` when no photo passes the filters.
    pub fn strip_range(&self, room: usize) -> (r: Option<(usize, usize)>)
        requires
            session_wf(self@),
        ensures
            visible(self@.marks, self@.filters).len() == 0 <==> r is None,
            r matches Some((start, end)) ==> {
                let len = visible(self@.marks, self@.filters).len() as int;
                let cur = if self.index < len {
                    self.index as int
                } else {
                    len - 1
                };
                let st = if cur >= room / 2 {
                    cur - room / 2
                } else {
                    0
                };
                &&& start == st
                &&& end == (if st + room < len {
                    st + room
                } else {
                    len
                })
            },
    {
        proof {
            crate::session::lemma_visible(self.marks@, self.filters);
        }
        let len = self.filtered().len();
        if len == 0 {
            return None;
        }
        let cur = if self.index < len {
            self.index
        } else {
            len - 1
        };
        let half = room / 2;
        let start = if cur >= half {
            cur - half
        } else {
            0
        };
        let end = if room < len - start {
            start + room
        } else {
            len
        };
        Some((start, end))
    }

    /// The view mode to keep when moving to another photo.
    pub fn keep_view_mode_on_move(&mut self)
        ensures
            final(self)@ == keep_view(old(self)@),
    {
        match self.view_carry {
            ViewCarry::ZoomOnly => self.full_raw = self.full_raw && !self.fit,
            ViewCarry::Keep => {},
        }
    }

    /// Single cursor in the grid after a keyboard move (see [`grid_cursor`]).
    fn grid_single_cursor(&mut self)
        ensures
            final(self)@ == grid_cursor(old(self)@),
    {
        if self.view == ViewMode::Grid {
            self.selected = Vec::new();
            self.sel_anchor = Some(self.index);
            let cols: usize = if self.grid_cols < 4 {
                4
            } else if self.grid_cols > 12 {
                12
            } else {
                self.grid_cols
            };
            self.grid_scroll_to = Some(self.index / cols);
        }
    }

    /// After an undo or redo, shows the edited photo if the filters let it through, else
    /// the position the view had at the time of the edit.
    pub fn focus_after_undo(&mut self, photo: Option<usize>, fallback: usize)
        ensures
            final(self)@ == focus_model(old(self)@, photo, fallback),
    {
        let f = self.filtered();
        if f.len() == 0 {
            self.index = 0;
            return;
        }
        let clamped = if fallback < f.len() {
            fallback
        } else {
            f.len() - 1
        };
        let pos = match photo {
            Some(r) => match position_of(&f, r) {
                Some(k) => k,
                None => clamped,
            },
            None => clamped,
        };
        self.index = pos;
        self.keep_view_mode_on_move();
        self.grid_single_cursor();
    }

    /// Auto-advance after rating photo `photo`.
    pub fn advance_after_rate(&mut self, photo: usize)
        ensures
            final(self)@ == after_rate(old(self)@, photo),
    {
        let still = photo < self.marks.len() && self.filters.passes(self.marks[photo]);
        let len = self.filtered().len();
        match index_after_rate(self.index, still, len) {
            Some(n) => {
                self.index = n;
                self.keep_view_mode_on_move();
            },
            None => {},
        }
    }

    /// Moves `delta` photos within the filtered list, clamped to it. Returns whether the
    /// move pushed past the last photo.
    pub fn advance(&mut self, delta: i64) -> (hit_end: bool)
        ensures
            final(self)@ == advance_model(old(self)@, delta),
            hit_end == hits_end(old(self)@, delta),
    {
        let len = self.filtered().len();
        if len == 0 {
            return false;
        }
        let cur: i128 = self.index as i128 + delta as i128;
        let hit_end = delta > 0 && cur >= len as i128;
        self.index = if cur < 0 {
            0
        } else if cur >= len as i128 {
            len - 1
        } else {
            cur as usize
        };
        self.keep_view_mode_on_move();
        hit_end
    }

    /// Cells moved by one press of up or down.
    pub fn row_step(&self) -> (r: i64)
        ensures
            r == row_step_spec(self@),
    {
        if self.view == ViewMode::Grid {
            if self.grid_cols < 4 {
                4
            } else if self.grid_cols > 12 {
                12
            } else {
                self.grid_cols as i64
            }
        } else {
            1
        }
    }

    /// Keyboard navigation: moves like [`CullSession::advance`], and in the grid leaves a
    /// single cursor whose row is scrolled into view. Returns whether the move pushed past
    /// the last photo.
    pub fn nav(&mut self, delta: i64) -> (hit_end: bool)
        ensures
            final(self)@ == grid_cursor(advance_model(old(self)@, delta)),
            hit_end == hits_end(old(self)@, delta),
    {
        let hit_end = self.advance(delta);
        self.grid_single_cursor();
        hit_end
    }

    /// A click on grid cell `fi` (a filtered position), with the modifier keys held.
    pub fn grid_click(&mut self, fi: usize, command: bool, shift: bool)
        requires
            session_wf(old(self)@),
            fi < visible(old(self)@.marks, old(self)@.filters).len(),
        ensures
            session_wf(final(self)@),
            final(self)@ == grid_click_model(old(self)@, fi, command, shift),
    {
        let f = self.filtered();
        if command {
            proof {
                crate::session::lemma_visible(self.marks@, self.filters);
            }
            toggle_selected(&mut self.selected, f[fi], Ghost(self.marks@.len()));
            self.sel_anchor = Some(fi);
        } else if shift {
            let a = match self.sel_anchor {
                Some(a) => a,
                None => fi,
            };
            let lo = if a < fi {
                a
            } else {
                fi
            };
            let hi = if a < fi {
                fi
            } else {
                a
            };
            proof {
                crate::session::lemma_visible(self.marks@, self.filters);
            }
            select_range(&mut self.selected, &f, lo, hi, Ghost(self.marks@.len()));
        } else {
            self.selected = Vec::new();
            self.sel_anchor = Some(fi);
        }
        self.index = fi;
    }

    /// Path of the photo shown, if any (what the folder reopens at next time).
    pub fn current_path(&self) -> (r: Option<String>)
        requires
            session_wf(self@),
        ensures
            match current_of(self@) {
                Some(p) => r matches Some(s) && s@ == self@.paths[p as int],
                None => r is None,
            },
    {
        proof {
            crate::session::lemma_visible(self.marks@, self.filters);
        }
        match self.current_real() {
            Some(p) => Some(self.paths[p].clone()),
            None => None,
        }
    }

    /// A double click on grid cell `fi`: opens that photo in the single view.
    pub fn grid_double_click(&mut self, fi: usize)
        ensures
            final(self)@ == (SessionModel { index: fi, view: ViewMode::Single, ..old(self)@ }),
    {
        self.index = fi;
        self.view = ViewMode::Single;
    }

    /// The jump dialog in number mode: goes to the 1-based filtered position written in
    /// `text`. Returns false, moving nowhere, when the text is not such a position.
    pub fn jump_to_number(&mut self, text: &str) -> (ok: bool)
        ensures
            ok == jump_target(text@, visible(old(self)@.marks, old(self)@.filters).len()) is Some,
            final(self)@ == match jump_target(text@, visible(old(self)@.marks, old(self)@.filters).len()) {
                Some(k) => keep_view(SessionModel { index: k as usize, ..old(self)@ }),
                None => old(self)@,
            },
    {
        let total = self.filtered().len();
        let c = chars_of(text);
        let (lo, hi) = trim_range(&c, 0, c.len());
        proof {
            assert(c@.subrange(0, c@.len() as int) == c@);
        }
        match parse_unsigned(&c, lo, hi, usize::MAX as u64) {
            Some(n) => {
                if n >= 1 && n <= total as u64 {
                    self.index = (n - 1) as usize;
                    self.keep_view_mode_on_move();
                    true
                } else {
                    false
                }
            },
            None => false,
        }
    }

    /// The jump dialog in file-name mode, once the first match's filtered position is known.
    pub fn jump_to(&mut self, pos: usize)
        ensures
            final(self)@ == keep_view(SessionModel { index: pos, ..old(self)@ }),
    {
        self.index = pos;
        self.keep_view_mode_on_move();
    }

    /// Filtered position to reopen the folder at, given the path of the photo last viewed
    /// there.
    pub fn resume_index(&self, saved: &String) -> (r: usize)
        requires
            session_wf(self@),
        ensures
            r == resume_spec(self@, saved@),
    {
        let mut found: Option<usize> = None;
        let mut i: usize = 0;
        while i < self.paths.len()
            invariant
                i <= self.paths.len(),
                self.paths@.len() == self@.paths.len(),
                found == match path_position(self@.paths.take(i as int), saved@) {
                    Some(k) => Some(k as usize),
                    None => None::<usize>,
                },
                path_position(self@.paths.take(i as int), saved@) matches Some(k) ==> k < i,
            decreases self.paths.len() - i,
        {
            proof {
                assert(self@.paths.take(i + 1).drop_last() == self@.paths.take(i as int));
                lemma_path_position(self@.paths.take(i as int), saved@);
            }
            if found.is_none() && self.paths[i] == *saved {
                found = Some(i);
            }
            i = i + 1;
        }
        proof {
            assert(self@.paths.take(i as int) == self@.paths);
        }
        match found {
            None => 0,
            Some(photo) => {
                let f = self.filtered();
                match position_of(&f, photo) {
                    Some(k) => k,
                    None => 0,
                }
            },
        }
    }
}


/// A command-click on the same photo twice leaves the selection as it was (as a set of
/// photos; the photo moves to the end of the selection order).
pub proof fn law_toggle_twice_restores_selection(sel: Seq<usize>, x: usize)
    requires
        sel.no_duplicates(),
    ensures
        toggled(toggled(sel, x), x).to_set() == sel.to_set(),
{
    lemma_position_upto(sel, x, sel.len());
    let once = toggled(sel, x);
    lemma_position_upto(once, x, once.len());
    match position(sel, x) {
        Some(k) => {
            // removed, then added back at the end
            assert(!once.contains(x)) by {
                if once.contains(x) {
                    let j = choose|j: int| 0 <= j < once.len() && once[j] == x;
                    if j < k {
                        assert(sel[j] == x);
                    } else {
                        assert(sel[j + 1] == x);
                    }
                }
            }
            assert(toggled(once, x) == once.push(x));
            assert forall|y: usize| #[trigger] sel.to_set().contains(y) == once.push(x).to_set().contains(y) by {
                if sel.contains(y) {
                    let j = choose|j: int| 0 <= j < sel.len() && sel[j] == y;
                    if y == x {
                        assert(once.push(x)[once.len() as int] == y);
                    } else if j < k {
                        assert(once.push(x)[j] == y);
                    } else {
                        assert(j != k);
                        assert(once.push(x)[j - 1] == y);
                    }
                }
                if once.push(x).contains(y) {
                    let j = choose|j: int| 0 <= j < once.len() + 1 && once.push(x)[j] == y;
                    if j == once.len() {
                        assert(sel[k as int] == y);
                    } else if j < k {
                        assert(sel[j] == y);
                    } else {
                        assert(sel[j + 1] == y);
                    }
                }
            }
            assert(sel.to_set() =~= once.push(x).to_set());
        },
        None => {
            // added at the end, then removed again
            assert(once == sel.push(x));
            assert(position(once, x) == Some(sel.len() as nat)) by {
                assert(once[sel.len() as int] == x);
            }
            assert(toggled(once, x) =~= sel);
        },
    }
}

/// A move never leaves the filtered list: afterwards the position is inside it.
pub proof fn law_move_stays_in_the_list(s: SessionModel, delta: i64)
    requires
        visible(s.marks, s.filters).len() > 0,
    ensures
        advance_model(s, delta).index < visible(s.marks, s.filters).len(),
        grid_cursor(advance_model(s, delta)).index < visible(s.marks, s.filters).len(),
{
}

} // verus!
