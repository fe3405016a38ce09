//! Starting a session, opening a folder into it and re-sorting its photos; the filter
//! chips and view switches of the side rail and toolbar; relabelling by file name.

use crate::edits::{axis_locked, push_undo_model, map_at, MarkOp};
use crate::marks::{passes, Filter, Filters, Label, Mark, StarFilter, TagFilter, filter_after};
use crate::navigation::{position, resume_spec};
use crate::session::{
    current_of, edits_view, session_wf, strings_view, visible, AiCullTarget, CullEdit, CullSession,
    EditModel, SessionModel, ViewCarry, ViewMode,
};
use vstd::prelude::*;

verus! {

/// Whether `order` lists each of `0..n` exactly once.
pub open spec fn is_permutation(order: Seq<usize>, n: nat) -> bool {
    &&& order.len() == n
    &&& order.no_duplicates()
    &&& forall|k: int| 0 <= k < order.len() ==> #[trigger] order[k] < n
    &&& forall|r: usize| r < n ==> #[trigger] order.contains(r)
}

/// First position in the filtered list `f` of a photo whose path is `p`.
pub open spec fn path_pos_in(f: Seq<usize>, paths: Seq<Seq<char>>, p: Seq<char>, n: nat) -> Option<nat>
    decreases n,
{
    if n == 0 {
        None
    } else {
        match path_pos_in(f, paths, p, (n - 1) as nat) {
            Some(k) => Some(k),
            None => if paths[f[n - 1] as int] == p {
                Some((n - 1) as nat)
            } else {
                None
            },
        }
    }
}

/// The session with its photos put in the order `order` (photo `k` of the new order is
/// photo `order[k]` of the old). Real indices all change, so the history, the selection and
/// the pending scroll go; the view follows the photo that was on screen.
pub open spec fn reorder_model(s: SessionModel, order: Seq<usize>) -> SessionModel {
    let marks = Seq::new(order.len(), |k: int| s.marks[order[k] as int]);
    let paths = Seq::new(order.len(), |k: int| s.paths[order[k] as int]);
    let t = SessionModel {
        marks,
        paths,
        undo: Seq::empty(),
        redo: Seq::empty(),
        selected: Seq::empty(),
        sel_anchor: None,
        grid_scroll_to: None,
        ..s
    };
    let f = visible(marks, s.filters);
    let index: usize = match current_of(s) {
        Some(r) => match path_pos_in(f, paths, s.paths[r as int], f.len()) {
            Some(k) => k as usize,
            None => 0,
        },
        None => 0,
    };
    SessionModel { index, ..t }
}

/// Whether `order` leaves every photo in place.
pub open spec fn is_identity(order: Seq<usize>) -> bool {
    forall|k: int| 0 <= k < order.len() ==> #[trigger] order[k] == k
}

/// The session of a newly opened folder: its photos (paths and the marks restored from the
/// sidecar), reopened at the photo last viewed there, with a fresh history and selection,
/// fitted and in preview; filters, view and settings are kept.
pub open spec fn opened_model(s: SessionModel, paths: Seq<Seq<char>>, marks: Seq<Mark>, saved: Option<Seq<char>>) -> SessionModel {
    let t = SessionModel {
        marks,
        paths,
        index: 0,
        selected: Seq::empty(),
        sel_anchor: None,
        grid_scroll_to: None,
        undo: Seq::empty(),
        redo: Seq::empty(),
        full_raw: false,
        fit: true,
        dirty: false,
        ..s
    };
    match saved {
        Some(p) => SessionModel { index: resume_spec(t, p), ..t },
        None => t,
    }
}

/// Label applied by file name to the photos `hits`: the number of them whose label it
/// changes, counting each photo once.
pub open spec fn relabel_count(marks: Seq<Mark>, hits: Seq<usize>, l: Label) -> nat
    decreases hits.len(),
{
    if hits.len() == 0 {
        0
    } else {
        let before = map_at(marks, hits.drop_last(), MarkOp::SetLabel(l));
        let r = hits.last();
        relabel_count(marks, hits.drop_last(), l) + if r < marks.len() && before[r as int].label
            != l {
            1nat
        } else {
            0nat
        }
    }
}

proof fn lemma_relabel_count_le(marks: Seq<Mark>, hits: Seq<usize>, l: Label)
    ensures
        relabel_count(marks, hits, l) <= hits.len(),
    decreases hits.len(),
{
    if hits.len() > 0 {
        lemma_relabel_count_le(marks, hits.drop_last(), l);
    }
}

/// Reorders `v` by `order`.
fn permute_marks(v: &Vec<Mark>, order: &Vec<usize>) -> (r: Vec<Mark>)
    requires
        forall|k: int| 0 <= k < order@.len() ==> #[trigger] order@[k] < v@.len(),
    ensures
        r@ == Seq::new(order@.len(), |k: int| v@[order@[k] as int]),
{
    let mut r: Vec<Mark> = Vec::new();
    let mut i: usize = 0;
    while i < order.len()
        invariant
            i <= order.len(),
            forall|k: int| 0 <= k < order@.len() ==> #[trigger] order@[k] < v@.len(),
            r@ == Seq::new(i as nat, |k: int| v@[order@[k] as int]),
        decreases order.len() - i,
    {
        r.push(v[order[i]]);
        i = i + 1;
        proof {
            assert(r@ =~= Seq::new(i as nat, |k: int| v@[order@[k] as int]));
        }
    }
    r
}

/// Reorders the paths `v` by `order`.
fn permute_paths(v: &Vec<String>, order: &Vec<usize>) -> (r: Vec<String>)
    requires
        forall|k: int| 0 <= k < order@.len() ==> #[trigger] order@[k] < v@.len(),
    ensures
        strings_view(r@) == Seq::new(order@.len(), |k: int| strings_view(v@)[order@[k] as int]),
{
    let mut r: Vec<String> = Vec::new();
    let mut i: usize = 0;
    while i < order.len()
        invariant
            i <= order.len(),
            forall|k: int| 0 <= k < order@.len() ==> #[trigger] order@[k] < v@.len(),
            strings_view(r@) == Seq::new(i as nat, |k: int| strings_view(v@)[order@[k] as int]),
        decreases order.len() - i,
    {
        let p = v[order[i]].clone();
        let ghost r0 = r@;
        r.push(p);
        proof {
            assert(p@ == strings_view(v@)[order@[i as int] as int]);
            assert(r@ == r0.push(p));
            assert(strings_view(r@) =~= strings_view(r0).push(p@));
        }
        i = i + 1;
        proof {
            assert(strings_view(r@) =~= Seq::new(i as nat, |k: int| strings_view(v@)[order@[k] as int]));
        }
    }
    r
}

impl CullSession {
    /// An empty session with the given settings.
    pub fn new(auto_advance: bool, view_carry: ViewCarry, grid_cols: usize) -> (s: CullSession)
        ensures
            session_wf(s@),
            s@ == (SessionModel {
                marks: Seq::empty(),
                paths: Seq::empty(),
                index: 0,
                view: ViewMode::Single,
                filters: Filters { label: Filter::All, stars: StarFilter::Any, tag: TagFilter::Any },
                selected: Seq::empty(),
                sel_anchor: None,
                grid_cols,
                grid_scroll_to: None,
                undo: Seq::empty(),
                redo: Seq::empty(),
                auto_advance,
                view_carry,
                full_raw: false,
                fit: true,
                dirty: false,
                cull_lock: None,
            }),
    {
        let s = CullSession {
            marks: Vec::new(),
            paths: Vec::new(),
            index: 0,
            view: ViewMode::Single,
            filters: Filters::none(),
            selected: Vec::new(),
            sel_anchor: None,
            grid_cols,
            grid_scroll_to: None,
            undo_stack: Vec::new(),
            redo_stack: Vec::new(),
            auto_advance,
            view_carry,
            full_raw: false,
            fit: true,
            sidecar_dirty: false,
            cull_lock: None,
        };
        proof {
            assert(s@.paths =~= Seq::<Seq<char>>::empty());
            assert(s@.undo =~= Seq::<EditModel>::empty());
            assert(s@.redo =~= Seq::<EditModel>::empty());
            assert(s@.marks =~= Seq::<Mark>::empty());
            assert(s@.selected =~= Seq::<usize>::empty());
        }
        s
    }

    /// Opens a folder: `paths` are its photos and `marks` their restored marks; `saved` is
    /// the path of the photo last viewed there, if any (see [`opened_model`]).
    pub fn open_folder(&mut self, paths: Vec<String>, marks: Vec<Mark>, saved: Option<String>)
        requires
            session_wf(old(self)@),
            paths.len() == marks.len(),
            marks.len() <= isize::MAX,
        ensures
            session_wf(final(self)@),
            final(self)@ == opened_model(
                old(self)@,
                strings_view(paths@),
                marks@,
                match saved {
                    Some(p) => Some(p@),
                    None => None::<Seq<char>>,
                },
            ),
    {
        self.marks = marks;
        self.paths = paths;
        self.index = 0;
        self.selected = Vec::new();
        self.sel_anchor = None;
        self.grid_scroll_to = None;
        self.undo_stack = Vec::new();
        self.redo_stack = Vec::new();
        self.full_raw = false;
        self.fit = true;
        self.sidecar_dirty = false;
        proof {
            assert(edits_view(self.undo_stack@) =~= Seq::<EditModel>::empty());
            assert(edits_view(self.redo_stack@) =~= Seq::<EditModel>::empty());
        }
        match saved {
            Some(p) => {
                self.index = self.resume_index(&p);
            },
            None => {},
        }
    }

    /// Puts the photos in the order `order` (see [`reorder_model`]).
    pub fn reorder_items(&mut self, order: &Vec<usize>)
        requires
            session_wf(old(self)@),
            is_permutation(order@, old(self)@.marks.len()),
        ensures
            session_wf(final(self)@),
            final(self)@ == reorder_model(old(self)@, order@),
    {
        proof {
            crate::session::lemma_visible(self.marks@, self.filters);
        }
        let cur = self.current_real();
        let cur_path: Option<String> = match cur {
            Some(r) => Some(self.paths[r].clone()),
            None => None,
        };
        let ghost s0 = self@;
        let marks = permute_marks(&self.marks, order);
        let paths = permute_paths(&self.paths, order);
        self.marks = marks;
        self.paths = paths;
        proof {
            assert(self.paths@.len() == strings_view(self.paths@).len());
        }
        self.undo_stack = Vec::new();
        self.redo_stack = Vec::new();
        self.selected = Vec::new();
        self.sel_anchor = None;
        self.grid_scroll_to = None;
        proof {
            assert(edits_view(self.undo_stack@) =~= Seq::<EditModel>::empty());
            assert(edits_view(self.redo_stack@) =~= Seq::<EditModel>::empty());
        }
        let mut index: usize = 0;
        match cur_path {
            None => {},
            Some(cp) => {
                let ghost r = cur->0;
                let f = self.filtered();
                proof {
                    crate::session::lemma_visible(self.marks@, self.filters);
                }
                let ghost p = cp@;
                let mut found: Option<usize> = None;
                let mut k: usize = 0;
                while k < f.len()
                    invariant
                        k <= f.len(),
                        f@ == visible(self.marks@, self.filters),
                        self@.paths.len() == self.marks@.len(),
                        self.paths@.len() == self.marks@.len(),
                        forall|j: int| 0 <= j < f@.len() ==> #[trigger] f@[j] < self.marks@.len(),
                        found == match path_pos_in(f@, self@.paths, p, k as nat) {
                            Some(j) => Some(j as usize),
                            None => None::<usize>,
                        },
                        path_pos_in(f@, self@.paths, p, k as nat) matches Some(j) ==> j < k,
                        p == cp@,
                    decreases f.len() - k,
                {
                    if found.is_none() && self.paths[f[k]] == cp {
                        found = Some(k);
                    }
                    k = k + 1;
                }
                match found {
                    Some(j) => {
                        index = j;
                    },
                    None => {},
                }
            },
        }
        self.index = index;
    }
}


// ---------------------------------------------------------------- sort order

/// How the photos of a folder are ordered.
#[derive(Clone, Copy, Debug, PartialEq, Eq, Structural)]
pub enum SortOrder {
    /// File name, in natural order.
    Name,
    /// Modification time (sorted as by name once the folder is open).
    Modified,
    /// EXIF capture time, file name breaking ties.
    CaptureTime,
}

/// What changing the sort order asks for.
#[derive(Clone, Copy, Debug, PartialEq, Eq, Structural)]
pub enum SortStep {
    /// Already in effect and saved: nothing.
    Keep,
    /// Re-sort by file name now (no EXIF needed).
    ByName,
    /// Collect capture times in the background, then re-sort.
    CollectTimes,
}

/// The step for switching from `current` (saved as `saved`) to `requested`.
pub fn sort_step(current: SortOrder, saved: SortOrder, requested: SortOrder) -> (r: SortStep)
    ensures
        r == (if current == requested && saved == requested {
            SortStep::Keep
        } else if requested == SortOrder::CaptureTime {
            SortStep::CollectTimes
        } else {
            SortStep::ByName
        }),
{
    if current == requested && saved == requested {
        SortStep::Keep
    } else {
        match requested {
            SortOrder::CaptureTime => SortStep::CollectTimes,
            _ => SortStep::ByName,
        }
    }
}

/// Capture times are collected once per folder generation, only when sorting by capture
/// time and the folder is not empty.
pub fn capture_scan_due(sort: SortOrder, photo_count: usize, scanned_for: Option<u64>, generation: u64) -> (r: bool)
    ensures
        r == (sort == SortOrder::CaptureTime && photo_count > 0 && scanned_for != Some(generation)),
{
    match sort {
        SortOrder::CaptureTime => photo_count > 0 && match scanned_for {
            Some(g) => g != generation,
            None => true,
        },
        _ => false,
    }
}

/// Splits the photos by whether their EXIF is loaded: `known[i]` is `Some(t)` when it is,
/// `t` being the capture time (if any). The result holds the time of each photo so far
/// (`None` for the ones not loaded) and, in order, the photos whose EXIF is still to be read.
pub fn capture_scan_plan(known: &Vec<Option<Option<i64>>>) -> (r: (Vec<Option<i64>>, Vec<usize>))
    ensures
        r.0@.len() == known@.len(),
        forall|i: int| 0 <= i < known@.len() ==> #[trigger] r.0@[i] == match known@[i] {
            Some(t) => t,
            None => None,
        },
        r.1@ == Seq::new(known@.len() as nat, |i: int| i as usize).filter(|i: usize| known@[i as int] is None),
{
    let mut times: Vec<Option<i64>> = Vec::new();
    let mut todo: Vec<usize> = Vec::new();
    let mut i: usize = 0;
    while i < known.len()
        invariant
            i <= known@.len(),
            times@.len() == i,
            forall|j: int| 0 <= j < i ==> #[trigger] times@[j] == match known@[j] {
                Some(t) => t,
                None => None,
            },
            todo@ == Seq::new(i as nat, |j: int| j as usize).filter(|j: usize| known@[j as int] is None),
        decreases known@.len() - i,
    {
        let ghost idx = Seq::new(i as nat, |j: int| j as usize);
        let ghost idx1 = Seq::new((i + 1) as nat, |j: int| j as usize);
        proof {
            assert(idx1 =~= idx.push(i));
            idx.lemma_filter_push(i, |j: usize| known@[j as int] is None);
        }
        match known[i] {
            Some(t) => times.push(t),
            None => {
                times.push(None);
                todo.push(i);
            },
        }
        i = i + 1;
    }
    (times, todo)
}

/// Collected capture times come back from the background: they are used only when the
/// folder is still the one they were collected for (`scan_generation == generation`), the
/// order is still by capture time, and there is one time per photo (`times_len`).
pub fn capture_times_apply(
    scan_generation: u64,
    generation: u64,
    sort: SortOrder,
    times_len: usize,
    photo_count: usize,
) -> (r: bool)
    ensures
        r == (scan_generation == generation && sort == SortOrder::CaptureTime && times_len
            == photo_count),
{
    scan_generation == generation && times_len == photo_count && match sort {
        SortOrder::CaptureTime => true,
        _ => false,
    }
}

impl CullSession {
    /// A new sort order computed for the photos: applied unless it leaves every photo in
    /// place. Returns whether anything moved.
    pub fn apply_order(&mut self, order: &Vec<usize>) -> (moved: bool)
        requires
            session_wf(old(self)@),
            is_permutation(order@, old(self)@.marks.len()),
        ensures
            session_wf(final(self)@),
            moved == !is_identity(order@),
            final(self)@ == if moved {
                reorder_model(old(self)@, order@)
            } else {
                old(self)@
            },
    {
        let mut i: usize = 0;
        while i < order.len()
            invariant
                i <= order.len(),
                forall|k: int| 0 <= k < i ==> #[trigger] order@[k] == k,
                self@ == old(self)@,
                session_wf(old(self)@),
                is_permutation(order@, old(self)@.marks.len()),
            decreases order.len() - i,
        {
            if order[i] != i {
                self.reorder_items(order);
                return true;
            }
            i = i + 1;
        }
        false
    }

    /// A label chip of the side rail: shows only that label, from the first photo.
    pub fn pick_label_filter(&mut self, f: Filter)
        ensures
            final(self)@ == (SessionModel {
                filters: Filters { label: f, ..old(self)@.filters },
                index: 0,
                ..old(self)@
            }),
    {
        self.filters.label = f;
        self.index = 0;
    }

    /// A star chip: shows only that rating, or every rating when clicked again; from the
    /// first photo.
    pub fn pick_star_filter(&mut self, sf: StarFilter)
        ensures
            final(self)@ == (SessionModel {
                filters: Filters {
                    stars: if sf == old(self)@.filters.stars {
                        StarFilter::Any
                    } else {
                        sf
                    },
                    ..old(self)@.filters
                },
                index: 0,
                ..old(self)@
            }),
    {
        self.filters.stars = if sf == self.filters.stars {
            StarFilter::Any
        } else {
            sf
        };
        self.index = 0;
    }

    /// A colour chip: shows only that colour, or every colour when clicked again; from
    /// the first photo.
    pub fn pick_tag_filter(&mut self, tf: TagFilter)
        ensures
            final(self)@ == (SessionModel {
                filters: Filters {
                    tag: if tf == old(self)@.filters.tag {
                        TagFilter::Any
                    } else {
                        tf
                    },
                    ..old(self)@.filters
                },
                index: 0,
                ..old(self)@
            }),
    {
        self.filters.tag = if tf == self.filters.tag {
            TagFilter::Any
        } else {
            tf
        };
        self.index = 0;
    }

    /// Key F: the next label filter (All, Pick, Hold, Reject, Unrated, and round again).
    pub fn cycle_label_filter(&mut self)
        ensures
            final(self)@ == (SessionModel {
                filters: Filters { label: filter_after(old(self)@.filters.label), ..old(self)@.filters },
                ..old(self)@
            }),
    {
        self.filters.label = self.filters.label.next();
    }

    /// Key T: switches between the single view and the grid.
    pub fn toggle_view(&mut self)
        ensures
            final(self)@ == (SessionModel {
                view: match old(self)@.view {
                    ViewMode::Single => ViewMode::Grid,
                    ViewMode::Grid => ViewMode::Single,
                },
                ..old(self)@
            }),
    {
        self.view = match self.view {
            ViewMode::Single => ViewMode::Grid,
            ViewMode::Grid => ViewMode::Single,
        };
    }

    /// Relabels the photos `hits` (found by file name) with `target`, as one edit. Refused
    /// (`None`, nothing changes) while an AI culling job owns the labels; otherwise returns
    /// how many labels changed, and marks the sidecar due if any did.
    pub fn bulk_relabel(&mut self, hits: &Vec<usize>, target: Label) -> (r: Option<usize>)
        requires
            session_wf(old(self)@),
        ensures
            session_wf(final(self)@),
            axis_locked(old(self)@, AiCullTarget::Label) ==> r is None && final(self)@ == old(self)@,
            !axis_locked(old(self)@, AiCullTarget::Label) ==> ({
                let n = relabel_count(old(self)@.marks, hits@, target);
                let t = push_undo_model(old(self)@, hits@);
                &&& r == Some(n as usize)
                &&& final(self)@ == (SessionModel {
                    marks: map_at(t.marks, hits@, MarkOp::SetLabel(target)),
                    dirty: old(self)@.dirty || n > 0,
                    ..t
                })
            }),
    {
        if self.cull_axis_locked(AiCullTarget::Label) {
            return None;
        }
        self.push_undo(hits);
        let changed = relabel(&mut self.marks, hits, target);
        if changed > 0 {
            self.sidecar_dirty = true;
        }
        Some(changed)
    }
}

/// Gives the photos `hits` the label `l`; returns how many labels changed.
fn relabel(marks: &mut Vec<Mark>, hits: &Vec<usize>, l: Label) -> (r: usize)
    ensures
        final(marks)@ == map_at(old(marks)@, hits@, MarkOp::SetLabel(l)),
        r == relabel_count(old(marks)@, hits@, l),
{
    let ghost m0 = marks@;
    let mut changed: usize = 0;
    let mut i: usize = 0;
    proof {
        assert(map_at(m0, hits@.take(0), MarkOp::SetLabel(l)) =~= m0);
    }
    while i < hits.len()
        invariant
            i <= hits.len(),
            marks@.len() == m0.len(),
            marks@ == map_at(m0, hits@.take(i as int), MarkOp::SetLabel(l)),
            changed == relabel_count(m0, hits@.take(i as int), l),
            changed <= i,
        decreases hits.len() - i,
    {
        proof {
            assert(hits@.take(i + 1).drop_last() == hits@.take(i as int));
        }
        let r = hits[i];
        if r < marks.len() {
            proof {
                crate::edits::lemma_map_at_step(m0, hits@, MarkOp::SetLabel(l), i as int);
            }
            let m = marks[r];
            if m.label != l {
                marks.set(r, Mark { label: l, ..m });
                changed = changed + 1;
            } else {
                proof {
                    assert(marks@.update(r as int, Mark { label: l, ..m }) =~= marks@);
                }
            }
        } else {
            proof {
                crate::edits::lemma_map_at_skip(m0, hits@, MarkOp::SetLabel(l), i as int);
            }
        }
        i = i + 1;
    }
    proof {
        assert(hits@.take(hits.len() as int) == hits@);
    }
    changed
}


proof fn lemma_path_pos_in(f: Seq<usize>, paths: Seq<Seq<char>>, p: Seq<char>, n: nat)
    requires
        n <= f.len(),
    ensures
        path_pos_in(f, paths, p, n) matches Some(j) ==> j < n && paths[f[j as int] as int] == p,
        path_pos_in(f, paths, p, n) is None ==> forall|j: int| 0 <= j < n ==> paths[f[j] as int] != p,
    decreases n,
{
    if n > 0 {
        lemma_path_pos_in(f, paths, p, (n - 1) as nat);
    }
}

/// Re-sorting the photos keeps the photo on screen: afterwards the view shows a photo with
/// the path of the one shown before.
pub proof fn law_reorder_keeps_photo_on_screen(s: SessionModel, order: Seq<usize>)
    requires
        session_wf(s),
        is_permutation(order, s.marks.len()),
        current_of(s) is Some,
    ensures
        current_of(reorder_model(s, order)) is Some,
        reorder_model(s, order).paths[current_of(reorder_model(s, order))->0 as int] == s.paths[current_of(s)->0 as int],
{
    let t = reorder_model(s, order);
    let r = current_of(s)->0;
    crate::session::lemma_visible(s.marks, s.filters);
    let v = visible(s.marks, s.filters);
    assert(v.contains(r));
    assert(passes(s.filters, s.marks[r as int]));
    assert(order.contains(r));
    let k0 = choose|k: int| 0 <= k < order.len() && order[k] == r;
    assert(t.marks[k0] == s.marks[r as int]);
    crate::session::lemma_visible(t.marks, t.filters);
    let f = visible(t.marks, t.filters);
    assert(t.marks.len() == s.marks.len());
    assert(f.contains(k0 as usize));
    let j0 = choose|j: int| 0 <= j < f.len() && f[j] == k0 as usize;
    let p = s.paths[r as int];
    assert(t.paths[k0] == p);
    lemma_path_pos_in(f, t.paths, p, f.len());
    assert(t.paths[f[j0] as int] == p);
    let j = path_pos_in(f, t.paths, p, f.len())->0;
    assert(t.index == j as usize);
    assert(current_of(t) == Some(f[j as int]));
}

} // verus!
