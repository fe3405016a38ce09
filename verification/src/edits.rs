//! Culling edits and their history: labels, stars and colour tags applied to the current
//! photo or to the grid selection, with undo and redo.

use crate::marks::{passes, ColorTag, Label, Mark};
use crate::navigation::{after_rate, focus_model};
use crate::session::{
    current_of, edits_view, session_wf, AiCullTarget, CullEdit, CullSession, EditModel,
    SessionModel, ViewMode, UNDO_LIMIT,
};
use vstd::prelude::*;

verus! {

// ---------------------------------------------------------------- snapshots

/// The marks of the photos `reals` (those that exist), in that order: what an edit of them
/// records so that it can be undone.
pub open spec fn snapshot(marks: Seq<Mark>, reals: Seq<usize>) -> Seq<(usize, Mark)>
    decreases reals.len(),
{
    if reals.len() == 0 {
        Seq::empty()
    } else {
        let p = snapshot(marks, reals.drop_last());
        let r = reals.last();
        if r < marks.len() {
            p.push((r, marks[r as int]))
        } else {
            p
        }
    }
}

/// The photos a snapshot is about.
pub open spec fn reals_of(prev: Seq<(usize, Mark)>) -> Seq<usize> {
    prev.map_values(|p: (usize, Mark)| p.0)
}

/// `marks` with the recorded marks of `prev` written back, in order.
pub open spec fn apply_prev(marks: Seq<Mark>, prev: Seq<(usize, Mark)>) -> Seq<Mark>
    decreases prev.len(),
{
    if prev.len() == 0 {
        marks
    } else {
        let m = apply_prev(marks, prev.drop_last());
        let (r, v) = prev.last();
        if r < m.len() {
            m.update(r as int, v)
        } else {
            m
        }
    }
}

/// `a` and `b` differ at most at the photos `t`.
pub open spec fn agree_outside(a: Seq<Mark>, b: Seq<Mark>, t: Seq<usize>) -> bool {
    &&& a.len() == b.len()
    &&& forall|i: int| 0 <= i < a.len() && !t.contains(i as usize) ==> #[trigger] a[i] == b[i]
}

proof fn lemma_apply_snapshot(a: Seq<Mark>, b: Seq<Mark>, t: Seq<usize>)
    requires
        a.len() == b.len(),
        b.len() <= usize::MAX,
    ensures
        apply_prev(b, snapshot(a, t)).len() == b.len(),
        forall|i: int|
            0 <= i < b.len() ==> #[trigger] apply_prev(b, snapshot(a, t))[i] == if t.contains(
                i as usize,
            ) {
                a[i]
            } else {
                b[i]
            },
    decreases t.len(),
{
    if t.len() > 0 {
        let t1 = t.drop_last();
        lemma_apply_snapshot(a, b, t1);
        let r = t.last();
        assert forall|i: int| 0 <= i < b.len() implies #[trigger] t.contains(i as usize) == (
        t1.contains(i as usize) || r == i as usize) by {
            if t.contains(i as usize) {
                let k = choose|k: int| 0 <= k < t.len() && t[k] == i as usize;
                if k < t.len() - 1 {
                    assert(t1[k] == i as usize);
                }
            }
            if t1.contains(i as usize) {
                let k = choose|k: int| 0 <= k < t1.len() && t1[k] == i as usize;
                assert(t[k] == i as usize);
            }
            if r == i as usize {
                assert(t[t.len() - 1] == i as usize);
            }
        }
        let s1 = snapshot(a, t1);
        let m1 = apply_prev(b, s1);
        if r < a.len() {
            let s = s1.push((r, a[r as int]));
            assert(snapshot(a, t) == s);
            assert(s.drop_last() == s1);
            assert(apply_prev(b, s) == m1.update(r as int, a[r as int]));
        } else {
            assert(snapshot(a, t) == s1);
        }
    }
}

/// Writing back a snapshot of `a` taken over `t` turns any `b` that differs from `a` only at
/// `t` back into `a`.
pub proof fn lemma_restore(a: Seq<Mark>, b: Seq<Mark>, t: Seq<usize>)
    requires
        agree_outside(a, b, t),
        a.len() <= usize::MAX,
    ensures
        apply_prev(b, snapshot(a, t)) == a,
{
    lemma_apply_snapshot(a, b, t);
    assert(apply_prev(b, snapshot(a, t)) =~= a);
}

proof fn lemma_reals_of_snapshot(marks: Seq<Mark>, t: Seq<usize>)
    ensures
        forall|k: int|
            0 <= k < snapshot(marks, t).len() ==> t.contains(#[trigger] snapshot(marks, t)[k].0)
                && snapshot(marks, t)[k].0 < marks.len(),
        forall|r: usize| #[trigger] t.contains(r) && r < marks.len() ==> reals_of(snapshot(marks, t)).contains(r),
    decreases t.len(),
{
    if t.len() > 0 {
        let t1 = t.drop_last();
        lemma_reals_of_snapshot(marks, t1);
        let p = snapshot(marks, t1);
        let s = snapshot(marks, t);
        assert forall|k: int| 0 <= k < s.len() implies t.contains(#[trigger] s[k].0) && s[k].0
            < marks.len() by {
            if k < p.len() {
                assert(s[k] == p[k]);
                assert(t1.contains(p[k].0));
                let j = choose|j: int| 0 <= j < t1.len() && t1[j] == p[k].0;
                assert(t[j] == p[k].0);
            } else {
                assert(t[t.len() - 1] == s[k].0);
            }
        }
        assert forall|r: usize| #[trigger] t.contains(r) && r < marks.len() implies reals_of(s).contains(r) by {
            let j = choose|j: int| 0 <= j < t.len() && t[j] == r;
            if j < t.len() - 1 {
                assert(t1[j] == r);
                assert(t1.contains(r));
                let k = choose|k: int| 0 <= k < reals_of(p).len() && reals_of(p)[k] == r;
                assert(s[k] == p[k]);
                assert(reals_of(s)[k] == r);
            } else {
                assert(reals_of(s)[s.len() - 1] == r);
            }
        }
    }
}

/// The marks of `reals` (those that exist), as an undo record.
fn take_snapshot(marks: &Vec<Mark>, reals: &Vec<usize>) -> (r: Vec<(usize, Mark)>)
    ensures
        r@ == snapshot(marks@, reals@),
{
    let mut prev: Vec<(usize, Mark)> = Vec::new();
    let mut i: usize = 0;
    while i < reals.len()
        invariant
            i <= reals.len(),
            prev@ == snapshot(marks@, reals@.take(i as int)),
        decreases reals.len() - i,
    {
        proof {
            assert(reals@.take(i + 1).drop_last() == reals@.take(i as int));
        }
        let r = reals[i];
        if r < marks.len() {
            prev.push((r, marks[r]));
        }
        i = i + 1;
    }
    proof {
        assert(reals@.take(reals.len() as int) == reals@);
    }
    prev
}

/// The marks of the photos named in `prev`, as the record that reverses writing `prev` back.
fn snapshot_of(marks: &Vec<Mark>, prev: &Vec<(usize, Mark)>) -> (r: Vec<(usize, Mark)>)
    ensures
        r@ == snapshot(marks@, reals_of(prev@)),
{
    let mut out: Vec<(usize, Mark)> = Vec::new();
    let mut i: usize = 0;
    while i < prev.len()
        invariant
            i <= prev.len(),
            out@ == snapshot(marks@, reals_of(prev@).take(i as int)),
        decreases prev.len() - i,
    {
        proof {
            assert(reals_of(prev@).take(i + 1).drop_last() == reals_of(prev@).take(i as int));
        }
        let r = prev[i].0;
        if r < marks.len() {
            out.push((r, marks[r]));
        }
        i = i + 1;
    }
    proof {
        assert(reals_of(prev@).take(prev.len() as int) == reals_of(prev@));
    }
    out
}

/// Writes the recorded marks of `prev` back, in order.
fn write_back(marks: &mut Vec<Mark>, prev: &Vec<(usize, Mark)>)
    ensures
        final(marks)@ == apply_prev(old(marks)@, prev@),
{
    let mut i: usize = 0;
    while i < prev.len()
        invariant
            i <= prev.len(),
            marks@ == apply_prev(old(marks)@, prev@.take(i as int)),
        decreases prev.len() - i,
    {
        proof {
            assert(prev@.take(i + 1).drop_last() == prev@.take(i as int));
            lemma_apply_len(old(marks)@, prev@.take(i as int));
        }
        let (r, v) = prev[i];
        if r < marks.len() {
            marks.set(r, v);
        }
        i = i + 1;
    }
    proof {
        assert(prev@.take(prev.len() as int) == prev@);
    }
}

proof fn lemma_apply_len(marks: Seq<Mark>, prev: Seq<(usize, Mark)>)
    ensures
        apply_prev(marks, prev).len() == marks.len(),
    decreases prev.len(),
{
    if prev.len() > 0 {
        lemma_apply_len(marks, prev.drop_last());
    }
}

// ---------------------------------------------------------------- history

/// Records the marks of `reals` before an edit of them: a new undo entry (the oldest is
/// dropped beyond [`UNDO_LIMIT`]) and an emptied redo history. Nothing happens when none
/// of `reals` exists.
pub open spec fn push_undo_model(s: SessionModel, reals: Seq<usize>) -> SessionModel {
    let prev = snapshot(s.marks, reals);
    if prev.len() == 0 {
        s
    } else {
        let u = s.undo.push(EditModel { prev, index: s.index });
        SessionModel {
            undo: if u.len() > UNDO_LIMIT {
                u.drop_first()
            } else {
                u
            },
            redo: Seq::empty(),
            ..s
        }
    }
}

/// State after writing an undo record back: the marks restored, the sidecar due, and the
/// view on the edited photo.
pub open spec fn applied_model(s: SessionModel, e: EditModel) -> SessionModel {
    let t = SessionModel { marks: apply_prev(s.marks, e.prev), dirty: true, ..s };
    let first: Option<usize> = if e.prev.len() > 0 {
        Some(e.prev[0].0)
    } else {
        None
    };
    focus_model(t, first, e.index)
}

/// The record that reverses writing `e` back in state `s`.
pub open spec fn inverse_of(s: SessionModel, e: EditModel) -> EditModel {
    EditModel { prev: snapshot(s.marks, reals_of(e.prev)), index: s.index }
}

/// Ctrl+Z: the latest edit is reversed and moves to the redo history.
pub open spec fn undo_model(s: SessionModel) -> SessionModel {
    if s.undo.len() == 0 {
        s
    } else {
        let e = s.undo.last();
        let s1 = SessionModel { undo: s.undo.drop_last(), ..s };
        let t = applied_model(s1, e);
        SessionModel { redo: t.redo.push(inverse_of(s1, e)), ..t }
    }
}

/// Ctrl+Shift+Z: the latest undone edit is applied again and moves back to the undo history.
pub open spec fn redo_model(s: SessionModel) -> SessionModel {
    if s.redo.len() == 0 {
        s
    } else {
        let e = s.redo.last();
        let s1 = SessionModel { redo: s.redo.drop_last(), ..s };
        let t = applied_model(s1, e);
        SessionModel { undo: t.undo.push(inverse_of(s1, e)), ..t }
    }
}

proof fn lemma_edits_push(v: Seq<CullEdit>, e: CullEdit)
    ensures
        edits_view(v.push(e)) == edits_view(v).push(e@),
{
    assert(edits_view(v.push(e)) =~= edits_view(v).push(e@));
}

proof fn lemma_edits_drop_last(v: Seq<CullEdit>)
    requires
        v.len() > 0,
    ensures
        edits_view(v.drop_last()) == edits_view(v).drop_last(),
        edits_view(v).last() == v.last()@,
{
    assert(edits_view(v.drop_last()) =~= edits_view(v).drop_last());
}

proof fn lemma_edits_remove_first(v: Seq<CullEdit>)
    requires
        v.len() > 0,
    ensures
        edits_view(v.remove(0)) == edits_view(v).drop_first(),
{
    assert(edits_view(v.remove(0)) =~= edits_view(v).drop_first());
}

impl CullSession {
    /// Records the marks of `reals` before they are edited (see [`push_undo_model`]).
    pub fn push_undo(&mut self, reals: &Vec<usize>)
        requires
            session_wf(old(self)@),
        ensures
            session_wf(final(self)@),
            final(self)@ == push_undo_model(old(self)@, reals@),
    {
        let prev = take_snapshot(&self.marks, reals);
        if prev.len() == 0 {
            return;
        }
        let e = CullEdit { prev, index: self.index };
        proof {
            lemma_edits_push(self.undo_stack@, e);
        }
        self.undo_stack.push(e);
        if self.undo_stack.len() > UNDO_LIMIT {
            proof {
                lemma_edits_remove_first(self.undo_stack@);
            }
            self.undo_stack.remove(0);
        }
        self.redo_stack.clear();
        proof {
            assert(edits_view(self.redo_stack@) =~= Seq::<EditModel>::empty());
        }
    }

    /// Writes an undo record back and returns the record that reverses it.
    pub fn apply_cull_snapshot(&mut self, edit: &CullEdit) -> (inv: CullEdit)
        ensures
            final(self)@ == applied_model(old(self)@, edit@),
            inv@ == inverse_of(old(self)@, edit@),
    {
        let prev = snapshot_of(&self.marks, &edit.prev);
        let inverse_index = self.index;
        write_back(&mut self.marks, &edit.prev);
        self.sidecar_dirty = true;
        let first = if edit.prev.len() > 0 {
            Some(edit.prev[0].0)
        } else {
            None
        };
        self.focus_after_undo(first, edit.index);
        CullEdit { prev, index: inverse_index }
    }

    /// Reverses the latest edit. Returns false when there is nothing to undo.
    pub fn undo(&mut self) -> (done: bool)
        requires
            session_wf(old(self)@),
        ensures
            session_wf(final(self)@),
            done == (old(self)@.undo.len() > 0),
            final(self)@ == undo_model(old(self)@),
    {
        proof {
            if self.undo_stack@.len() > 0 {
                lemma_edits_drop_last(self.undo_stack@);
            }
        }
        match self.undo_stack.pop() {
            None => false,
            Some(edit) => {
                proof {
                    lemma_apply_len(self.marks@, edit@.prev);
                }
                let inv = self.apply_cull_snapshot(&edit);
                proof {
                    lemma_edits_push(self.redo_stack@, inv);
                }
                self.redo_stack.push(inv);
                true
            },
        }
    }

    /// Applies again the latest undone edit. Returns false when there is nothing to redo.
    pub fn redo(&mut self) -> (done: bool)
        requires
            session_wf(old(self)@),
        ensures
            session_wf(final(self)@),
            done == (old(self)@.redo.len() > 0),
            final(self)@ == redo_model(old(self)@),
    {
        proof {
            if self.redo_stack@.len() > 0 {
                lemma_edits_drop_last(self.redo_stack@);
            }
        }
        match self.redo_stack.pop() {
            None => false,
            Some(edit) => {
                proof {
                    lemma_apply_len(self.marks@, edit@.prev);
                }
                let inv = self.apply_cull_snapshot(&edit);
                proof {
                    lemma_edits_push(self.undo_stack@, inv);
                }
                self.undo_stack.push(inv);
                true
            },
        }
    }
}


// ---------------------------------------------------------------- rating

/// One culling change applied to a photo.
#[derive(Clone, Copy, Debug, PartialEq, Eq, Structural)]
pub enum MarkOp {
    SetLabel(Label),
    SetStars(u8),
    SetTag(ColorTag),
}

pub open spec fn apply_op(op: MarkOp, m: Mark) -> Mark {
    match op {
        MarkOp::SetLabel(l) => Mark { label: l, ..m },
        MarkOp::SetStars(n) => Mark { stars: n, ..m },
        MarkOp::SetTag(t) => Mark { tag: t, ..m },
    }
}

/// `marks` with `op` applied to each of the photos `targets`.
pub open spec fn map_at(marks: Seq<Mark>, targets: Seq<usize>, op: MarkOp) -> Seq<Mark> {
    Seq::new(
        marks.len(),
        |i: int|
            if targets.contains(i as usize) {
                apply_op(op, marks[i])
            } else {
                marks[i]
            },
    )
}

/// Ratings above five count as five.
pub open spec fn star_cap(n: u8) -> u8 {
    if n > 5 {
        5
    } else {
        n
    }
}

/// A label key on one photo: the label, or no label if the photo had it already.
pub open spec fn label_toggled(m: Mark, l: Label) -> Mark {
    Mark {
        label: if m.label == l {
            Label::Unrated
        } else {
            l
        },
        ..m
    }
}

/// A star key on one photo: that rating (at most five), or none if the photo had it already.
pub open spec fn stars_toggled(m: Mark, n: u8) -> Mark {
    let s = star_cap(n);
    Mark {
        stars: if s != 0 && m.stars == s {
            0
        } else {
            s
        },
        ..m
    }
}

/// A colour-tag key on one photo: the tag, or no tag if the photo had it already.
pub open spec fn tag_toggled(m: Mark, t: ColorTag) -> Mark {
    Mark {
        tag: if m.tag == t {
            ColorTag::Untagged
        } else {
            t
        },
        ..m
    }
}

/// Whether a running AI culling job owns the axis `a` (edits of it are refused).
pub open spec fn axis_locked(s: SessionModel, a: AiCullTarget) -> bool {
    s.cull_lock == Some(a)
}

/// An edit in the grid with photos selected applies to the whole selection.
pub open spec fn grid_batch(s: SessionModel) -> bool {
    s.view == ViewMode::Grid && s.selected.len() > 0
}

/// `op` applied to the whole selection, recorded for undo.
pub open spec fn batch_edit(s: SessionModel, op: MarkOp) -> SessionModel {
    let t = push_undo_model(s, s.selected);
    SessionModel { marks: map_at(t.marks, s.selected, op), dirty: true, ..t }
}

/// Photo `p` given the mark `m`, recorded for undo.
pub open spec fn single_edit(s: SessionModel, p: usize, m: Mark) -> SessionModel {
    let t = push_undo_model(s, seq![p]);
    SessionModel { marks: t.marks.update(p as int, m), dirty: true, ..t }
}

/// Label key (Q W E R).
pub open spec fn set_label_model(s: SessionModel, l: Label) -> SessionModel {
    if axis_locked(s, AiCullTarget::Label) {
        s
    } else if grid_batch(s) {
        batch_edit(s, MarkOp::SetLabel(l))
    } else {
        match current_of(s) {
            None => s,
            Some(p) => {
                let m = label_toggled(s.marks[p as int], l);
                let t = single_edit(s, p, m);
                if s.auto_advance && m.label != Label::Unrated {
                    after_rate(t, p)
                } else {
                    t
                }
            },
        }
    }
}

/// Star key (0 to 5); `allow_advance` is false for clicks in the side rail.
pub open spec fn set_stars_model(s: SessionModel, n: u8, allow_advance: bool) -> SessionModel {
    if axis_locked(s, AiCullTarget::Stars) {
        s
    } else if grid_batch(s) {
        batch_edit(s, MarkOp::SetStars(star_cap(n)))
    } else {
        match current_of(s) {
            None => s,
            Some(p) => {
                let m = stars_toggled(s.marks[p as int], n);
                let t = single_edit(s, p, m);
                if allow_advance && s.auto_advance && m.stars != 0 {
                    after_rate(t, p)
                } else {
                    t
                }
            },
        }
    }
}

/// Colour-tag key; tags never advance.
pub open spec fn set_tag_model(s: SessionModel, t: ColorTag) -> SessionModel {
    if axis_locked(s, AiCullTarget::Tag) {
        s
    } else if grid_batch(s) {
        batch_edit(s, MarkOp::SetTag(t))
    } else {
        match current_of(s) {
            None => s,
            Some(p) => single_edit(s, p, tag_toggled(s.marks[p as int], t)),
        }
    }
}

/// A copy of `v`.
fn copy_indices(v: &Vec<usize>) -> (r: Vec<usize>)
    ensures
        r@ == v@,
{
    let mut r: Vec<usize> = Vec::new();
    let mut i: usize = 0;
    while i < v.len()
        invariant
            i <= v.len(),
            r@ == v@.take(i as int),
        decreases v.len() - i,
    {
        proof {
            assert(v@.take(i + 1) == r@.push(v@[i as int]));
        }
        r.push(v[i]);
        i = i + 1;
    }
    proof {
        assert(v@.take(v.len() as int) == v@);
    }
    r
}

pub(crate) proof fn lemma_map_at_step(marks: Seq<Mark>, t: Seq<usize>, op: MarkOp, i: int)
    requires
        0 <= i < t.len(),
        t[i] < marks.len(),
        marks.len() <= usize::MAX,
    ensures
        map_at(marks, t.take(i + 1), op) == map_at(marks, t.take(i), op).update(
            t[i] as int,
            apply_op(op, map_at(marks, t.take(i), op)[t[i] as int]),
        ),
{
    let a = map_at(marks, t.take(i + 1), op);
    let b = map_at(marks, t.take(i), op).update(
        t[i] as int,
        apply_op(op, map_at(marks, t.take(i), op)[t[i] as int]),
    );
    assert forall|j: int| 0 <= j < marks.len() implies #[trigger] a[j] == b[j] by {
        if t.take(i + 1).contains(j as usize) && j != t[i] as int {
            let ti1 = t.take(i + 1);
            let k = choose|k: int| 0 <= k < ti1.len() && ti1[k] == j as usize;
            assert(t.take(i)[k] == j as usize);
        }
        if t.take(i).contains(j as usize) {
            let ti = t.take(i);
            let k = choose|k: int| 0 <= k < ti.len() && ti[k] == j as usize;
            assert(t.take(i + 1)[k] == j as usize);
        }
        if j == t[i] as int {
            assert(t.take(i + 1)[i] == j as usize);
        }
    }
    assert(a =~= b);
}

pub(crate) proof fn lemma_map_at_skip(marks: Seq<Mark>, t: Seq<usize>, op: MarkOp, i: int)
    requires
        0 <= i < t.len(),
        t[i] >= marks.len(),
        marks.len() <= usize::MAX,
    ensures
        map_at(marks, t.take(i + 1), op) == map_at(marks, t.take(i), op),
{
    let a = map_at(marks, t.take(i + 1), op);
    let b = map_at(marks, t.take(i), op);
    assert forall|j: int| 0 <= j < marks.len() implies #[trigger] a[j] == b[j] by {
        if t.take(i + 1).contains(j as usize) {
            let ti1 = t.take(i + 1);
            let k = choose|k: int| 0 <= k < ti1.len() && ti1[k] == j as usize;
            assert(k != i);
            assert(t.take(i)[k] == j as usize);
        }
        if t.take(i).contains(j as usize) {
            let ti = t.take(i);
            let k = choose|k: int| 0 <= k < ti.len() && ti[k] == j as usize;
            assert(t.take(i + 1)[k] == j as usize);
        }
    }
    assert(a =~= b);
}

/// Applies `op` to each photo of `targets` that exists.
fn apply_to(marks: &mut Vec<Mark>, targets: &Vec<usize>, op: MarkOp)
    ensures
        final(marks)@ == map_at(old(marks)@, targets@, op),
{
    let mut i: usize = 0;
    proof {
        assert(map_at(old(marks)@, targets@.take(0), op) =~= old(marks)@);
    }
    while i < targets.len()
        invariant
            i <= targets.len(),
            marks@.len() == old(marks)@.len(),
            marks@ == map_at(old(marks)@, targets@.take(i as int), op),
        decreases targets.len() - i,
    {
        let r = targets[i];
        if r < marks.len() {
            proof {
                lemma_map_at_step(old(marks)@, targets@, op, i as int);
            }
            let m = marks[r];
            let nm = match op {
                MarkOp::SetLabel(l) => Mark { label: l, ..m },
                MarkOp::SetStars(n) => Mark { stars: n, ..m },
                MarkOp::SetTag(t) => Mark { tag: t, ..m },
            };
            marks.set(r, nm);
        } else {
            proof {
                lemma_map_at_skip(old(marks)@, targets@, op, i as int);
            }
        }
        i = i + 1;
    }
    proof {
        assert(targets@.take(targets.len() as int) == targets@);
    }
}

impl CullSession {
    /// Whether the axis `axis` is owned by a running AI culling job.
    pub fn cull_axis_locked(&self, axis: AiCullTarget) -> (r: bool)
        ensures
            r == axis_locked(self@, axis),
    {
        match self.cull_lock {
            Some(a) => a == axis,
            None => false,
        }
    }

    /// The grid selection applied as one edit.
    fn edit_selection(&mut self, op: MarkOp)
        requires
            session_wf(old(self)@),
        ensures
            session_wf(final(self)@),
            final(self)@ == batch_edit(old(self)@, op),
    {
        let targets = copy_indices(&self.selected);
        self.push_undo(&targets);
        apply_to(&mut self.marks, &targets, op);
        self.sidecar_dirty = true;
    }

    /// Photo `p` given mark `m`, as one edit.
    fn edit_one(&mut self, p: usize, m: Mark)
        requires
            session_wf(old(self)@),
            p < old(self)@.marks.len(),
        ensures
            session_wf(final(self)@),
            final(self)@ == single_edit(old(self)@, p, m),
    {
        let mut one: Vec<usize> = Vec::new();
        one.push(p);
        proof {
            assert(one@ == seq![p]);
        }
        self.push_undo(&one);
        self.marks.set(p, m);
        self.sidecar_dirty = true;
    }

    /// Label key (Q W E R): see [`set_label_model`].
    pub fn set_label(&mut self, label: Label)
        requires
            session_wf(old(self)@),
        ensures
            session_wf(final(self)@),
            final(self)@ == set_label_model(old(self)@, label),
    {
        if self.cull_axis_locked(AiCullTarget::Label) {
            return;
        }
        if self.view == ViewMode::Grid && self.selected.len() > 0 {
            self.edit_selection(MarkOp::SetLabel(label));
            return;
        }
        proof {
            crate::session::lemma_visible(self.marks@, self.filters);
        }
        match self.current_real() {
            None => {},
            Some(p) => {
                let m = self.marks[p];
                let nm = Mark {
                    label: if m.label == label {
                        Label::Unrated
                    } else {
                        label
                    },
                    ..m
                };
                self.edit_one(p, nm);
                if self.auto_advance && nm.label != Label::Unrated {
                    self.advance_after_rate(p);
                }
            },
        }
    }

    /// Star key: see [`set_stars_model`].
    pub fn set_stars(&mut self, stars: u8, allow_advance: bool)
        requires
            session_wf(old(self)@),
        ensures
            session_wf(final(self)@),
            final(self)@ == set_stars_model(old(self)@, stars, allow_advance),
    {
        if self.cull_axis_locked(AiCullTarget::Stars) {
            return;
        }
        let n = if stars > 5 {
            5
        } else {
            stars
        };
        if self.view == ViewMode::Grid && self.selected.len() > 0 {
            self.edit_selection(MarkOp::SetStars(n));
            return;
        }
        proof {
            crate::session::lemma_visible(self.marks@, self.filters);
        }
        match self.current_real() {
            None => {},
            Some(p) => {
                let m = self.marks[p];
                let nm = Mark {
                    stars: if n != 0 && m.stars == n {
                        0
                    } else {
                        n
                    },
                    ..m
                };
                self.edit_one(p, nm);
                if allow_advance && self.auto_advance && nm.stars != 0 {
                    self.advance_after_rate(p);
                }
            },
        }
    }

    /// Colour-tag key: see [`set_tag_model`].
    pub fn set_tag(&mut self, tag: ColorTag)
        requires
            session_wf(old(self)@),
        ensures
            session_wf(final(self)@),
            final(self)@ == set_tag_model(old(self)@, tag),
    {
        if self.cull_axis_locked(AiCullTarget::Tag) {
            return;
        }
        if self.view == ViewMode::Grid && self.selected.len() > 0 {
            self.edit_selection(MarkOp::SetTag(tag));
            return;
        }
        proof {
            crate::session::lemma_visible(self.marks@, self.filters);
        }
        match self.current_real() {
            None => {},
            Some(p) => {
                let m = self.marks[p];
                let nm = Mark {
                    tag: if m.tag == tag {
                        ColorTag::Untagged
                    } else {
                        tag
                    },
                    ..m
                };
                self.edit_one(p, nm);
            },
        }
    }
}


// ---------------------------------------------------------------- laws

/// Undo after any edit: when the latest record of `t` holds the marks that the photos
/// `targets` had in the state `s` before the edit, and the edit changed no other photo,
/// undo gives back exactly the marks of `s`, and redo then gives back those of `t`.
pub proof fn law_undo_after_any_edit(s: SessionModel, t: SessionModel, targets: Seq<usize>)
    requires
        session_wf(s),
        snapshot(s.marks, targets).len() > 0,
        t.undo.len() > 0,
        t.undo.last() == (EditModel { prev: snapshot(s.marks, targets), index: s.index }),
        agree_outside(s.marks, t.marks, targets),
    ensures
        undo_model(t).marks == s.marks,
        redo_model(undo_model(t)).marks == t.marks,
{
    lemma_restore(s.marks, t.marks, targets);
    let u = undo_model(t);
    assert(u.marks == s.marks);
    let r = reals_of(snapshot(s.marks, targets));
    lemma_reals_of_snapshot(s.marks, targets);
    assert forall|i: int| 0 <= i < t.marks.len() && !r.contains(i as usize) implies #[trigger] t.marks[i]
        == s.marks[i] by {
        if targets.contains(i as usize) {
            assert(r.contains(i as usize));
        }
    }
    lemma_restore(t.marks, s.marks, r);
}

proof fn lemma_pushed_last(s: SessionModel, reals: Seq<usize>)
    requires
        snapshot(s.marks, reals).len() > 0,
    ensures
        push_undo_model(s, reals).undo.len() > 0,
        push_undo_model(s, reals).undo.last() == (EditModel {
            prev: snapshot(s.marks, reals),
            index: s.index,
        }),
{
}

proof fn lemma_snapshot_nonempty(marks: Seq<Mark>, reals: Seq<usize>, k: int)
    requires
        0 <= k < reals.len(),
        reals[k] < marks.len(),
    ensures
        snapshot(marks, reals).len() > 0,
{
    lemma_reals_of_snapshot(marks, reals);
    assert(reals.contains(reals[k]));
    assert(reals_of(snapshot(marks, reals)).contains(reals[k]));
}

/// The photo an edit outside a grid selection applies to exists.
proof fn lemma_current_exists(s: SessionModel)
    requires
        session_wf(s),
        current_of(s) is Some,
    ensures
        current_of(s)->0 < s.marks.len(),
{
    crate::session::lemma_visible(s.marks, s.filters);
}

/// Whether an edit of the axis `a` changes anything: the axis is free and there is a
/// selection in the grid or a photo on screen.
pub open spec fn edit_applies(s: SessionModel, a: AiCullTarget) -> bool {
    !axis_locked(s, a) && (grid_batch(s) || current_of(s) is Some)
}

proof fn lemma_batch_round_trip(s: SessionModel, op: MarkOp)
    requires
        session_wf(s),
        grid_batch(s),
    ensures
        undo_model(batch_edit(s, op)).marks == s.marks,
        redo_model(undo_model(batch_edit(s, op))).marks == batch_edit(s, op).marks,
{
    lemma_snapshot_nonempty(s.marks, s.selected, 0);
    lemma_pushed_last(s, s.selected);
    law_undo_after_any_edit(s, batch_edit(s, op), s.selected);
}

proof fn lemma_single_round_trip(s: SessionModel, p: usize, m: Mark, t: SessionModel)
    requires
        session_wf(s),
        p < s.marks.len(),
        t.marks == single_edit(s, p, m).marks,
        t.undo == single_edit(s, p, m).undo,
    ensures
        undo_model(t).marks == s.marks,
        redo_model(undo_model(t)).marks == t.marks,
{
    lemma_snapshot_nonempty(s.marks, seq![p], 0);
    lemma_pushed_last(s, seq![p]);
    assert forall|i: int| 0 <= i < s.marks.len() && !seq![p].contains(i as usize) implies #[trigger] s.marks[i]
        == t.marks[i] by {
        if i == p as int {
            assert(seq![p][0] == p);
        }
    }
    law_undo_after_any_edit(s, t, seq![p]);
}

/// Undoing a label edit gives every photo back the mark it had, and redoing it gives back
/// the marks the edit made.
pub proof fn law_undo_label_edit(s: SessionModel, l: Label)
    requires
        session_wf(s),
        edit_applies(s, AiCullTarget::Label),
    ensures
        undo_model(set_label_model(s, l)).marks == s.marks,
        redo_model(undo_model(set_label_model(s, l))).marks == set_label_model(s, l).marks,
{
    if grid_batch(s) {
        lemma_batch_round_trip(s, MarkOp::SetLabel(l));
    } else {
        lemma_current_exists(s);
        let p = current_of(s)->0;
        let m = label_toggled(s.marks[p as int], l);
        lemma_single_round_trip(s, p, m, set_label_model(s, l));
    }
}

/// Undoing a star edit gives every photo back the mark it had, and redoing it gives back
/// the marks the edit made.
pub proof fn law_undo_stars_edit(s: SessionModel, n: u8, allow_advance: bool)
    requires
        session_wf(s),
        edit_applies(s, AiCullTarget::Stars),
    ensures
        undo_model(set_stars_model(s, n, allow_advance)).marks == s.marks,
        redo_model(undo_model(set_stars_model(s, n, allow_advance))).marks == set_stars_model(
            s,
            n,
            allow_advance,
        ).marks,
{
    if grid_batch(s) {
        lemma_batch_round_trip(s, MarkOp::SetStars(star_cap(n)));
    } else {
        lemma_current_exists(s);
        let p = current_of(s)->0;
        let m = stars_toggled(s.marks[p as int], n);
        lemma_single_round_trip(s, p, m, set_stars_model(s, n, allow_advance));
    }
}

/// Undoing a colour-tag edit gives every photo back the mark it had, and redoing it gives
/// back the marks the edit made.
pub proof fn law_undo_tag_edit(s: SessionModel, t: ColorTag)
    requires
        session_wf(s),
        edit_applies(s, AiCullTarget::Tag),
    ensures
        undo_model(set_tag_model(s, t)).marks == s.marks,
        redo_model(undo_model(set_tag_model(s, t))).marks == set_tag_model(s, t).marks,
{
    if grid_batch(s) {
        lemma_batch_round_trip(s, MarkOp::SetTag(t));
    } else {
        lemma_current_exists(s);
        let p = current_of(s)->0;
        let m = tag_toggled(s.marks[p as int], t);
        lemma_single_round_trip(s, p, m, set_tag_model(s, t));
    }
}

/// What writing back `prev` does at one photo `i`: the value of the last record of `i`, or
/// the old mark when `prev` has none.
proof fn lemma_apply_prev_len(m: Seq<Mark>, prev: Seq<(usize, Mark)>)
    ensures
        apply_prev(m, prev).len() == m.len(),
    decreases prev.len(),
{
    if prev.len() > 0 {
        lemma_apply_prev_len(m, prev.drop_last());
    }
}

proof fn lemma_apply_prev_at(m: Seq<Mark>, prev: Seq<(usize, Mark)>, i: int)
    requires
        0 <= i < m.len(),
    ensures
        (forall|k: int| 0 <= k < prev.len() ==> prev[k].0 as int != i) ==> apply_prev(m, prev)[i]
            == m[i],
        forall|k: int|
            0 <= k < prev.len() && prev[k].0 as int == i && (forall|j: int|
                k < j < prev.len() ==> prev[j].0 as int != i) ==> apply_prev(m, prev)[i]
                == #[trigger] prev[k].1,
    decreases prev.len(),
{
    if prev.len() > 0 {
        let p1 = prev.drop_last();
        lemma_apply_prev_at(m, p1, i);
        lemma_apply_prev_len(m, p1);
        assert forall|k: int|
            0 <= k < prev.len() && prev[k].0 as int == i && (forall|j: int|
                k < j < prev.len() ==> prev[j].0 as int != i) implies apply_prev(m, prev)[i]
            == #[trigger] prev[k].1 by {
            if k < prev.len() - 1 {
                assert(prev[prev.len() - 1].0 as int != i);
                assert(p1[k] == prev[k]);
                assert forall|j: int| k < j < p1.len() implies p1[j].0 as int != i by {
                    assert(p1[j] == prev[j]);
                }
            }
        }
        if forall|k: int| 0 <= k < prev.len() ==> prev[k].0 as int != i {
            assert forall|k: int| 0 <= k < p1.len() implies p1[k].0 as int != i by {
                assert(p1[k] == prev[k]);
            }
            assert(prev[prev.len() - 1].0 as int != i);
        }
    }
}

/// Undo writes back the record of the latest edit: every photo of the record gets the mark
/// recorded for it (the last record of a photo counting), every photo without a record keeps
/// its mark,
/// the edit leaves the undo history, the redo history gains one record holding the marks
/// those photos had just before the undo (and the position then), and the marks are due to
/// be saved.
pub proof fn law_undo_writes_back_the_record(s: SessionModel)
    requires
        s.undo.len() > 0,
    ensures
        ({
            let e = s.undo.last();
            let u = undo_model(s);
            &&& u.marks == apply_prev(s.marks, e.prev)
            &&& u.marks.len() == s.marks.len()
            &&& forall|k: int|
                0 <= k < e.prev.len() && e.prev[k].0 < s.marks.len() && (forall|j: int|
                    k < j < e.prev.len() ==> e.prev[j].0 != e.prev[k].0) ==> u.marks[e.prev[k].0 as int]
                    == #[trigger] e.prev[k].1
            &&& forall|i: int|
                0 <= i < s.marks.len() && (forall|k: int| 0 <= k < e.prev.len() ==> e.prev[k].0 as int != i)
                    ==> #[trigger] u.marks[i]
                    == s.marks[i]
            &&& u.undo == s.undo.drop_last()
            &&& u.redo == s.redo.push(
                EditModel { prev: snapshot(s.marks, reals_of(e.prev)), index: s.index },
            )
            &&& u.dirty
        }),
{
    let e = s.undo.last();
    let u = undo_model(s);
    lemma_apply_prev_len(s.marks, e.prev);
    assert forall|k: int|
        0 <= k < e.prev.len() && e.prev[k].0 < s.marks.len() && (forall|j: int|
            k < j < e.prev.len() ==> e.prev[j].0 != e.prev[k].0) implies u.marks[e.prev[k].0 as int]
        == #[trigger] e.prev[k].1 by {
        lemma_apply_prev_at(s.marks, e.prev, e.prev[k].0 as int);
    }
    assert forall|i: int|
        0 <= i < s.marks.len() && (forall|k: int| 0 <= k < e.prev.len() ==> e.prev[k].0 as int != i)
        implies #[trigger] u.marks[i] == s.marks[i] by {
        lemma_apply_prev_at(s.marks, e.prev, i);
    }
}

/// A colour key on the photo on screen (outside a grid selection, axis not locked): the
/// key of the colour it already has clears its tag, any other colour key gives it that
/// colour; its label and stars stay as they were.
pub proof fn law_colour_key_toggles_the_tag(s: SessionModel, t: ColorTag)
    requires
        session_wf(s),
        !grid_batch(s),
        !axis_locked(s, AiCullTarget::Tag),
        current_of(s) is Some,
    ensures
        ({
            let p = current_of(s)->0;
            let m = s.marks[p as int];
            let n = set_tag_model(s, t).marks[p as int];
            &&& m.tag == t ==> n.tag == ColorTag::Untagged
            &&& m.tag != t ==> n.tag == t
            &&& n.label == m.label
            &&& n.stars == m.stars
        }),
{
    lemma_current_exists(s);
}

/// Pressing the same colour key twice on an untagged photo, or on one of that colour,
/// gives back the mark it had.
pub proof fn law_colour_key_twice_restores(m: Mark, t: ColorTag)
    requires
        t != ColorTag::Untagged,
        m.tag == t || m.tag == ColorTag::Untagged,
    ensures
        tag_toggled(tag_toggled(m, t), t) == m,
{
}

/// An edit of an axis that a running AI culling job owns changes nothing.
pub proof fn law_locked_axis_is_untouched(s: SessionModel, l: Label, n: u8, allow: bool, t: ColorTag)
    ensures
        axis_locked(s, AiCullTarget::Label) ==> set_label_model(s, l) == s,
        axis_locked(s, AiCullTarget::Stars) ==> set_stars_model(s, n, allow) == s,
        axis_locked(s, AiCullTarget::Tag) ==> set_tag_model(s, t) == s,
{
}

} // verus!
