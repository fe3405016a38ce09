//! The culling session: the photos of the open folder with their marks, the filtered
//! view over them, the current position, grid selection and undo/redo of edits.

use crate::marks::{
    filter_accepts, passes, star_filter_accepts, tag_filter_accepts, tag_slot, ColorTag, Filter,
    Filters, Label, Mark, StarFilter, TagFilter,
};
use crate::i18n::{tr, tr_spec, Lang};
use vstd::prelude::*;

verus! {

/// Longest undo history kept.
pub const UNDO_LIMIT: usize = 300;

/// Single photo or grid.
#[derive(Clone, Copy, Debug, PartialEq, Eq, Structural)]
pub enum ViewMode {
    Single,
    Grid,
}

/// What moving to another photo does to the original-resolution view (ORIG).
#[derive(Clone, Copy, Debug, PartialEq, Eq, Structural)]
pub enum ViewCarry {
    /// Keep ORIG only while zoomed in; a fitted view falls back to the fast preview.
    ZoomOnly,
    /// Keep whatever was shown.
    Keep,
}

/// The marking axis an AI culling run writes its results to.
#[derive(Clone, Copy, Debug, PartialEq, Eq, Structural)]
pub enum AiCullTarget {
    Label,
    Stars,
    Tag,
}

/// One undoable culling edit: the marks of the edited photos before the edit, and the
/// view position at that time.
pub struct CullEdit {
    pub prev: Vec<(usize, Mark)>,
    pub index: usize,
}

/// Mathematical form of a [`CullEdit`].
pub struct EditModel {
    pub prev: Seq<(usize, Mark)>,
    pub index: usize,
}

impl View for CullEdit {
    type V = EditModel;

    open spec fn view(&self) -> EditModel {
        EditModel { prev: self.prev@, index: self.index }
    }
}

/// The state of a culling session.
pub struct CullSession {
    /// Marks of the photos, in folder order (the "real" index).
    pub marks: Vec<Mark>,
    /// Display path of each photo.
    pub paths: Vec<String>,
    /// Position in the filtered list.
    pub index: usize,
    pub view: ViewMode,
    pub filters: Filters,
    /// Grid multi-selection (real indices, no repeats).
    pub selected: Vec<usize>,
    /// Anchor of a shift-click range (filtered position).
    pub sel_anchor: Option<usize>,
    pub grid_cols: usize,
    /// Grid row to scroll into view on the next frame.
    pub grid_scroll_to: Option<usize>,
    pub undo_stack: Vec<CullEdit>,
    pub redo_stack: Vec<CullEdit>,
    /// Move on after rating (setting).
    pub auto_advance: bool,
    pub view_carry: ViewCarry,
    /// Showing the original resolution (ORIG).
    pub full_raw: bool,
    /// Photo fitted to the window (not zoomed).
    pub fit: bool,
    /// Marks changed since the sidecar was last saved.
    pub sidecar_dirty: bool,
    /// Axis locked by a running AI culling job.
    pub cull_lock: Option<AiCullTarget>,
}

/// Mathematical form of a [`CullSession`].
pub struct SessionModel {
    pub marks: Seq<Mark>,
    pub paths: Seq<Seq<char>>,
    pub index: usize,
    pub view: ViewMode,
    pub filters: Filters,
    pub selected: Seq<usize>,
    pub sel_anchor: Option<usize>,
    pub grid_cols: usize,
    pub grid_scroll_to: Option<usize>,
    pub undo: Seq<EditModel>,
    pub redo: Seq<EditModel>,
    pub auto_advance: bool,
    pub view_carry: ViewCarry,
    pub full_raw: bool,
    pub fit: bool,
    pub dirty: bool,
    pub cull_lock: Option<AiCullTarget>,
}

pub open spec fn edits_view(s: Seq<CullEdit>) -> Seq<EditModel> {
    s.map_values(|e: CullEdit| e@)
}

pub open spec fn strings_view(s: Seq<String>) -> Seq<Seq<char>> {
    s.map_values(|x: String| x@)
}

impl View for CullSession {
    type V = SessionModel;

    open spec fn view(&self) -> SessionModel {
        SessionModel {
            marks: self.marks@,
            paths: strings_view(self.paths@),
            index: self.index,
            view: self.view,
            filters: self.filters,
            selected: self.selected@,
            sel_anchor: self.sel_anchor,
            grid_cols: self.grid_cols,
            grid_scroll_to: self.grid_scroll_to,
            undo: edits_view(self.undo_stack@),
            redo: edits_view(self.redo_stack@),
            auto_advance: self.auto_advance,
            view_carry: self.view_carry,
            full_raw: self.full_raw,
            fit: self.fit,
            dirty: self.sidecar_dirty,
            cull_lock: self.cull_lock,
        }
    }
}

/// Well-formed session: one path per photo, a selection of existing photos without
/// repeats, a bounded history, and (as for any vector of non-empty elements) at most
/// `isize::MAX` photos.
pub open spec fn session_wf(m: SessionModel) -> bool {
    &&& m.marks.len() == m.paths.len()
    &&& m.marks.len() <= isize::MAX
    &&& m.selected.no_duplicates()
    &&& forall|k: int| 0 <= k < m.selected.len() ==> #[trigger] m.selected[k] < m.marks.len()
    &&& m.undo.len() + m.redo.len() <= UNDO_LIMIT
}

// ---------------------------------------------------------------- the filtered view

/// Real indices below `n` whose marks pass `f`, in increasing order.
pub open spec fn visible_upto(marks: Seq<Mark>, f: Filters, n: nat) -> Seq<usize>
    decreases n,
{
    if n == 0 {
        Seq::empty()
    } else {
        let p = visible_upto(marks, f, (n - 1) as nat);
        if passes(f, marks[n - 1]) {
            p.push((n - 1) as usize)
        } else {
            p
        }
    }
}

/// The filtered list: real indices of the photos that pass all filters, in folder order.
pub open spec fn visible(marks: Seq<Mark>, f: Filters) -> Seq<usize> {
    visible_upto(marks, f, marks.len())
}

pub open spec fn clamp_index(i: usize, len: nat) -> int {
    if i < len {
        i as int
    } else {
        len - 1
    }
}

/// The photo shown: the filtered entry at `index`, clamped to the end of the list.
pub open spec fn current_of(m: SessionModel) -> Option<usize> {
    let v = visible(m.marks, m.filters);
    if v.len() == 0 {
        None
    } else {
        Some(v[clamp_index(m.index, v.len())])
    }
}

pub proof fn lemma_visible_upto(marks: Seq<Mark>, f: Filters, n: nat)
    requires
        n <= marks.len(),
        marks.len() <= usize::MAX + 1,
    ensures
        visible_upto(marks, f, n).len() <= n,
        forall|k: int|
            0 <= k < visible_upto(marks, f, n).len() ==> #[trigger] visible_upto(marks, f, n)[k] < n
                && passes(f, marks[visible_upto(marks, f, n)[k] as int]),
        forall|a: int, b: int|
            0 <= a < b < visible_upto(marks, f, n).len() ==> #[trigger] visible_upto(marks, f, n)[a]
                < #[trigger] visible_upto(marks, f, n)[b],
        forall|r: int|
            0 <= r < n && passes(f, #[trigger] marks[r]) ==> visible_upto(marks, f, n).contains(
                r as usize,
            ),
    decreases n,
{
    if n > 0 {
        let n1 = (n - 1) as nat;
        lemma_visible_upto(marks, f, n1);
        let p = visible_upto(marks, f, n1);
        if passes(f, marks[n - 1]) {
            let q = p.push((n - 1) as usize);
            assert forall|r: int| 0 <= r < n && passes(f, #[trigger] marks[r]) implies q.contains(
                r as usize,
            ) by {
                if r < n - 1 {
                    assert(p.contains(r as usize));
                    let k = choose|k: int| 0 <= k < p.len() && p[k] == r as usize;
                    assert(q[k] == r as usize);
                } else {
                    assert(q[q.len() - 1] == r as usize);
                }
            }
        }
    }
}

pub proof fn lemma_visible(marks: Seq<Mark>, f: Filters)
    requires
        marks.len() <= usize::MAX + 1,
    ensures
        visible(marks, f).len() <= marks.len(),
        forall|k: int|
            0 <= k < visible(marks, f).len() ==> #[trigger] visible(marks, f)[k] < marks.len()
                && passes(f, marks[visible(marks, f)[k] as int]),
        forall|a: int, b: int|
            0 <= a < b < visible(marks, f).len() ==> #[trigger] visible(marks, f)[a]
                < #[trigger] visible(marks, f)[b],
        forall|r: int|
            0 <= r < marks.len() && passes(f, #[trigger] marks[r]) ==> visible(marks, f).contains(
                r as usize,
            ),
{
    lemma_visible_upto(marks, f, marks.len());
}

/// A colour filter shows exactly the photos of that colour: every photo of the filtered
/// list carries it (an untagged photo never passes a colour filter), and every photo of
/// that colour that the label and star filters let through is listed.
pub proof fn law_colour_filter_shows_that_colour(marks: Seq<Mark>, f: Filters, c: ColorTag)
    requires
        marks.len() <= usize::MAX + 1,
        f.tag == TagFilter::Only(c),
    ensures
        forall|k: int|
            0 <= k < visible(marks, f).len() ==> marks[#[trigger] visible(marks, f)[k] as int].tag == c,
        forall|r: int|
            0 <= r < marks.len() && (#[trigger] marks[r]).tag == c && filter_accepts(f.label, marks[r].label)
                && star_filter_accepts(f.stars, marks[r].stars) ==> visible(marks, f).contains(r as usize),
{
    lemma_visible(marks, f);
}

impl CullSession {
    /// Real indices of the photos that pass the filters, in folder order.
    pub fn filtered(&self) -> (r: Vec<usize>)
        ensures
            r@ == visible(self.marks@, self.filters),
    {
        let mut v: Vec<usize> = Vec::new();
        let mut i: usize = 0;
        while i < self.marks.len()
            invariant
                i <= self.marks.len(),
                v@ == visible_upto(self.marks@, self.filters, i as nat),
            decreases self.marks.len() - i,
        {
            if self.filters.passes(self.marks[i]) {
                v.push(i);
            }
            i = i + 1;
        }
        v
    }

    /// Real index of the photo shown, if any photo passes the filters.
    pub fn current_real(&self) -> (r: Option<usize>)
        ensures
            r == current_of(self@),
    {
        let f = self.filtered();
        if f.len() == 0 {
            None
        } else {
            let k = if self.index < f.len() {
                self.index
            } else {
                f.len() - 1
            };
            Some(f[k])
        }
    }
}


// ---------------------------------------------------------------- counters

/// Number of marks in `s` that satisfy `p`.
pub open spec fn count_where(s: Seq<Mark>, p: spec_fn(Mark) -> bool) -> nat
    decreases s.len(),
{
    if s.len() == 0 {
        0
    } else {
        count_where(s.drop_last(), p) + if p(s.last()) {
            1nat
        } else {
            0nat
        }
    }
}

pub open spec fn has_label(l: Label) -> spec_fn(Mark) -> bool {
    |m: Mark| m.label == l
}

/// Star slot of a rating: 0..5, ratings above 5 counting as 5.
pub open spec fn star_slot(stars: u8) -> int {
    if stars > 5 {
        5
    } else {
        stars as int
    }
}

pub open spec fn has_star_slot(k: int) -> spec_fn(Mark) -> bool {
    |m: Mark| star_slot(m.stars) == k
}

pub open spec fn has_tag_slot(k: usize) -> spec_fn(Mark) -> bool {
    |m: Mark| tag_slot(m.tag) == Some(k)
}

proof fn lemma_count_step(s: Seq<Mark>, p: spec_fn(Mark) -> bool, i: int)
    requires
        0 <= i < s.len(),
    ensures
        count_where(s.take(i + 1), p) == count_where(s.take(i), p) + if p(s[i]) {
            1nat
        } else {
            0nat
        },
{
    assert(s.take(i + 1).drop_last() == s.take(i));
}

proof fn lemma_count_le(s: Seq<Mark>, p: spec_fn(Mark) -> bool)
    ensures
        count_where(s, p) <= s.len(),
    decreases s.len(),
{
    if s.len() > 0 {
        lemma_count_le(s.drop_last(), p);
    }
}

/// Photos per label: (pick, hold, reject, unrated).
pub fn label_counts(marks: &Vec<Mark>) -> (r: (usize, usize, usize, usize))
    ensures
        r.0 == count_where(marks@, has_label(Label::Pick)),
        r.1 == count_where(marks@, has_label(Label::Hold)),
        r.2 == count_where(marks@, has_label(Label::Reject)),
        r.3 == count_where(marks@, has_label(Label::Unrated)),
{
    let mut c: (usize, usize, usize, usize) = (0, 0, 0, 0);
    let mut i: usize = 0;
    while i < marks.len()
        invariant
            i <= marks.len(),
            c.0 == count_where(marks@.take(i as int), has_label(Label::Pick)),
            c.1 == count_where(marks@.take(i as int), has_label(Label::Hold)),
            c.2 == count_where(marks@.take(i as int), has_label(Label::Reject)),
            c.3 == count_where(marks@.take(i as int), has_label(Label::Unrated)),
        decreases marks.len() - i,
    {
        proof {
            lemma_count_step(marks@, has_label(Label::Pick), i as int);
            lemma_count_step(marks@, has_label(Label::Hold), i as int);
            lemma_count_step(marks@, has_label(Label::Reject), i as int);
            lemma_count_step(marks@, has_label(Label::Unrated), i as int);
            lemma_count_le(marks@.take(i as int), has_label(Label::Pick));
            lemma_count_le(marks@.take(i as int), has_label(Label::Hold));
            lemma_count_le(marks@.take(i as int), has_label(Label::Reject));
            lemma_count_le(marks@.take(i as int), has_label(Label::Unrated));
        }
        match marks[i].label {
            Label::Pick => c.0 = c.0 + 1,
            Label::Hold => c.1 = c.1 + 1,
            Label::Reject => c.2 = c.2 + 1,
            Label::Unrated => c.3 = c.3 + 1,
        }
        i = i + 1;
    }
    assert(marks@.take(marks.len() as int) == marks@);
    c
}

/// Photos per star rating: `[none, 1★, 2★, 3★, 4★, 5★]`.
pub fn stars_of(marks: &Vec<Mark>) -> (r: [usize; 6])
    ensures
        forall|k: int| 0 <= k < 6 ==> #[trigger] r@[k] == count_where(marks@, has_star_slot(k)),
{
    let mut c = [0usize; 6];
    let mut i: usize = 0;
    while i < marks.len()
        invariant
            i <= marks.len(),
            forall|k: int| 0 <= k < 6 ==> #[trigger] c@[k] == count_where(marks@.take(i as int), has_star_slot(k)),
        decreases marks.len() - i,
    {
        let s = marks[i].stars;
        let slot: usize = if s > 5 {
            5
        } else {
            s as usize
        };
        proof {
            assert forall|k: int| 0 <= k < 6 implies #[trigger] count_where(marks@.take(i + 1), has_star_slot(k))
                == count_where(marks@.take(i as int), has_star_slot(k)) + if k == slot {
                1nat
            } else {
                0nat
            } by {
                lemma_count_step(marks@, has_star_slot(k), i as int);
            }
            lemma_count_le(marks@.take(i as int), has_star_slot(slot as int));
        }
        c[slot] = c[slot] + 1;
        i = i + 1;
    }
    assert(marks@.take(marks.len() as int) == marks@);
    c
}

/// Photos per colour tag: `[orange, pink, teal, blue, purple]` (untagged photos are
/// not counted).
pub fn tags_of(marks: &Vec<Mark>) -> (r: [usize; 5])
    ensures
        forall|k: int| 0 <= k < 5 ==> #[trigger] r@[k] == count_where(marks@, has_tag_slot(k as usize)),
{
    let mut c = [0usize; 5];
    let mut i: usize = 0;
    while i < marks.len()
        invariant
            i <= marks.len(),
            forall|k: int| 0 <= k < 5 ==> #[trigger] c@[k] == count_where(marks@.take(i as int), has_tag_slot(k as usize)),
        decreases marks.len() - i,
    {
        let t = marks[i].tag;
        proof {
            assert forall|k: int| 0 <= k < 5 implies #[trigger] count_where(marks@.take(i + 1), has_tag_slot(k as usize))
                == count_where(marks@.take(i as int), has_tag_slot(k as usize)) + if tag_slot(t) == Some(k as usize) {
                1nat
            } else {
                0nat
            } by {
                lemma_count_step(marks@, has_tag_slot(k as usize), i as int);
            }
        }
        match t.index() {
            Some(k) => {
                proof {
                    lemma_count_le(marks@.take(i as int), has_tag_slot(k));
                }
                c[k] = c[k] + 1;
            },
            None => {},
        }
        i = i + 1;
    }
    assert(marks@.take(marks.len() as int) == marks@);
    c
}


impl CullSession {
    /// Photos per label over the whole folder: (pick, hold, reject, unrated).
    pub fn counts(&self) -> (r: (usize, usize, usize, usize))
        ensures
            r.0 == count_where(self.marks@, has_label(Label::Pick)),
            r.1 == count_where(self.marks@, has_label(Label::Hold)),
            r.2 == count_where(self.marks@, has_label(Label::Reject)),
            r.3 == count_where(self.marks@, has_label(Label::Unrated)),
    {
        label_counts(&self.marks)
    }

    /// Photos per star rating over the whole folder: `[none, 1★, 2★, 3★, 4★, 5★]`.
    pub fn star_counts(&self) -> (r: [usize; 6])
        ensures
            forall|k: int| 0 <= k < 6 ==> #[trigger] r@[k] == count_where(self.marks@, has_star_slot(k)),
    {
        stars_of(&self.marks)
    }

    /// Photos per colour tag over the whole folder: `[orange, pink, teal, blue, purple]`
    /// (untagged photos are not counted).
    pub fn tag_counts(&self) -> (r: [usize; 5])
        ensures
            forall|k: int| 0 <= k < 5 ==> #[trigger] r@[k] == count_where(self.marks@, has_tag_slot(k as usize)),
    {
        tags_of(&self.marks)
    }

    /// Whether any of the three filters is not at its default.
    pub fn any_filter_active(&self) -> (r: bool)
        ensures
            r == (self.filters.label != Filter::All || self.filters.stars != StarFilter::Any
                || self.filters.tag != TagFilter::Any),
    {
        self.filters.label != Filter::All || self.filters.stars != StarFilter::Any
            || self.filters.tag != TagFilter::Any
    }

    /// Clears all three filters and goes back to the first photo.
    pub fn reset_filters(&mut self)
        ensures
            final(self)@ == (SessionModel {
                filters: Filters { label: Filter::All, stars: StarFilter::Any, tag: TagFilter::Any },
                index: 0,
                ..old(self)@
            }),
    {
        self.filters = Filters::none();
        self.index = 0;
    }
}

/// Why the photo area is empty.
#[derive(Clone, Copy, Debug, PartialEq, Eq, Structural)]
pub enum EmptyReason {
    /// The folder holds no photo.
    EmptyFolder,
    /// Photos exist but the filters leave none (offers "Reset Filters").
    NoMatch,
    /// Neither; kept as a fallback.
    Nothing,
}

impl EmptyReason {
    /// The sentence shown for the reason, in Korean (the key of the translation table).
    pub open spec fn key(self) -> Seq<char> {
        match self {
            EmptyReason::EmptyFolder => "이 폴더에 표시할 사진이 없습니다"@,
            EmptyReason::NoMatch => "필터와 일치하는 사진이 없습니다"@,
            EmptyReason::Nothing => "표시할 항목이 없습니다"@,
        }
    }

    /// The sentence shown for the reason, in `lang`.
    pub fn message(self, lang: Lang) -> (r: &'static str)
        ensures
            r@ == tr_spec(lang, self.key()),
    {
        match self {
            EmptyReason::EmptyFolder => tr(lang, "이 폴더에 표시할 사진이 없습니다"),
            EmptyReason::NoMatch => tr(lang, "필터와 일치하는 사진이 없습니다"),
            EmptyReason::Nothing => tr(lang, "표시할 항목이 없습니다"),
        }
    }
}

impl CullSession {
    /// Why nothing is shown: an empty folder comes first, then active filters.
    pub fn empty_reason(&self) -> (r: EmptyReason)
        ensures
            r == (if self.marks@.len() == 0 {
                EmptyReason::EmptyFolder
            } else if self.filters.label != Filter::All || self.filters.stars != StarFilter::Any
                || self.filters.tag != TagFilter::Any {
                EmptyReason::NoMatch
            } else {
                EmptyReason::Nothing
            }),
    {
        if self.marks.len() == 0 {
            EmptyReason::EmptyFolder
        } else if self.any_filter_active() {
            EmptyReason::NoMatch
        } else {
            EmptyReason::Nothing
        }
    }
}

/// Every photo has exactly one label, so the four label counters add up to the folder size.
pub proof fn law_label_counts_cover_folder(marks: Seq<Mark>)
    ensures
        count_where(marks, has_label(Label::Pick)) + count_where(marks, has_label(Label::Hold))
            + count_where(marks, has_label(Label::Reject)) + count_where(
            marks,
            has_label(Label::Unrated),
        ) == marks.len(),
    decreases marks.len(),
{
    if marks.len() > 0 {
        law_label_counts_cover_folder(marks.drop_last());
    }
}

/// The six star counters add up to the folder size.
pub proof fn law_star_counts_cover_folder(marks: Seq<Mark>)
    ensures
        count_where(marks, has_star_slot(0)) + count_where(marks, has_star_slot(1))
            + count_where(marks, has_star_slot(2)) + count_where(marks, has_star_slot(3))
            + count_where(marks, has_star_slot(4)) + count_where(marks, has_star_slot(5))
            == marks.len(),
    decreases marks.len(),
{
    if marks.len() > 0 {
        law_star_counts_cover_folder(marks.drop_last());
    }
}

pub open spec fn has_no_tag() -> spec_fn(Mark) -> bool {
    |m: Mark| tag_slot(m.tag) is None
}

/// Every photo has one colour tag or none, so the five tag counters and the untagged
/// photos add up to the folder size.
pub proof fn law_tag_counts_cover_folder(marks: Seq<Mark>)
    ensures
        count_where(marks, has_tag_slot(0)) + count_where(marks, has_tag_slot(1)) + count_where(
            marks,
            has_tag_slot(2),
        ) + count_where(marks, has_tag_slot(3)) + count_where(marks, has_tag_slot(4)) + count_where(
            marks,
            has_no_tag(),
        ) == marks.len(),
    decreases marks.len(),
{
    if marks.len() > 0 {
        law_tag_counts_cover_folder(marks.drop_last());
    }
}

/// With no filter set, the view lists every photo of the folder in folder order.
pub proof fn law_no_filter_shows_every_photo(marks: Seq<Mark>)
    requires
        marks.len() <= usize::MAX,
    ensures
        visible(marks, Filters { label: Filter::All, stars: StarFilter::Any, tag: TagFilter::Any })
            == Seq::new(marks.len(), |i: int| i as usize),
{
    let f = Filters { label: Filter::All, stars: StarFilter::Any, tag: TagFilter::Any };
    lemma_all_visible_upto(marks, f, marks.len());
}

/// An empty photo area always has a stated reason: the folder is empty or a filter is
/// active; with photos and no filter, something is shown.
pub proof fn law_empty_view_is_explained(marks: Seq<Mark>, f: Filters)
    requires
        marks.len() <= usize::MAX,
        visible(marks, f).len() == 0,
    ensures
        marks.len() == 0 || f.label != Filter::All || f.stars != StarFilter::Any || f.tag
            != TagFilter::Any,
{
    if marks.len() > 0 && f == (Filters { label: Filter::All, stars: StarFilter::Any, tag: TagFilter::Any }) {
        law_no_filter_shows_every_photo(marks);
    }
}

proof fn lemma_all_visible_upto(marks: Seq<Mark>, f: Filters, n: nat)
    requires
        n <= marks.len(),
        marks.len() <= usize::MAX,
        f == (Filters { label: Filter::All, stars: StarFilter::Any, tag: TagFilter::Any }),
    ensures
        visible_upto(marks, f, n) == Seq::new(n, |i: int| i as usize),
    decreases n,
{
    if n > 0 {
        lemma_all_visible_upto(marks, f, (n - 1) as nat);
        assert(passes(f, marks[n - 1]));
        assert(visible_upto(marks, f, n) =~= Seq::new(n, |i: int| i as usize));
    }
}

} // verus!
