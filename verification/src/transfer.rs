//! The option sets of the transfer dialog (copy or move the selected photos) and of the
//! organize dialog (sort a folder into subfolders), and what they remember between uses.

use crate::marks::{ColorTag, Label};
use crate::marks::Mark;
use crate::session::{
    count_where, has_label, has_star_slot, has_tag_slot, label_counts, session_wf, stars_of, tags_of,
    visible, CullSession, SessionModel,
};
use crate::text::{chars_of, push_str, string_from_chars, trim, trim_range};
use vstd::prelude::*;

verus! {

/// Copy or move.
#[derive(Clone, Copy, Debug, PartialEq, Eq, Structural)]
pub enum Action {
    Copy,
    Move,
}

/// Which files of a RAW + image pair go along.
#[derive(Clone, Copy, Debug, PartialEq, Eq, Structural)]
pub enum Companions {
    RawOnly,
    ImageOnly,
    Both,
}

/// What happens when the destination already has a file of that name.
#[derive(Clone, Copy, Debug, PartialEq, Eq, Structural)]
pub enum ConflictPolicy {
    AutoIncrement,
    Skip,
}

/// How renamed files are numbered.
#[derive(Clone, Copy, Debug, PartialEq, Eq, Structural)]
pub enum Numbering {
    /// In the order of the selection.
    Order,
    /// Separately within each grade.
    GradeGrouped,
}

/// Renaming on transfer: keep the names, a running number, grade and number, or a template.
#[derive(Clone, Copy, Debug, PartialEq, Eq, Structural)]
pub enum RenameMode {
    Off,
    Sequence,
    Grade,
    Custom,
}

/// Subfolders the organize dialog sorts into.
#[derive(Clone, Copy, Debug, PartialEq, Eq, Structural)]
pub enum OrganizeKey {
    Date,
    Camera,
    Lens,
    Extension,
}

/// A rename rule handed to the transfer: a template and a numbering.
pub struct RenameRule {
    pub template: String,
    pub numbering: Numbering,
}

/// The options of the transfer dialog.
pub struct TransferDialogState {
    pub labels: Vec<Label>,
    /// Star ratings (1 to 5) that go along; together with the labels and tags (union).
    pub stars: Vec<u8>,
    pub tags: Vec<ColorTag>,
    pub action: Action,
    pub companions: Companions,
    pub split_by_label: bool,
    pub split_by_tag: bool,
    pub conflict: ConflictPolicy,
    pub dest: String,
    pub rename_mode: RenameMode,
    pub rename_template: String,
    pub rename_numbering: Numbering,
    /// Transfer the whole folder (true) or only the photos through the filters.
    pub scope_all: bool,
    /// The move confirmation is showing (never remembered).
    pub confirm_move: bool,
}

/// The transfer options remembered for next time (the destination is not: it is proposed
/// afresh from the open folder).
pub struct TransferDefaults {
    pub labels: Vec<Label>,
    pub stars: Vec<u8>,
    pub tags: Vec<ColorTag>,
    pub action: Action,
    pub companions: Companions,
    pub split_by_label: bool,
    pub split_by_tag: bool,
    pub conflict: ConflictPolicy,
    pub rename_mode: RenameMode,
    pub rename_template: String,
    pub rename_numbering: Numbering,
    pub scope_all: bool,
}

/// The options of the organize dialog.
pub struct OrganizeDialogState {
    pub key: OrganizeKey,
    pub action: Action,
    /// Root of the subfolders (the open folder by default).
    pub dest: String,
    pub conflict: ConflictPolicy,
    pub confirm_move: bool,
}

/// The organize options remembered for next time.
#[derive(Clone, Copy, Debug, PartialEq, Eq, Structural)]
pub struct OrganizeDefaults {
    pub key: OrganizeKey,
    pub action: Action,
    pub conflict: ConflictPolicy,
}

/// Mathematical form of a [`TransferDialogState`].
pub struct TransferModel {
    pub labels: Seq<Label>,
    pub stars: Seq<u8>,
    pub tags: Seq<ColorTag>,
    pub action: Action,
    pub companions: Companions,
    pub split_by_label: bool,
    pub split_by_tag: bool,
    pub conflict: ConflictPolicy,
    pub dest: Seq<char>,
    pub rename_mode: RenameMode,
    pub rename_template: Seq<char>,
    pub rename_numbering: Numbering,
    pub scope_all: bool,
    pub confirm_move: bool,
}

/// Mathematical form of [`TransferDefaults`].
pub struct DefaultsModel {
    pub labels: Seq<Label>,
    pub stars: Seq<u8>,
    pub tags: Seq<ColorTag>,
    pub action: Action,
    pub companions: Companions,
    pub split_by_label: bool,
    pub split_by_tag: bool,
    pub conflict: ConflictPolicy,
    pub rename_mode: RenameMode,
    pub rename_template: Seq<char>,
    pub rename_numbering: Numbering,
    pub scope_all: bool,
}

/// Mathematical form of an [`OrganizeDialogState`].
pub struct OrganizeModel {
    pub key: OrganizeKey,
    pub action: Action,
    pub dest: Seq<char>,
    pub conflict: ConflictPolicy,
    pub confirm_move: bool,
}

impl View for TransferDialogState {
    type V = TransferModel;

    open spec fn view(&self) -> TransferModel {
        TransferModel {
            labels: self.labels@,
            stars: self.stars@,
            tags: self.tags@,
            action: self.action,
            companions: self.companions,
            split_by_label: self.split_by_label,
            split_by_tag: self.split_by_tag,
            conflict: self.conflict,
            dest: self.dest@,
            rename_mode: self.rename_mode,
            rename_template: self.rename_template@,
            rename_numbering: self.rename_numbering,
            scope_all: self.scope_all,
            confirm_move: self.confirm_move,
        }
    }
}

impl View for TransferDefaults {
    type V = DefaultsModel;

    open spec fn view(&self) -> DefaultsModel {
        DefaultsModel {
            labels: self.labels@,
            stars: self.stars@,
            tags: self.tags@,
            action: self.action,
            companions: self.companions,
            split_by_label: self.split_by_label,
            split_by_tag: self.split_by_tag,
            conflict: self.conflict,
            rename_mode: self.rename_mode,
            rename_template: self.rename_template@,
            rename_numbering: self.rename_numbering,
            scope_all: self.scope_all,
        }
    }
}

impl View for OrganizeDialogState {
    type V = OrganizeModel;

    open spec fn view(&self) -> OrganizeModel {
        OrganizeModel {
            key: self.key,
            action: self.action,
            dest: self.dest@,
            conflict: self.conflict,
            confirm_move: self.confirm_move,
        }
    }
}

/// The dialog opened with the remembered options `d`: no destination yet, no confirmation.
pub open spec fn state_of(d: DefaultsModel) -> TransferModel {
    TransferModel {
        labels: d.labels,
        stars: d.stars,
        tags: d.tags,
        action: d.action,
        companions: d.companions,
        split_by_label: d.split_by_label,
        split_by_tag: d.split_by_tag,
        conflict: d.conflict,
        dest: Seq::empty(),
        rename_mode: d.rename_mode,
        rename_template: d.rename_template,
        rename_numbering: d.rename_numbering,
        scope_all: d.scope_all,
        confirm_move: false,
    }
}

/// The options of dialog state `m` that are remembered.
pub open spec fn defaults_of(m: TransferModel) -> DefaultsModel {
    DefaultsModel {
        labels: m.labels,
        stars: m.stars,
        tags: m.tags,
        action: m.action,
        companions: m.companions,
        split_by_label: m.split_by_label,
        split_by_tag: m.split_by_tag,
        conflict: m.conflict,
        rename_mode: m.rename_mode,
        rename_template: m.rename_template,
        rename_numbering: m.rename_numbering,
        scope_all: m.scope_all,
    }
}

/// The remembered transfer options of a first use: picks only, copied with both files of a
/// pair, no split, numbered copies on a name conflict, names kept, the whole folder.
pub open spec fn first_use_defaults() -> DefaultsModel {
    DefaultsModel {
        labels: seq![Label::Pick],
        stars: Seq::empty(),
        tags: Seq::empty(),
        action: Action::Copy,
        companions: Companions::Both,
        split_by_label: false,
        split_by_tag: false,
        conflict: ConflictPolicy::AutoIncrement,
        rename_mode: RenameMode::Off,
        rename_template: Seq::empty(),
        rename_numbering: Numbering::GradeGrouped,
        scope_all: true,
    }
}

/// The destination proposed for a transfer out of `folder`: a sibling named after it with
/// `_selected` appended.
pub open spec fn proposed_dest(folder: Seq<char>) -> Seq<char> {
    folder + seq!['_', 's', 'e', 'l', 'e', 'c', 't', 'e', 'd']
}

/// A copy of `v`.
fn copy_vec<T: Copy>(v: &Vec<T>) -> (r: Vec<T>)
    ensures
        r@ == v@,
{
    let mut r: Vec<T> = Vec::new();
    let mut i: usize = 0;
    while i < v.len()
        invariant
            i <= v.len(),
            r@ == v@.take(i as int),
        decreases v.len() - i,
    {
        proof {
            assert(v@.take(i + 1) == r@.push(v@[i as int]));
        }
        r.push(v[i]);
        i = i + 1;
    }
    proof {
        assert(v@.take(v.len() as int) == v@);
    }
    r
}

impl TransferDefaults {
    /// The options of a first use.
    pub fn first_use() -> (d: TransferDefaults)
        ensures
            d@ == first_use_defaults(),
    {
        let mut labels: Vec<Label> = Vec::new();
        labels.push(Label::Pick);
        let d = TransferDefaults {
            labels,
            stars: Vec::new(),
            tags: Vec::new(),
            action: Action::Copy,
            companions: Companions::Both,
            split_by_label: false,
            split_by_tag: false,
            conflict: ConflictPolicy::AutoIncrement,
            rename_mode: RenameMode::Off,
            rename_template: String::new(),
            rename_numbering: Numbering::GradeGrouped,
            scope_all: true,
        };
        proof {
            assert(d@.labels =~= seq![Label::Pick]);
        }
        d
    }
}

impl Default for TransferDefaults {
    fn default() -> (d: TransferDefaults)
        ensures
            d@ == first_use_defaults(),
    {
        TransferDefaults::first_use()
    }
}

impl TransferDialogState {
    /// The dialog opened with the remembered options `d` (the caller proposes the
    /// destination).
    pub fn from_defaults(d: &TransferDefaults) -> (r: TransferDialogState)
        ensures
            r@ == state_of(d@),
    {
        TransferDialogState {
            labels: copy_vec(&d.labels),
            stars: copy_vec(&d.stars),
            tags: copy_vec(&d.tags),
            action: d.action,
            companions: d.companions,
            split_by_label: d.split_by_label,
            split_by_tag: d.split_by_tag,
            conflict: d.conflict,
            dest: String::new(),
            rename_mode: d.rename_mode,
            rename_template: d.rename_template.clone(),
            rename_numbering: d.rename_numbering,
            scope_all: d.scope_all,
            confirm_move: false,
        }
    }

    /// The options to remember (all but the destination and the confirmation).
    pub fn to_defaults(&self) -> (r: TransferDefaults)
        ensures
            r@ == defaults_of(self@),
    {
        TransferDefaults {
            labels: copy_vec(&self.labels),
            stars: copy_vec(&self.stars),
            tags: copy_vec(&self.tags),
            action: self.action,
            companions: self.companions,
            split_by_label: self.split_by_label,
            split_by_tag: self.split_by_tag,
            conflict: self.conflict,
            rename_mode: self.rename_mode,
            rename_template: self.rename_template.clone(),
            rename_numbering: self.rename_numbering,
            scope_all: self.scope_all,
        }
    }

    /// The rename rule of the dialog: none when names are kept; `{seq:03}` numbered in
    /// order; `{gradeseq}` numbered within each grade; or the dialog's own template and
    /// numbering.
    pub fn rename_rule(&self) -> (r: Option<RenameRule>)
        ensures
            self.rename_mode == RenameMode::Off <==> r is None,
            self.rename_mode == RenameMode::Sequence ==> (r matches Some(rule) && rule.template@
                == "{seq:03}"@ && rule.numbering == Numbering::Order),
            self.rename_mode == RenameMode::Grade ==> (r matches Some(rule) && rule.template@
                == "{gradeseq}"@ && rule.numbering == Numbering::GradeGrouped),
            self.rename_mode == RenameMode::Custom ==> (r matches Some(rule) && rule.template@
                == self.rename_template@ && rule.numbering == self.rename_numbering),
    {
        match self.rename_mode {
            RenameMode::Off => None,
            RenameMode::Sequence => Some(RenameRule { template: "{seq:03}".to_owned(), numbering: Numbering::Order }),
            RenameMode::Grade => Some(
                RenameRule { template: "{gradeseq}".to_owned(), numbering: Numbering::GradeGrouped },
            ),
            RenameMode::Custom => Some(
                RenameRule {
                    template: self.rename_template.clone(),
                    numbering: self.rename_numbering,
                },
            ),
        }
    }

    /// The dialog as the transfer command opens it: remembered options, and the destination
    /// proposed from the open folder, if any.
    pub fn for_folder(d: &TransferDefaults, folder: Option<&str>) -> (r: TransferDialogState)
        ensures
            r@ == (TransferModel {
                dest: match folder {
                    Some(f) => proposed_dest(f@),
                    None => Seq::empty(),
                },
                ..state_of(d@)
            }),
    {
        let mut st = TransferDialogState::from_defaults(d);
        match folder {
            Some(f) => {
                let mut c: Vec<char> = Vec::new();
                push_str(&mut c, f);
                push_str(&mut c, "_selected");
                proof {
                    reveal_strlit("_selected");
                    assert(c@ =~= proposed_dest(f@));
                }
                st.dest = string_from_chars(&c);
            },
            None => {},
        }
        st
    }
}

impl Default for TransferDialogState {
    fn default() -> (r: TransferDialogState)
        ensures
            r@ == state_of(first_use_defaults()),
    {
        TransferDialogState::from_defaults(&TransferDefaults::first_use())
    }
}

/// The organize dialog opened with the remembered options `d`.
pub open spec fn organize_state_of(d: OrganizeDefaults) -> OrganizeModel {
    OrganizeModel {
        key: d.key,
        action: d.action,
        dest: Seq::empty(),
        conflict: d.conflict,
        confirm_move: false,
    }
}

/// The options of organize dialog state `m` that are remembered.
pub open spec fn organize_defaults_of(m: OrganizeModel) -> OrganizeDefaults {
    OrganizeDefaults { key: m.key, action: m.action, conflict: m.conflict }
}

/// The remembered organize options of a first use: by date, moving, numbered copies on a
/// name conflict (unlike transfers, organizing moves by default).
pub open spec fn organize_first_use() -> OrganizeDefaults {
    OrganizeDefaults { key: OrganizeKey::Date, action: Action::Move, conflict: ConflictPolicy::AutoIncrement }
}

impl Default for OrganizeDefaults {
    fn default() -> (d: OrganizeDefaults)
        ensures
            d == organize_first_use(),
    {
        OrganizeDefaults { key: OrganizeKey::Date, action: Action::Move, conflict: ConflictPolicy::AutoIncrement }
    }
}

impl OrganizeDialogState {
    /// The dialog opened with the remembered options `d` (the caller proposes the root).
    pub fn from_defaults(d: &OrganizeDefaults) -> (r: OrganizeDialogState)
        ensures
            r@ == organize_state_of(*d),
    {
        OrganizeDialogState {
            key: d.key,
            action: d.action,
            dest: String::new(),
            conflict: d.conflict,
            confirm_move: false,
        }
    }

    /// The options to remember (all but the root and the confirmation).
    pub fn to_defaults(&self) -> (r: OrganizeDefaults)
        ensures
            r == organize_defaults_of(self@),
    {
        OrganizeDefaults { key: self.key, action: self.action, conflict: self.conflict }
    }

    /// The dialog as the organize command opens it: remembered options, rooted in the open
    /// folder, if any.
    pub fn for_folder(d: &OrganizeDefaults, folder: Option<&str>) -> (r: OrganizeDialogState)
        ensures
            r@ == (OrganizeModel {
                key: d.key,
                action: d.action,
                dest: match folder {
                    Some(f) => f@,
                    None => Seq::empty(),
                },
                conflict: d.conflict,
                confirm_move: false,
            }),
    {
        let mut st = OrganizeDialogState::from_defaults(d);
        match folder {
            Some(f) => {
                st.dest = f.to_owned();
            },
            None => {},
        }
        st
    }
}

impl Default for OrganizeDialogState {
    fn default() -> (r: OrganizeDialogState)
        ensures
            r@ == (OrganizeModel {
                key: OrganizeKey::Date,
                action: Action::Move,
                dest: Seq::empty(),
                conflict: ConflictPolicy::AutoIncrement,
                confirm_move: false,
            }),
    {
        OrganizeDialogState::from_defaults(&OrganizeDefaults::default())
    }
}

/// Saving the transfer options and opening the dialog with them again gives back every
/// option; only the destination (proposed afresh) and the move confirmation are not kept.
pub proof fn law_transfer_options_round_trip(m: TransferModel)
    ensures
        state_of(defaults_of(m)) == (TransferModel { dest: Seq::empty(), confirm_move: false, ..m }),
{
}

/// Saving the organize options and opening the dialog with them again gives back every
/// option; only the root folder and the move confirmation are not kept.
pub proof fn law_organize_options_round_trip(m: OrganizeModel)
    ensures
        organize_state_of(organize_defaults_of(m)) == (OrganizeModel {
            dest: Seq::empty(),
            confirm_move: false,
            ..m
        }),
{
}

impl CullSession {
    /// Real indices of the photos a transfer covers: the whole folder, or only the photos
    /// through the filters.
    pub fn scoped_transfer_entries(&self, scope_all: bool) -> (r: Vec<usize>)
        ensures
            scope_all ==> r@ == Seq::new(self.marks@.len(), |i: int| i as usize),
            !scope_all ==> r@ == visible(self.marks@, self.filters),
    {
        if scope_all {
            let mut v: Vec<usize> = Vec::new();
            let mut i: usize = 0;
            while i < self.marks.len()
                invariant
                    i <= self.marks.len(),
                    v@ == Seq::new(i as nat, |k: int| k as usize),
                decreases self.marks.len() - i,
            {
                v.push(i);
                i = i + 1;
                proof {
                    assert(v@ =~= Seq::new(i as nat, |k: int| k as usize));
                }
            }
            v
        } else {
            self.filtered()
        }
    }
}


/// The marks of the photos a transfer covers, in folder order.
pub open spec fn scoped_marks(m: SessionModel, scope_all: bool) -> Seq<Mark> {
    if scope_all {
        m.marks
    } else {
        visible(m.marks, m.filters).map_values(|r: usize| m.marks[r as int])
    }
}

impl CullSession {
    /// The counts on the transfer dialog's chips, over the photos it covers: per label
    /// (pick, hold, reject, unrated), per star rating and per colour tag.
    pub fn scope_counts(&self, scope_all: bool) -> (r: ((usize, usize, usize, usize), [usize; 6], [usize; 5]))
        requires
            session_wf(self@),
        ensures
            ({
                let ms = scoped_marks(self@, scope_all);
                &&& r.0.0 == count_where(ms, has_label(Label::Pick))
                &&& r.0.1 == count_where(ms, has_label(Label::Hold))
                &&& r.0.2 == count_where(ms, has_label(Label::Reject))
                &&& r.0.3 == count_where(ms, has_label(Label::Unrated))
                &&& forall|k: int| 0 <= k < 6 ==> #[trigger] r.1@[k] == count_where(ms, has_star_slot(k))
                &&& forall|k: int| 0 <= k < 5 ==> #[trigger] r.2@[k] == count_where(ms, has_tag_slot(k as usize))
            }),
    {
        let idx = self.scoped_transfer_entries(scope_all);
        proof {
            crate::session::lemma_visible(self.marks@, self.filters);
        }
        let mut ms: Vec<Mark> = Vec::new();
        let mut i: usize = 0;
        while i < idx.len()
            invariant
                i <= idx.len(),
                forall|k: int| 0 <= k < idx@.len() ==> #[trigger] idx@[k] < self.marks@.len(),
                ms@ == idx@.take(i as int).map_values(|r: usize| self.marks@[r as int]),
            decreases idx.len() - i,
        {
            proof {
                assert(idx@.take(i + 1).map_values(|r: usize| self.marks@[r as int]) =~= ms@.push(self.marks@[idx@[i as int] as int]));
            }
            ms.push(self.marks[idx[i]]);
            i = i + 1;
        }
        proof {
            assert(idx@.take(idx.len() as int) == idx@);
            if scope_all {
                assert(ms@ =~= self.marks@);
            } else {
                assert(ms@ =~= scoped_marks(self@, scope_all));
            }
        }
        (label_counts(&ms), stars_of(&ms), tags_of(&ms))
    }
}


// ---------------------------------------------------------------- after a job

/// How the folder is re-read once a transfer or organize job is done.
#[derive(Clone, Copy, Debug, PartialEq, Eq, Structural)]
pub enum ReopenMode {
    /// Re-scan the current folder as it was scanned (moved photos are gone).
    Current,
    /// Re-open it with sub-folders included, to show the folders just created.
    Recursive,
}

/// A transfer re-reads the folder only when it moved files away; a copy leaves it as is.
pub fn transfer_reopen(action: Action) -> (r: Option<ReopenMode>)
    ensures
        r == (if action == Action::Move {
            Some(ReopenMode::Current)
        } else {
            None
        }),
{
    match action {
        Action::Move => Some(ReopenMode::Current),
        Action::Copy => None,
    }
}

/// Organizing by moving into the current folder itself (`in_place`: the destination lies
/// inside it) shows the result with sub-folders; moving elsewhere re-scans the emptied
/// folder; copying needs no re-read.
pub fn organize_reopen(action: Action, in_place: bool) -> (r: Option<ReopenMode>)
    ensures
        r == (if action == Action::Copy {
            None
        } else if in_place {
            Some(ReopenMode::Recursive)
        } else {
            Some(ReopenMode::Current)
        }),
{
    match action {
        Action::Move => if in_place {
            Some(ReopenMode::Recursive)
        } else {
            Some(ReopenMode::Current)
        },
        Action::Copy => None,
    }
}

/// What the viewer does when a job reports done.
#[derive(Clone, Copy, Debug, PartialEq, Eq, Structural)]
pub struct JobEnd {
    /// Re-open the current folder.
    pub reopen: bool,
    /// Switch on (and save) scanning sub-folders first.
    pub go_recursive: bool,
}

/// The end of a job: the folder (if one is open) is re-read as `mode` says; a recursive
/// re-open turns on sub-folder scanning only when some file was transferred.
pub fn job_end(mode: Option<ReopenMode>, transferred: usize, folder_open: bool) -> (r: JobEnd)
    ensures
        r.reopen == (mode is Some && folder_open),
        r.go_recursive == (mode == Some(ReopenMode::Recursive) && transferred > 0),
{
    match mode {
        Some(ReopenMode::Current) => JobEnd { reopen: folder_open, go_recursive: false },
        Some(ReopenMode::Recursive) => JobEnd { reopen: folder_open, go_recursive: transferred > 0 },
        None => JobEnd { reopen: false, go_recursive: false },
    }
}

// ---------------------------------------------------------------- starting a job

/// "Start" is enabled when the plan has something to do (`items` files) and the
/// destination is not blank.
pub fn start_allowed(items: usize, dest: &str) -> (r: bool)
    ensures
        r == (items > 0 && trim(dest@).len() > 0),
{
    let c = chars_of(dest);
    let (lo, hi) = trim_range(&c, 0, c.len());
    proof {
        assert(c@.subrange(0, c@.len() as int) =~= c@);
    }
    items > 0 && lo < hi
}

/// What the user did this frame in the transfer or organize dialog.
#[derive(Clone, Copy, Debug, PartialEq, Eq, Structural)]
pub struct DialogKeys {
    /// The (enabled) start button was clicked.
    pub start_clicked: bool,
    /// Enter was pressed.
    pub enter: bool,
    /// A text field has the keyboard focus.
    pub typing: bool,
    /// Esc was pressed.
    pub esc: bool,
    /// "Move" was clicked in the move confirmation.
    pub confirm_yes: bool,
    /// "Back" was clicked in the move confirmation.
    pub confirm_no: bool,
}

/// What the dialog does this frame.
#[derive(Clone, Copy, Debug, PartialEq, Eq, Structural)]
pub enum DialogStep {
    /// Start the job (and close the dialog).
    Start,
    /// Close the dialog without a job.
    Cancel,
    /// Show the move confirmation instead of starting.
    AskMove,
    /// Close the move confirmation; the dialog stays.
    CloseAsk,
    /// Nothing.
    Stay,
}

/// The step of a dialog whose move confirmation is showing (`confirming`) or not. While it
/// shows, Enter or "Move" starts and Esc or "Back" closes it. Otherwise the start button, or
/// Enter outside a text field while starting is allowed, asks to start: a copy starts at
/// once, a move asks for confirmation first; Esc closes the dialog, and wins over a start.
pub open spec fn dialog_step_spec(confirming: bool, action: Action, can_start: bool, k: DialogKeys) -> DialogStep {
    if confirming {
        if k.enter || k.confirm_yes {
            DialogStep::Start
        } else if k.esc || k.confirm_no {
            DialogStep::CloseAsk
        } else {
            DialogStep::Stay
        }
    } else if k.esc {
        DialogStep::Cancel
    } else if k.start_clicked || (k.enter && !k.typing && can_start) {
        if action == Action::Move {
            DialogStep::AskMove
        } else {
            DialogStep::Start
        }
    } else {
        DialogStep::Stay
    }
}

/// The step (see [`dialog_step_spec`]).
pub fn dialog_step(confirming: bool, action: Action, can_start: bool, k: DialogKeys) -> (r: DialogStep)
    ensures
        r == dialog_step_spec(confirming, action, can_start, k),
{
    if confirming {
        if k.enter || k.confirm_yes {
            DialogStep::Start
        } else if k.esc || k.confirm_no {
            DialogStep::CloseAsk
        } else {
            DialogStep::Stay
        }
    } else if k.esc {
        DialogStep::Cancel
    } else if k.start_clicked || (k.enter && !k.typing && can_start) {
        match action {
            Action::Move => DialogStep::AskMove,
            Action::Copy => DialogStep::Start,
        }
    } else {
        DialogStep::Stay
    }
}

/// Whether the move confirmation shows after `step`, having shown before (`confirming`) or not.
pub open spec fn confirming_after(confirming: bool, step: DialogStep) -> bool {
    match step {
        DialogStep::AskMove => true,
        DialogStep::CloseAsk => false,
        _ => confirming,
    }
}

impl TransferDialogState {
    /// Copy or move chosen: switching to copy closes a move confirmation.
    pub fn choose_action(&mut self, a: Action)
        ensures
            final(self)@ == (TransferModel {
                action: a,
                confirm_move: if a == Action::Copy {
                    false
                } else {
                    old(self)@.confirm_move
                },
                ..old(self)@
            }),
    {
        self.action = a;
        if a == Action::Copy {
            self.confirm_move = false;
        }
    }

    /// A frame of the dialog with `items` files planned: the step to take, with the move
    /// confirmation opened or closed as it says.
    pub fn on_keys(&mut self, items: usize, k: DialogKeys) -> (r: DialogStep)
        ensures
            r == dialog_step_spec(
                old(self)@.confirm_move,
                old(self)@.action,
                items > 0 && trim(old(self)@.dest).len() > 0,
                k,
            ),
            final(self)@ == (TransferModel {
                confirm_move: confirming_after(old(self)@.confirm_move, r),
                ..old(self)@
            }),
    {
        let can = start_allowed(items, self.dest.as_str());
        let r = dialog_step(self.confirm_move, self.action, can, k);
        match r {
            DialogStep::AskMove => self.confirm_move = true,
            DialogStep::CloseAsk => self.confirm_move = false,
            _ => {},
        }
        r
    }
}

impl OrganizeDialogState {
    /// Copy or move chosen: switching to copy closes a move confirmation.
    pub fn choose_action(&mut self, a: Action)
        ensures
            final(self)@ == (OrganizeModel {
                action: a,
                confirm_move: if a == Action::Copy {
                    false
                } else {
                    old(self)@.confirm_move
                },
                ..old(self)@
            }),
    {
        self.action = a;
        if a == Action::Copy {
            self.confirm_move = false;
        }
    }

    /// A frame of the dialog with `files` files to organize: the step to take, with the
    /// move confirmation opened or closed as it says.
    pub fn on_keys(&mut self, files: usize, k: DialogKeys) -> (r: DialogStep)
        ensures
            r == dialog_step_spec(
                old(self)@.confirm_move,
                old(self)@.action,
                files > 0 && trim(old(self)@.dest).len() > 0,
                k,
            ),
            final(self)@ == (OrganizeModel {
                confirm_move: confirming_after(old(self)@.confirm_move, r),
                ..old(self)@
            }),
    {
        let can = start_allowed(files, self.dest.as_str());
        let r = dialog_step(self.confirm_move, self.action, can, k);
        match r {
            DialogStep::AskMove => self.confirm_move = true,
            DialogStep::CloseAsk => self.confirm_move = false,
            _ => {},
        }
        r
    }
}

/// A move never starts from a single press: from a dialog without the confirmation, any
/// frame that would start a move opens the confirmation instead, and only a frame with it
/// showing starts.
pub proof fn law_move_needs_confirmation(can_start: bool, k: DialogKeys)
    ensures
        dialog_step_spec(false, Action::Move, can_start, k) != DialogStep::Start,
{
}

} // verus!
