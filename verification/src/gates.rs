//! What the viewer lets through while dialogs are open: keyboard and drops are blocked by
//! any modal dialog, a dropped item opens a folder, a folder request waits for a running
//! AI culling job to be cancelled, and the one update check of a session waits for idle.

use vstd::prelude::*;

verus! {

/// The dialogs and overlays that can stand over the photos.
#[derive(Clone, Copy, Debug, PartialEq, Eq, Structural)]
pub struct Overlays {
    pub transfer: bool,
    pub organize: bool,
    /// A transfer or organize job in progress.
    pub progress: bool,
    /// Result of a finished job.
    pub result: bool,
    pub jump: bool,
    pub bulk: bool,
    /// Keyboard cheat sheet.
    pub help: bool,
    pub settings: bool,
    pub licenses: bool,
    /// The AI culling set-up dialog.
    pub ai_cull_dialog: bool,
    /// "Cancel the running AI culling?"
    pub ai_cull_cancel_confirm: bool,
    /// "Cancel the AI culling and open another folder?"
    pub ai_cull_folder_confirm: bool,
    pub model_download: bool,
}

impl Overlays {
    /// Some dialog is open. A running AI culling job is not one of them: it works in the
    /// background.
    pub open spec fn blocking(self) -> bool {
        self.transfer || self.organize || self.progress || self.result || self.jump || self.bulk
            || self.help || self.settings || self.licenses || self.ai_cull_dialog
            || self.ai_cull_cancel_confirm || self.ai_cull_folder_confirm || self.model_download
    }

    /// A dialog takes the keyboard and drops.
    pub fn has_modal(&self) -> (r: bool)
        ensures
            r == self.blocking(),
    {
        self.transfer || self.organize || self.progress || self.result || self.jump || self.bulk
            || self.help || self.settings || self.licenses || self.ai_cull_dialog
            || self.ai_cull_cancel_confirm || self.ai_cull_folder_confirm || self.model_download
    }
}

/// The screen a frame draws.
#[derive(Clone, Copy, Debug, PartialEq, Eq, Structural)]
pub enum Screen {
    /// No folder yet: the open-folder screen.
    Open,
    Licenses,
    Settings,
    Fullscreen,
    /// Toolbar, side rail, film strip, status bar and the photo or grid.
    Shell,
}

/// The screen to draw: the open-folder screen until a folder is open, then the licenses
/// page, the settings, full screen or the normal shell, in that order of precedence.
pub fn screen(folder_open: bool, licenses: bool, settings: bool, fullscreen: bool) -> (s: Screen)
    ensures
        s == (if !folder_open {
            Screen::Open
        } else if licenses {
            Screen::Licenses
        } else if settings {
            Screen::Settings
        } else if fullscreen {
            Screen::Fullscreen
        } else {
            Screen::Shell
        }),
{
    if !folder_open {
        Screen::Open
    } else if licenses {
        Screen::Licenses
    } else if settings {
        Screen::Settings
    } else if fullscreen {
        Screen::Fullscreen
    } else {
        Screen::Shell
    }
}

/// The large dialog shown on top of the screen; at most one at a time.
#[derive(Clone, Copy, Debug, PartialEq, Eq, Structural)]
pub enum MainDialog {
    Progress,
    ModelDownload,
    Transfer,
    Organize,
    AiCull,
    AiCullCancelConfirm,
    AiCullFolderConfirm,
}

/// The large dialog to draw: a job in progress hides every other one, then the model
/// download, the transfer and organize dialogs, and the AI culling dialogs. The small
/// overlays (result, jump, bulk, help) are drawn on top independently.
pub fn main_dialog(o: &Overlays) -> (d: Option<MainDialog>)
    ensures
        d == (if o.progress {
            Some(MainDialog::Progress)
        } else if o.model_download {
            Some(MainDialog::ModelDownload)
        } else if o.transfer {
            Some(MainDialog::Transfer)
        } else if o.organize {
            Some(MainDialog::Organize)
        } else if o.ai_cull_dialog {
            Some(MainDialog::AiCull)
        } else if o.ai_cull_cancel_confirm {
            Some(MainDialog::AiCullCancelConfirm)
        } else if o.ai_cull_folder_confirm {
            Some(MainDialog::AiCullFolderConfirm)
        } else {
            None
        }),
{
    if o.progress {
        Some(MainDialog::Progress)
    } else if o.model_download {
        Some(MainDialog::ModelDownload)
    } else if o.transfer {
        Some(MainDialog::Transfer)
    } else if o.organize {
        Some(MainDialog::Organize)
    } else if o.ai_cull_dialog {
        Some(MainDialog::AiCull)
    } else if o.ai_cull_cancel_confirm {
        Some(MainDialog::AiCullCancelConfirm)
    } else if o.ai_cull_folder_confirm {
        Some(MainDialog::AiCullFolderConfirm)
    } else {
        None
    }
}

/// A large dialog is drawn only while a modal is open, so the keys stay blocked while one
/// shows.
pub proof fn law_dialog_blocks_keys(o: Overlays)
    ensures
        (o.progress || o.model_download || o.transfer || o.organize || o.ai_cull_dialog
            || o.ai_cull_cancel_confirm || o.ai_cull_folder_confirm) ==> o.blocking(),
{
}

// ---------------------------------------------------------------- opening folders

/// What asking for a folder does.
#[derive(Clone, Copy, Debug, PartialEq, Eq, Structural)]
pub enum FolderRequest {
    /// Open it now.
    Open,
    /// An AI culling job is running on the current folder: ask first whether to cancel it.
    Confirm,
}

/// A folder request opens at once, unless an AI culling job is running.
pub fn folder_request(cull_running: bool) -> (r: FolderRequest)
    ensures
        r == (if cull_running {
            FolderRequest::Confirm
        } else {
            FolderRequest::Open
        }),
{
    if cull_running {
        FolderRequest::Confirm
    } else {
        FolderRequest::Open
    }
}

/// What the user did this frame in a confirmation asked while a culling job runs.
#[derive(Clone, Copy, Debug, PartialEq, Eq, Structural)]
pub enum ConfirmInput {
    /// The proposed action ("change folder", "cancel culling").
    Go,
    /// Back out ("keep culling", "continue"), or Esc.
    Back,
    /// Nothing yet.
    Pending,
}

/// What the confirmation does.
#[derive(Clone, Copy, Debug, PartialEq, Eq, Structural)]
pub enum ConfirmStep {
    /// Cancel the culling job, then carry out the action.
    CancelAndGo,
    /// The job ended meanwhile: carry out the action (if there still is one) without asking.
    GoWithoutJob,
    /// Close the confirmation; the job goes on.
    Close,
    /// Keep asking.
    Ask,
}

/// The confirmation shown when a folder is asked for during a culling run, or when the run
/// is asked to stop: once the job has ended there is nothing to confirm; otherwise the
/// user's answer decides.
pub fn confirm_step(cull_running: bool, input: ConfirmInput) -> (r: ConfirmStep)
    ensures
        r == (if !cull_running {
            ConfirmStep::GoWithoutJob
        } else {
            match input {
                ConfirmInput::Go => ConfirmStep::CancelAndGo,
                ConfirmInput::Back => ConfirmStep::Close,
                ConfirmInput::Pending => ConfirmStep::Ask,
            }
        }),
{
    if !cull_running {
        return ConfirmStep::GoWithoutJob;
    }
    match input {
        ConfirmInput::Go => ConfirmStep::CancelAndGo,
        ConfirmInput::Back => ConfirmStep::Close,
        ConfirmInput::Pending => ConfirmStep::Ask,
    }
}

/// An item dropped onto the window, as the file system describes it.
#[derive(Clone, Copy, Debug, PartialEq, Eq, Structural)]
pub struct Dropped {
    /// The item has a file-system path.
    pub has_path: bool,
    pub is_dir: bool,
    /// The item's parent is a folder.
    pub parent_is_dir: bool,
    /// The item is the folder open now.
    pub is_open_folder: bool,
    /// The item's parent is the folder open now.
    pub parent_is_open_folder: bool,
}

/// The folder a drop stands for.
#[derive(Clone, Copy, Debug, PartialEq, Eq, Structural)]
pub enum DropPick {
    /// The dropped item at this position is itself a folder.
    Folder(usize),
    /// The dropped item at this position is a file; its folder is meant.
    ParentOf(usize),
}

pub open spec fn is_folder_drop(d: Dropped) -> bool {
    d.has_path && d.is_dir
}

pub open spec fn is_file_drop(d: Dropped) -> bool {
    d.has_path && !d.is_dir && d.parent_is_dir
}

/// The first dropped folder wins; with no folder among the items, the folder of the first
/// file; with neither, nothing.
pub open spec fn drop_pick_ok(s: Seq<Dropped>, r: Option<DropPick>) -> bool {
    match r {
        Some(DropPick::Folder(i)) => {
            &&& i < s.len()
            &&& is_folder_drop(s[i as int])
            &&& forall|j: int| 0 <= j < i ==> !is_folder_drop(#[trigger] s[j])
        },
        Some(DropPick::ParentOf(i)) => {
            &&& i < s.len()
            &&& is_file_drop(s[i as int])
            &&& forall|j: int| 0 <= j < i ==> !is_file_drop(#[trigger] s[j])
            &&& forall|j: int| 0 <= j < s.len() ==> !is_folder_drop(#[trigger] s[j])
        },
        None => forall|j: int|
            0 <= j < s.len() ==> !is_folder_drop(#[trigger] s[j]) && !is_file_drop(s[j]),
    }
}

/// The folder that a drop of `drops` stands for.
pub fn drop_pick(drops: &Vec<Dropped>) -> (r: Option<DropPick>)
    ensures
        drop_pick_ok(drops@, r),
{
    let mut pick: Option<DropPick> = None;
    let mut i: usize = 0;
    while i < drops.len()
        invariant
            i <= drops.len(),
            forall|j: int| 0 <= j < i ==> !is_folder_drop(#[trigger] drops@[j]),
            pick is None ==> forall|j: int| 0 <= j < i ==> !is_file_drop(#[trigger] drops@[j]),
            pick matches Some(DropPick::ParentOf(k)) ==> k < i && is_file_drop(drops@[k as int])
                && forall|j: int| 0 <= j < k ==> !is_file_drop(#[trigger] drops@[j]),
            !(pick matches Some(DropPick::Folder(_))),
        decreases drops.len() - i,
    {
        let d = drops[i];
        if d.has_path && d.is_dir {
            return Some(DropPick::Folder(i));
        }
        if pick.is_none() && d.has_path && d.parent_is_dir {
            pick = Some(DropPick::ParentOf(i));
        }
        i = i + 1;
    }
    pick
}

/// What a drop onto the window does.
#[derive(Clone, Copy, Debug, PartialEq, Eq, Structural)]
pub enum DropOutcome {
    /// Nothing: a dialog is open, nothing usable was dropped, or the folder is open already.
    Ignore,
    /// Open the folder picked.
    Open(DropPick),
    /// Ask whether to cancel the running AI culling job, then open the folder picked.
    Confirm(DropPick),
}

/// The dropped pick names the folder open now.
pub open spec fn picks_open_folder(s: Seq<Dropped>, p: DropPick) -> bool {
    match p {
        DropPick::Folder(i) => s[i as int].is_open_folder,
        DropPick::ParentOf(i) => s[i as int].parent_is_open_folder,
    }
}

/// A drop while no dialog is open picks a folder as [`drop_pick`] does; a folder other
/// than the open one is then requested as [`folder_request`] says.
pub fn drop_outcome(overlays: &Overlays, drops: &Vec<Dropped>, cull_running: bool) -> (r:
    DropOutcome)
    ensures
        overlays.blocking() ==> r == DropOutcome::Ignore,
        !overlays.blocking() ==> exists|p: Option<DropPick>|
            #![trigger drop_pick_ok(drops@, p)]
            drop_pick_ok(drops@, p) && r == match p {
                None => DropOutcome::Ignore,
                Some(p) => if picks_open_folder(drops@, p) {
                    DropOutcome::Ignore
                } else if cull_running {
                    DropOutcome::Confirm(p)
                } else {
                    DropOutcome::Open(p)
                },
            },
{
    if overlays.has_modal() {
        return DropOutcome::Ignore;
    }
    let pick = drop_pick(drops);
    let r = match pick {
        None => DropOutcome::Ignore,
        Some(p) => {
            let same = match p {
                DropPick::Folder(i) => drops[i].is_open_folder,
                DropPick::ParentOf(i) => drops[i].parent_is_open_folder,
            };
            if same {
                DropOutcome::Ignore
            } else {
                match folder_request(cull_running) {
                    FolderRequest::Confirm => DropOutcome::Confirm(p),
                    FolderRequest::Open => DropOutcome::Open(p),
                }
            }
        },
    };
    assert(drop_pick_ok(drops@, pick));
    r
}

// ---------------------------------------------------------------- background chores

/// The one update check of a session starts when checking is switched on, it has not run
/// yet, and the viewer is idle: no decode in flight, no job in progress, no dialog open.
pub fn update_check_due(
    check_updates: bool,
    already_checked: bool,
    decodes_idle: bool,
    job_running: bool,
    overlays: &Overlays,
) -> (r: bool)
    ensures
        r == (check_updates && !already_checked && decodes_idle && !job_running
            && !overlays.blocking()),
{
    check_updates && !already_checked && decodes_idle && !job_running && !overlays.has_modal()
}

/// Size in bytes the thumbnail cache is trimmed to, for a limit in MiB; `None` when the
/// limit is 0 (no limit). A limit too large for `u64` saturates.
pub fn cache_trim_bytes(limit_mb: u64) -> (r: Option<u64>)
    ensures
        r == (if limit_mb == 0 {
            None
        } else if limit_mb * 1048576 > u64::MAX {
            Some(u64::MAX)
        } else {
            Some((limit_mb * 1048576) as u64)
        }),
{
    if limit_mb == 0 {
        None
    } else if limit_mb > u64::MAX / 1048576 {
        Some(u64::MAX)
    } else {
        Some(limit_mb * 1048576)
    }
}

/// The settings' "restore defaults", which asks twice: the first press only arms it.
#[derive(Clone, Copy, Debug, PartialEq, Eq, Structural)]
pub struct ResetGuard {
    pub armed: bool,
}

impl ResetGuard {
    /// Not armed.
    pub fn new() -> (g: ResetGuard)
        ensures
            !g.armed,
    {
        ResetGuard { armed: false }
    }

    /// "Restore" pressed: arms the guard when it was not armed, else answers that the
    /// settings are to be reset now (and disarms it).
    pub fn restore(&mut self) -> (go: bool)
        ensures
            go == old(self).armed,
            final(self).armed == !old(self).armed,
    {
        let go = self.armed;
        self.armed = !go;
        go
    }

    /// "Cancel" pressed: disarmed, nothing reset.
    pub fn cancel(&mut self)
        ensures
            !final(self).armed,
    {
        self.armed = false;
    }
}

/// Resetting the settings takes two presses of "restore" in a row: from a guard that is
/// not armed, one press never resets, and the second one does (leaving it disarmed).
pub proof fn law_reset_takes_two_presses(g0: ResetGuard, g1: ResetGuard, go1: bool, g2: ResetGuard, go2: bool)
    requires
        !g0.armed,
        go1 == g0.armed,
        g1.armed == !g0.armed,
        go2 == g1.armed,
        g2.armed == !g1.armed,
    ensures
        !go1,
        go2,
        !g2.armed,
{
}

} // verus!
