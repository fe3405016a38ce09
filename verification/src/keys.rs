//! The keyboard of the viewer: which action a key press asks for, and the part of each
//! action that belongs to the culling session.

use crate::edits::{redo_model, set_label_model, set_stars_model, set_tag_model, undo_model};
use crate::marks::{filter_after, ColorTag, Filters, Label};
use crate::navigation::{advance_model, grid_cursor, hits_end};
use crate::session::{session_wf, CullSession, SessionModel, ViewMode};
use vstd::prelude::*;

verus! {

/// The keys the viewer binds.
#[derive(Clone, Copy, Debug, PartialEq, Eq, Structural)]
pub enum Key {
    ArrowRight,
    ArrowLeft,
    ArrowDown,
    ArrowUp,
    Q,
    W,
    E,
    R,
    Num0,
    Num1,
    Num2,
    Num3,
    Num4,
    Num5,
    Backtick,
    T,
    I,
    H,
    M,
    A,
    Z,
    Y,
    Space,
    D,
    F,
    G,
    B,
    F11,
    Escape,
    O,
    Other,
}

/// Modifier keys held with a key press (`command` is Ctrl, or Cmd on macOS).
#[derive(Clone, Copy, Debug, PartialEq, Eq, Structural)]
pub struct Modifiers {
    pub command: bool,
    pub shift: bool,
}

/// What a key press asks for.
#[derive(Clone, Copy, Debug, PartialEq, Eq, Structural)]
pub enum KeyAction {
    /// Move by this many cells (a grid row for up and down).
    Move(i64),
    SetLabel(Label),
    SetStars(u8),
    SetTag(ColorTag),
    OpenTransfer,
    ToggleView,
    ToggleExif,
    ToggleHistogram,
    ToggleMap,
    ToggleAf,
    Undo,
    Redo,
    /// Fit to the window or show at 1:1.
    ToggleZoom,
    /// Original resolution (ORIG) on or off.
    ToggleOrig,
    CycleFilter,
    OpenJump,
    OpenBulk,
    ToggleFullscreen,
    LeaveFullscreen,
    OpenFolder,
}

/// The key bindings. Up and down move by `row` cells; with the command key, E opens the
/// transfer, Z undoes (redoes with shift), Y redoes and O opens a folder; shift with 1..5
/// and 0 sets and clears colour tags, 1..5 and backtick set and clear stars (not with the
/// command key); B opens the relabel dialog only in the grid.
pub open spec fn binding(key: Key, m: Modifiers, view: ViewMode, row: i64) -> Option<KeyAction> {
    let cmd = m.command;
    let tag_key = m.shift && !cmd;
    match key {
        Key::ArrowRight => Some(KeyAction::Move(1i64)),
        Key::ArrowLeft => Some(KeyAction::Move(-1i64)),
        Key::ArrowDown => Some(KeyAction::Move(row)),
        Key::ArrowUp => Some(KeyAction::Move((-row) as i64)),
        Key::Q => Some(KeyAction::SetLabel(Label::Pick)),
        Key::W => Some(KeyAction::SetLabel(Label::Hold)),
        Key::E => if cmd {
            Some(KeyAction::OpenTransfer)
        } else {
            Some(KeyAction::SetLabel(Label::Reject))
        },
        Key::R => Some(KeyAction::SetLabel(Label::Unrated)),
        Key::Num1 => if tag_key {
            Some(KeyAction::SetTag(ColorTag::Orange))
        } else if !cmd {
            Some(KeyAction::SetStars(1))
        } else {
            None
        },
        Key::Num2 => if tag_key {
            Some(KeyAction::SetTag(ColorTag::Pink))
        } else if !cmd {
            Some(KeyAction::SetStars(2))
        } else {
            None
        },
        Key::Num3 => if tag_key {
            Some(KeyAction::SetTag(ColorTag::Teal))
        } else if !cmd {
            Some(KeyAction::SetStars(3))
        } else {
            None
        },
        Key::Num4 => if tag_key {
            Some(KeyAction::SetTag(ColorTag::Blue))
        } else if !cmd {
            Some(KeyAction::SetStars(4))
        } else {
            None
        },
        Key::Num5 => if tag_key {
            Some(KeyAction::SetTag(ColorTag::Purple))
        } else if !cmd {
            Some(KeyAction::SetStars(5))
        } else {
            None
        },
        Key::Num0 => if tag_key {
            Some(KeyAction::SetTag(ColorTag::Untagged))
        } else {
            None
        },
        Key::Backtick => if !cmd {
            Some(KeyAction::SetStars(0))
        } else {
            None
        },
        Key::T => Some(KeyAction::ToggleView),
        Key::I => Some(KeyAction::ToggleExif),
        Key::H => Some(KeyAction::ToggleHistogram),
        Key::M => Some(KeyAction::ToggleMap),
        Key::A => Some(KeyAction::ToggleAf),
        Key::Z => if cmd && m.shift {
            Some(KeyAction::Redo)
        } else if cmd {
            Some(KeyAction::Undo)
        } else {
            Some(KeyAction::ToggleZoom)
        },
        Key::Y => if cmd {
            Some(KeyAction::Redo)
        } else {
            None
        },
        Key::Space => Some(KeyAction::ToggleZoom),
        Key::D => Some(KeyAction::ToggleOrig),
        Key::F => Some(KeyAction::CycleFilter),
        Key::G => Some(KeyAction::OpenJump),
        Key::B => if view == ViewMode::Grid {
            Some(KeyAction::OpenBulk)
        } else {
            None
        },
        Key::F11 => Some(KeyAction::ToggleFullscreen),
        Key::Escape => Some(KeyAction::LeaveFullscreen),
        Key::O => if cmd {
            Some(KeyAction::OpenFolder)
        } else {
            None
        },
        Key::Other => None,
    }
}

/// The action a key press asks for, `row` being the cells one press of up or down moves.
pub fn key_action(key: Key, m: Modifiers, view: ViewMode, row: i64) -> (r: Option<KeyAction>)
    requires
        row > i64::MIN,
    ensures
        r == binding(key, m, view, row),
{
    let cmd = m.command;
    let tag_key = m.shift && !cmd;
    match key {
        Key::ArrowRight => Some(KeyAction::Move(1)),
        Key::ArrowLeft => Some(KeyAction::Move(-1)),
        Key::ArrowDown => Some(KeyAction::Move(row)),
        Key::ArrowUp => Some(KeyAction::Move(-row)),
        Key::Q => Some(KeyAction::SetLabel(Label::Pick)),
        Key::W => Some(KeyAction::SetLabel(Label::Hold)),
        Key::E => if cmd {
            Some(KeyAction::OpenTransfer)
        } else {
            Some(KeyAction::SetLabel(Label::Reject))
        },
        Key::R => Some(KeyAction::SetLabel(Label::Unrated)),
        Key::Num1 => if tag_key {
            Some(KeyAction::SetTag(ColorTag::Orange))
        } else if !cmd {
            Some(KeyAction::SetStars(1))
        } else {
            None
        },
        Key::Num2 => if tag_key {
            Some(KeyAction::SetTag(ColorTag::Pink))
        } else if !cmd {
            Some(KeyAction::SetStars(2))
        } else {
            None
        },
        Key::Num3 => if tag_key {
            Some(KeyAction::SetTag(ColorTag::Teal))
        } else if !cmd {
            Some(KeyAction::SetStars(3))
        } else {
            None
        },
        Key::Num4 => if tag_key {
            Some(KeyAction::SetTag(ColorTag::Blue))
        } else if !cmd {
            Some(KeyAction::SetStars(4))
        } else {
            None
        },
        Key::Num5 => if tag_key {
            Some(KeyAction::SetTag(ColorTag::Purple))
        } else if !cmd {
            Some(KeyAction::SetStars(5))
        } else {
            None
        },
        Key::Num0 => if tag_key {
            Some(KeyAction::SetTag(ColorTag::Untagged))
        } else {
            None
        },
        Key::Backtick => if !cmd {
            Some(KeyAction::SetStars(0))
        } else {
            None
        },
        Key::T => Some(KeyAction::ToggleView),
        Key::I => Some(KeyAction::ToggleExif),
        Key::H => Some(KeyAction::ToggleHistogram),
        Key::M => Some(KeyAction::ToggleMap),
        Key::A => Some(KeyAction::ToggleAf),
        Key::Z => if cmd && m.shift {
            Some(KeyAction::Redo)
        } else if cmd {
            Some(KeyAction::Undo)
        } else {
            Some(KeyAction::ToggleZoom)
        },
        Key::Y => if cmd {
            Some(KeyAction::Redo)
        } else {
            None
        },
        Key::Space => Some(KeyAction::ToggleZoom),
        Key::D => Some(KeyAction::ToggleOrig),
        Key::F => Some(KeyAction::CycleFilter),
        Key::G => Some(KeyAction::OpenJump),
        Key::B => if view == ViewMode::Grid {
            Some(KeyAction::OpenBulk)
        } else {
            None
        },
        Key::F11 => Some(KeyAction::ToggleFullscreen),
        Key::Escape => Some(KeyAction::LeaveFullscreen),
        Key::O => if cmd {
            Some(KeyAction::OpenFolder)
        } else {
            None
        },
        Key::Other => None,
    }
}

/// What an action does to the session; actions on the window alone leave it unchanged.
pub open spec fn action_model(s: SessionModel, a: KeyAction) -> SessionModel {
    match a {
        KeyAction::Move(d) => grid_cursor(advance_model(s, d)),
        KeyAction::SetLabel(l) => set_label_model(s, l),
        KeyAction::SetStars(n) => set_stars_model(s, n, true),
        KeyAction::SetTag(t) => set_tag_model(s, t),
        KeyAction::ToggleView => SessionModel {
            view: match s.view {
                ViewMode::Single => ViewMode::Grid,
                ViewMode::Grid => ViewMode::Single,
            },
            ..s
        },
        KeyAction::Undo => undo_model(s),
        KeyAction::Redo => redo_model(s),
        KeyAction::ToggleZoom => SessionModel { fit: !s.fit, ..s },
        KeyAction::ToggleOrig => SessionModel { full_raw: !s.full_raw, ..s },
        KeyAction::CycleFilter => SessionModel {
            filters: Filters { label: filter_after(s.filters.label), ..s.filters },
            ..s
        },
        _ => s,
    }
}

/// What the viewer reports after an action: whether a move pushed past the last photo,
/// and whether an undo or redo found nothing to do.
pub open spec fn action_report(s: SessionModel, a: KeyAction) -> (bool, bool) {
    match a {
        KeyAction::Move(d) => (hits_end(s, d), false),
        KeyAction::Undo => (false, s.undo.len() == 0),
        KeyAction::Redo => (false, s.redo.len() == 0),
        _ => (false, false),
    }
}

impl CullSession {
    /// Carries out the session's part of a key action. Returns whether a move pushed past
    /// the last photo and whether an undo or redo found nothing to do.
    pub fn apply_key_action(&mut self, a: KeyAction) -> (r: (bool, bool))
        requires
            session_wf(old(self)@),
        ensures
            session_wf(final(self)@),
            final(self)@ == action_model(old(self)@, a),
            r == action_report(old(self)@, a),
    {
        match a {
            KeyAction::Move(d) => {
                let end = self.nav(d);
                (end, false)
            },
            KeyAction::SetLabel(l) => {
                self.set_label(l);
                (false, false)
            },
            KeyAction::SetStars(n) => {
                self.set_stars(n, true);
                (false, false)
            },
            KeyAction::SetTag(t) => {
                self.set_tag(t);
                (false, false)
            },
            KeyAction::ToggleView => {
                self.toggle_view();
                (false, false)
            },
            KeyAction::Undo => {
                let done = self.undo();
                (false, !done)
            },
            KeyAction::Redo => {
                let done = self.redo();
                (false, !done)
            },
            KeyAction::ToggleZoom => {
                self.fit = !self.fit;
                (false, false)
            },
            KeyAction::ToggleOrig => {
                self.full_raw = !self.full_raw;
                (false, false)
            },
            KeyAction::CycleFilter => {
                self.cycle_label_filter();
                (false, false)
            },
            _ => (false, false),
        }
    }
}

/// How the Command/Ctrl modifier is written in button captions and hints (`{}O` for
/// "open folder"): `⌘` on macOS (`mac`), `Ctrl+` elsewhere, where the key is Ctrl and the
/// `⌘` glyph would come from a fallback font.
pub fn cmd_key(mac: bool) -> (r: &'static str)
    ensures
        r@ == (if mac {
            "\u{2318}"@
        } else {
            "Ctrl+"@
        }),
{
    if mac {
        "\u{2318}"
    } else {
        "Ctrl+"
    }
}

/// The four label keys rate with four different labels, whatever is shown and held (E with
/// the command key opens the transfer instead): Q picks, W holds, E rejects, R clears.
pub proof fn law_label_keys_are_distinct(m: Modifiers, view: ViewMode, row: i64)
    ensures
        binding(Key::Q, m, view, row) == Some(KeyAction::SetLabel(Label::Pick)),
        binding(Key::W, m, view, row) == Some(KeyAction::SetLabel(Label::Hold)),
        !m.command ==> binding(Key::E, m, view, row) == Some(KeyAction::SetLabel(Label::Reject)),
        binding(Key::R, m, view, row) == Some(KeyAction::SetLabel(Label::Unrated)),
        !m.command ==> {
            &&& binding(Key::Q, m, view, row) != binding(Key::W, m, view, row)
            &&& binding(Key::Q, m, view, row) != binding(Key::E, m, view, row)
            &&& binding(Key::Q, m, view, row) != binding(Key::R, m, view, row)
            &&& binding(Key::W, m, view, row) != binding(Key::E, m, view, row)
            &&& binding(Key::W, m, view, row) != binding(Key::R, m, view, row)
            &&& binding(Key::E, m, view, row) != binding(Key::R, m, view, row)
        },
{
}

} // verus!
