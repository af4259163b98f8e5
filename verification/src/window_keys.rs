use vstd::prelude::*;
use crate::naming::ClipKind;
use crate::text::same_text;

verus! {

/// Which panel of the main window is active.
#[derive(Clone, Copy, PartialEq, Eq, Debug, Structural)]
pub enum ActivePanelSide {
    Left,
    Right,
    Neither,
}

/// A key of the main window, as far as its shortcuts tell keys apart.
#[derive(Clone, Copy, PartialEq, Eq, Debug, Structural)]
pub enum WindowKey {
    ShiftL,
    ShiftR,
    AltL,
    AltR,
    Escape,
    Tab,
    BackSpace,
    Delete,
    KpDelete,
    F(u8),
    /// A letter key, by its character (`r` and `R` differ).
    Letter(char),
    Other,
}

/// What the window knows when a key is pressed.
#[derive(Clone, Copy, PartialEq, Eq, Debug, Structural)]
pub struct KeyContext {
    pub active: ActivePanelSide,
    pub left_term_focused: bool,
    pub right_term_focused: bool,
    pub left_term_visible: bool,
    pub right_term_visible: bool,
    /// A terminal is grown over both panels.
    pub expanded: bool,
    /// The focused widget takes text (an entry or a text view).
    pub focus_editable: bool,
    /// The focused widget is a text view.
    pub focus_text_view: bool,
    pub dialog_visible: bool,
    pub clipboard_items: usize,
    /// The active panel sits in a window.
    pub panel_has_window: bool,
    /// The focus is somewhere inside the left panel.
    pub focus_in_left: bool,
    pub windows: bool,
    /// Shift was held, as last recorded.
    pub shift_held: bool,
}

/// What a key press does in the main window.
#[derive(Clone, Copy, PartialEq, Eq, Debug, Structural)]
pub enum WindowCommand {
    Nothing,
    CollapseTerminal,
    ExpandTerminal(ActivePanelSide),
    ManageConnections,
    FindFiles,
    FilterFiles,
    Refresh,
    FocusLeft,
    FocusRight,
    /// Open the root: `C:\` on Windows for `go_root_win`, else `/`.
    OpenRoot { windows_drive: bool },
    Paste,
    Take(ClipKind),
    ToggleTerminal(ActivePanelSide),
    Help,
    Rename,
    View,
    NewFile,
    Edit,
    Copy,
    Move,
    CreateDir,
    Delete,
    GoUp,
    Quit,
}

/// Whether the key stops there or goes on to the focused widget; after
/// copying or cutting, it stops only when something was taken.
#[derive(Clone, Copy, PartialEq, Eq, Debug, Structural)]
pub enum Propagation {
    Stop,
    Proceed,
    StopIfTaken,
}

/// The labels of the F4 and F7 buttons while Shift or Alt is held.
#[derive(Clone, Copy, PartialEq, Eq, Debug, Structural)]
pub enum ButtonLabel {
    Normal,
    Alternate,
}

/// Everything a key press changes.
#[derive(Clone, Copy, PartialEq, Eq, Debug, Structural)]
pub struct KeyOutcome {
    /// Shift held, as recorded after the press.
    pub shift_held: bool,
    /// The source selectors must be rebuilt (favourites-only depends on Shift).
    pub refresh_selectors: bool,
    /// Escape cancels an edit in the active panel.
    pub cancel_editing: bool,
    pub f4_label: Option<ButtonLabel>,
    pub f7_label: Option<ButtonLabel>,
    pub command: WindowCommand,
    pub propagation: Propagation,
}

/// Whether a key is a Shift key.
pub open spec fn is_shift(k: WindowKey) -> bool {
    k == WindowKey::ShiftL || k == WindowKey::ShiftR
}

/// Whether a key is an Alt key.
pub open spec fn is_alt(k: WindowKey) -> bool {
    k == WindowKey::AltL || k == WindowKey::AltR
}

/// Whether a terminal has the focus.
pub open spec fn terminal_focused(c: KeyContext) -> bool {
    c.left_term_focused || c.right_term_focused
}

/// The side whose terminal a shortcut means: the focused terminal's, else
/// the active panel's.
pub open spec fn terminal_side(c: KeyContext) -> ActivePanelSide {
    if c.left_term_focused {
        ActivePanelSide::Left
    } else if c.right_term_focused {
        ActivePanelSide::Right
    } else {
        c.active
    }
}

/// What a resolved shortcut does, when it decides the key (`None` when the
/// key goes on to the plain key handling).
pub open spec fn shortcut_outcome(action: Seq<char>, c: KeyContext) -> Option<(WindowCommand, Propagation)> {
    if action == "expand_terminal"@ || action == "toggle_video_fullscreen"@ {
        if c.expanded {
            Some((WindowCommand::CollapseTerminal, Propagation::Stop))
        } else {
            let side = terminal_side(c);
            let visible = match side {
                ActivePanelSide::Left => c.left_term_visible,
                ActivePanelSide::Right => c.right_term_visible,
                ActivePanelSide::Neither => false,
            };
            Some((if visible { WindowCommand::ExpandTerminal(side) } else { WindowCommand::Nothing }, Propagation::Stop))
        }
    } else if terminal_focused(c) {
        Some((WindowCommand::Nothing, Propagation::Proceed))
    } else if c.active == ActivePanelSide::Neither {
        None
    } else if action == "manage_connections"@ {
        Some((WindowCommand::ManageConnections, Propagation::Stop))
    } else if action == "find_files"@ {
        Some((WindowCommand::FindFiles, Propagation::Stop))
    } else if action == "filter_files"@ {
        Some((WindowCommand::FilterFiles, Propagation::Stop))
    } else if action == "refresh"@ {
        Some((WindowCommand::Refresh, Propagation::Stop))
    } else if action == "move_left"@ || action == "select_left"@ {
        Some((WindowCommand::FocusLeft, Propagation::Stop))
    } else if action == "move_right"@ || action == "select_right"@ {
        Some((WindowCommand::FocusRight, Propagation::Stop))
    } else if action == "go_root_win"@ {
        Some((WindowCommand::OpenRoot { windows_drive: c.windows }, Propagation::Stop))
    } else if action == "go_root_unix"@ {
        Some((WindowCommand::OpenRoot { windows_drive: false }, Propagation::Stop))
    } else if action == "clip_cut"@ || action == "clip_copy"@ || action == "clip_paste"@ {
        if c.focus_editable || c.dialog_visible {
            Some((WindowCommand::Nothing, Propagation::Proceed))
        } else if action == "clip_paste"@ {
            if c.clipboard_items == 0 || !c.panel_has_window {
                Some((WindowCommand::Nothing, Propagation::Proceed))
            } else {
                Some((WindowCommand::Paste, Propagation::Stop))
            }
        } else {
            Some((WindowCommand::Take(if action == "clip_cut"@ { ClipKind::Cut } else { ClipKind::Copy }), Propagation::StopIfTaken))
        }
    } else {
        None
    }
}

/// What a plain key does once no shortcut decided it.
pub open spec fn plain_key_outcome(key: WindowKey, shift_mask: bool, alt_mask: bool, ctrl_mask: bool, c: KeyContext) -> (WindowCommand, Propagation) {
    let has_panel = c.active != ActivePanelSide::Neither;
    if key == WindowKey::F(9) {
        let side = terminal_side(c);
        if side == ActivePanelSide::Neither {
            (WindowCommand::Nothing, Propagation::Proceed)
        } else {
            (WindowCommand::ToggleTerminal(side), Propagation::Stop)
        }
    } else if terminal_focused(c) {
        (WindowCommand::Nothing, Propagation::Proceed)
    } else if key == WindowKey::Tab {
        if c.focus_text_view {
            (WindowCommand::Nothing, Propagation::Proceed)
        } else if c.focus_in_left {
            (WindowCommand::FocusRight, Propagation::Stop)
        } else {
            (WindowCommand::FocusLeft, Propagation::Stop)
        }
    } else if key == WindowKey::BackSpace {
        if c.focus_editable || !has_panel {
            (WindowCommand::Nothing, Propagation::Proceed)
        } else {
            (WindowCommand::GoUp, Propagation::Stop)
        }
    } else if key == WindowKey::F(1) {
        (WindowCommand::Help, Propagation::Stop)
    } else if key == WindowKey::F(2) || key == WindowKey::F(3) || key == WindowKey::F(4) || key == WindowKey::F(5)
        || key == WindowKey::F(6) || key == WindowKey::F(7) {
        if !has_panel {
            (WindowCommand::Nothing, Propagation::Proceed)
        } else if key == WindowKey::F(2) {
            (WindowCommand::Rename, Propagation::Stop)
        } else if key == WindowKey::F(3) {
            (WindowCommand::View, Propagation::Stop)
        } else if key == WindowKey::F(4) {
            (if shift_mask { WindowCommand::NewFile } else { WindowCommand::Edit }, Propagation::Stop)
        } else if key == WindowKey::F(5) {
            (WindowCommand::Copy, Propagation::Stop)
        } else if key == WindowKey::F(6) {
            (WindowCommand::Move, Propagation::Stop)
        } else {
            (if alt_mask { WindowCommand::FindFiles } else { WindowCommand::CreateDir }, Propagation::Stop)
        }
    } else if key == WindowKey::F(8) || key == WindowKey::Delete || key == WindowKey::KpDelete {
        if (key == WindowKey::Delete || key == WindowKey::KpDelete) && c.focus_editable {
            (WindowCommand::Nothing, Propagation::Proceed)
        } else if has_panel {
            (WindowCommand::Delete, Propagation::Stop)
        } else {
            (WindowCommand::Nothing, Propagation::Proceed)
        }
    } else if key == WindowKey::F(10) {
        (WindowCommand::Quit, Propagation::Stop)
    } else if (key == WindowKey::Letter('r') || key == WindowKey::Letter('R')) && ctrl_mask {
        if has_panel {
            (WindowCommand::Refresh, Propagation::Stop)
        } else {
            (WindowCommand::Nothing, Propagation::Proceed)
        }
    } else {
        (WindowCommand::Nothing, Propagation::Proceed)
    }
}

/// Everything a key press does in the main window, given the shortcut it
/// resolves to (if any) and the modifier keys held.
pub open spec fn key_outcome(
    key: WindowKey,
    shift_mask: bool,
    alt_mask: bool,
    ctrl_mask: bool,
    action: Option<Seq<char>>,
    c: KeyContext,
) -> KeyOutcome {
    let released = !is_shift(key) && !shift_mask && c.shift_held;
    let pressed = is_shift(key) && !c.shift_held;
    let held = if released { false } else if is_shift(key) { true } else { c.shift_held };
    let (command, propagation) = match action {
        Some(a) => match shortcut_outcome(a, c) {
            Some(o) => o,
            None => plain_key_outcome(key, shift_mask, alt_mask, ctrl_mask, c),
        },
        None => plain_key_outcome(key, shift_mask, alt_mask, ctrl_mask, c),
    };
    KeyOutcome {
        shift_held: held,
        refresh_selectors: released || pressed,
        cancel_editing: key == WindowKey::Escape && c.active != ActivePanelSide::Neither,
        f4_label: if is_shift(key) { Some(ButtonLabel::Alternate) } else { None },
        f7_label: if is_alt(key) { Some(ButtonLabel::Alternate) } else { None },
        command,
        propagation,
    }
}

fn shortcut(action: &str, c: &KeyContext) -> (r: Option<(WindowCommand, Propagation)>)
    ensures
        r == shortcut_outcome(action@, *c),
{
    if same_text(action, "expand_terminal") || same_text(action, "toggle_video_fullscreen") {
        if c.expanded {
            return Some((WindowCommand::CollapseTerminal, Propagation::Stop));
        }
        let side = if c.left_term_focused {
            ActivePanelSide::Left
        } else if c.right_term_focused {
            ActivePanelSide::Right
        } else {
            c.active
        };
        let visible = match side {
            ActivePanelSide::Left => c.left_term_visible,
            ActivePanelSide::Right => c.right_term_visible,
            ActivePanelSide::Neither => false,
        };
        return Some((if visible { WindowCommand::ExpandTerminal(side) } else { WindowCommand::Nothing }, Propagation::Stop));
    }
    if c.left_term_focused || c.right_term_focused {
        return Some((WindowCommand::Nothing, Propagation::Proceed));
    }
    if c.active == ActivePanelSide::Neither {
        return None;
    }
    if same_text(action, "manage_connections") {
        Some((WindowCommand::ManageConnections, Propagation::Stop))
    } else if same_text(action, "find_files") {
        Some((WindowCommand::FindFiles, Propagation::Stop))
    } else if same_text(action, "filter_files") {
        Some((WindowCommand::FilterFiles, Propagation::Stop))
    } else if same_text(action, "refresh") {
        Some((WindowCommand::Refresh, Propagation::Stop))
    } else if same_text(action, "move_left") || same_text(action, "select_left") {
        Some((WindowCommand::FocusLeft, Propagation::Stop))
    } else if same_text(action, "move_right") || same_text(action, "select_right") {
        Some((WindowCommand::FocusRight, Propagation::Stop))
    } else if same_text(action, "go_root_win") {
        Some((WindowCommand::OpenRoot { windows_drive: c.windows }, Propagation::Stop))
    } else if same_text(action, "go_root_unix") {
        Some((WindowCommand::OpenRoot { windows_drive: false }, Propagation::Stop))
    } else if same_text(action, "clip_cut") || same_text(action, "clip_copy") || same_text(action, "clip_paste") {
        if c.focus_editable || c.dialog_visible {
            Some((WindowCommand::Nothing, Propagation::Proceed))
        } else if same_text(action, "clip_paste") {
            if c.clipboard_items == 0 || !c.panel_has_window {
                Some((WindowCommand::Nothing, Propagation::Proceed))
            } else {
                Some((WindowCommand::Paste, Propagation::Stop))
            }
        } else {
            let kind = if same_text(action, "clip_cut") { ClipKind::Cut } else { ClipKind::Copy };
            Some((WindowCommand::Take(kind), Propagation::StopIfTaken))
        }
    } else {
        None
    }
}

fn plain_key(key: WindowKey, shift_mask: bool, alt_mask: bool, ctrl_mask: bool, c: &KeyContext) -> (r: (WindowCommand, Propagation))
    ensures
        r == plain_key_outcome(key, shift_mask, alt_mask, ctrl_mask, *c),
{
    let has_panel = c.active != ActivePanelSide::Neither;
    match key {
        WindowKey::F(9) => {
            let side = if c.left_term_focused {
                ActivePanelSide::Left
            } else if c.right_term_focused {
                ActivePanelSide::Right
            } else {
                c.active
            };
            if side == ActivePanelSide::Neither {
                (WindowCommand::Nothing, Propagation::Proceed)
            } else {
                (WindowCommand::ToggleTerminal(side), Propagation::Stop)
            }
        },
        _ => {
            if c.left_term_focused || c.right_term_focused {
                return (WindowCommand::Nothing, Propagation::Proceed);
            }
            match key {
                WindowKey::Tab => if c.focus_text_view {
                    (WindowCommand::Nothing, Propagation::Proceed)
                } else if c.focus_in_left {
                    (WindowCommand::FocusRight, Propagation::Stop)
                } else {
                    (WindowCommand::FocusLeft, Propagation::Stop)
                },
                WindowKey::BackSpace => if c.focus_editable || !has_panel {
                    (WindowCommand::Nothing, Propagation::Proceed)
                } else {
                    (WindowCommand::GoUp, Propagation::Stop)
                },
                WindowKey::F(1) => (WindowCommand::Help, Propagation::Stop),
                WindowKey::F(n) if 2 <= n && n <= 7 => if !has_panel {
                    (WindowCommand::Nothing, Propagation::Proceed)
                } else if n == 2 {
                    (WindowCommand::Rename, Propagation::Stop)
                } else if n == 3 {
                    (WindowCommand::View, Propagation::Stop)
                } else if n == 4 {
                    (if shift_mask { WindowCommand::NewFile } else { WindowCommand::Edit }, Propagation::Stop)
                } else if n == 5 {
                    (WindowCommand::Copy, Propagation::Stop)
                } else if n == 6 {
                    (WindowCommand::Move, Propagation::Stop)
                } else {
                    (if alt_mask { WindowCommand::FindFiles } else { WindowCommand::CreateDir }, Propagation::Stop)
                },
                WindowKey::F(8) => if has_panel {
                    (WindowCommand::Delete, Propagation::Stop)
                } else {
                    (WindowCommand::Nothing, Propagation::Proceed)
                },
                WindowKey::Delete | WindowKey::KpDelete => if c.focus_editable {
                    (WindowCommand::Nothing, Propagation::Proceed)
                } else if has_panel {
                    (WindowCommand::Delete, Propagation::Stop)
                } else {
                    (WindowCommand::Nothing, Propagation::Proceed)
                },
                WindowKey::F(10) => (WindowCommand::Quit, Propagation::Stop),
                WindowKey::Letter(ch) if (ch == 'r' || ch == 'R') && ctrl_mask => if has_panel {
                    (WindowCommand::Refresh, Propagation::Stop)
                } else {
                    (WindowCommand::Nothing, Propagation::Proceed)
                },
                _ => (WindowCommand::Nothing, Propagation::Proceed),
            }
        },
    }
}

/// Handles a key press in the main window: what it records, what it
/// changes on screen, what it runs and whether it goes on.
pub fn window_key(
    key: WindowKey,
    shift_mask: bool,
    alt_mask: bool,
    ctrl_mask: bool,
    action: Option<&str>,
    c: &KeyContext,
) -> (r: KeyOutcome)
    ensures
        r == key_outcome(key, shift_mask, alt_mask, ctrl_mask, match action {
            Some(a) => Some(a@),
            None => None,
        }, *c),
{
    let shift_key = key == WindowKey::ShiftL || key == WindowKey::ShiftR;
    let alt_key = key == WindowKey::AltL || key == WindowKey::AltR;
    let released = !shift_key && !shift_mask && c.shift_held;
    let pressed = shift_key && !c.shift_held;
    let held = if released { false } else if shift_key { true } else { c.shift_held };
    let (command, propagation) = match action {
        Some(a) => match shortcut(a, c) {
            Some(o) => o,
            None => plain_key(key, shift_mask, alt_mask, ctrl_mask, c),
        },
        None => plain_key(key, shift_mask, alt_mask, ctrl_mask, c),
    };
    KeyOutcome {
        shift_held: held,
        refresh_selectors: released || pressed,
        cancel_editing: key == WindowKey::Escape && c.active != ActivePanelSide::Neither,
        f4_label: if shift_key { Some(ButtonLabel::Alternate) } else { None },
        f7_label: if alt_key { Some(ButtonLabel::Alternate) } else { None },
        command,
        propagation,
    }
}

/// What releasing a key changes: Shift no longer held (selectors rebuilt
/// when it was) and the F4 label back; Alt gives the F7 label back.
pub fn window_key_released(key: WindowKey, shift_held: bool) -> (r: KeyOutcome)
    ensures
        r.shift_held == (if key == WindowKey::ShiftL || key == WindowKey::ShiftR { false } else { shift_held }),
        r.refresh_selectors == ((key == WindowKey::ShiftL || key == WindowKey::ShiftR) && shift_held),
        !r.cancel_editing,
        r.f4_label == (if key == WindowKey::ShiftL || key == WindowKey::ShiftR { Some(ButtonLabel::Normal) } else { None }),
        r.f7_label == (if key == WindowKey::AltL || key == WindowKey::AltR { Some(ButtonLabel::Normal) } else { None }),
        r.command == WindowCommand::Nothing,
        r.propagation == Propagation::Proceed,
{
    let shift_key = key == WindowKey::ShiftL || key == WindowKey::ShiftR;
    let alt_key = key == WindowKey::AltL || key == WindowKey::AltR;
    KeyOutcome {
        shift_held: if shift_key { false } else { shift_held },
        refresh_selectors: shift_key && shift_held,
        cancel_editing: false,
        f4_label: if shift_key { Some(ButtonLabel::Normal) } else { None },
        f7_label: if alt_key { Some(ButtonLabel::Normal) } else { None },
        command: WindowCommand::Nothing,
        propagation: Propagation::Proceed,
    }
}

/// A click records whether Shift is down; the selectors are rebuilt when
/// that changes. Gives (Shift held, rebuild).
pub fn click_shift(shift_held: bool, shift_down: bool) -> (r: (bool, bool))
    ensures
        r == (shift_down, shift_held != shift_down),
{
    (shift_down, shift_held != shift_down)
}

} // verus!
