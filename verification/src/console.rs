use vstd::prelude::*;
use crate::terminal::{KeyCode, KeyEvent};
use crate::connections::{conn_views, opt_text, ConnView, FtpConnection};
use crate::drives::{LocalDriveInfo, MountKind};
use crate::peers::{source_views, P2pSource, SourceView};
use crate::text::{decimal, lowercase, push_all, push_str, same_text, string_of, to_decimal, to_lowercase, to_uppercase, uppercase};

verus! {

/// Where the console's keyboard goes: a panel or the terminal below it.
#[derive(Clone, Copy, PartialEq, Eq, Debug, Structural)]
pub enum Focus {
    Panel,
    Term,
}

/// Who handles a key.
#[derive(Clone, Copy, PartialEq, Eq, Debug, Structural)]
pub enum KeyRoute {
    Overlay,
    Term,
    Panel,
}

/// An open overlay takes every key; otherwise a focused, open terminal
/// does; otherwise the active panel.
pub fn route_key(overlay_open: bool, focus: Focus, term_open: bool) -> (r: KeyRoute)
    ensures
        r == (if overlay_open {
            KeyRoute::Overlay
        } else if focus == Focus::Term && term_open {
            KeyRoute::Term
        } else {
            KeyRoute::Panel
        }),
{
    if overlay_open {
        KeyRoute::Overlay
    } else if focus == Focus::Term && term_open {
        KeyRoute::Term
    } else {
        KeyRoute::Panel
    }
}

/// What a key does while the terminal has the focus.
#[derive(Clone, Copy, PartialEq, Eq, Debug, Structural)]
pub enum TermKey {
    /// F9 closes the terminal.
    Close,
    /// Shift-Tab gives the focus back to the panel.
    Defocus,
    /// Ctrl-O or Alt-Enter grows the terminal to the whole screen or back.
    ToggleExpand,
    /// Anything else is typed into the terminal.
    Feed,
}

/// The meaning of a key in the focused terminal.
pub fn term_key(key: KeyEvent) -> (r: TermKey)
    ensures
        r == (match key.code {
            KeyCode::F(9) => TermKey::Close,
            KeyCode::BackTab => TermKey::Defocus,
            KeyCode::Char('o') if key.modifiers.control => TermKey::ToggleExpand,
            KeyCode::Enter if key.modifiers.alt => TermKey::ToggleExpand,
            _ => TermKey::Feed,
        }),
{
    match key.code {
        KeyCode::F(9) => TermKey::Close,
        KeyCode::BackTab => TermKey::Defocus,
        KeyCode::Char('o') if key.modifiers.control => TermKey::ToggleExpand,
        KeyCode::Enter if key.modifiers.alt => TermKey::ToggleExpand,
        _ => TermKey::Feed,
    }
}

/// What a key does in a panel.
#[derive(Clone, Copy, PartialEq, Eq, Debug, Structural)]
pub enum PanelCommand {
    Quit,
    Refresh,
    OpenSources,
    ToggleTerm,
    FocusTerm,
    SwitchPane,
    /// Move the cursor by this many rows (clamped to the list).
    MoveBy(i64),
    ToTop,
    ToBottom,
    Activate,
    Back,
    Help,
    Rename,
    View,
    Edit,
    Copy,
    Move,
    MakeDir,
    Delete,
    Nothing,
}

/// The command a key stands for in a panel.
pub open spec fn panel_command_of(key: KeyEvent) -> PanelCommand {
    let ctrl = key.modifiers.control;
    match key.code {
        KeyCode::Char('q') | KeyCode::F(10) => PanelCommand::Quit,
        KeyCode::Char('c') if ctrl => PanelCommand::Quit,
        KeyCode::Char('r') if ctrl => PanelCommand::Refresh,
        KeyCode::Char('d') if ctrl => PanelCommand::OpenSources,
        KeyCode::F(9) => PanelCommand::ToggleTerm,
        KeyCode::BackTab => PanelCommand::FocusTerm,
        KeyCode::Tab => PanelCommand::SwitchPane,
        KeyCode::Up | KeyCode::Char('k') => PanelCommand::MoveBy(-1i64),
        KeyCode::Down | KeyCode::Char('j') => PanelCommand::MoveBy(1i64),
        KeyCode::PageUp => PanelCommand::MoveBy(-10i64),
        KeyCode::PageDown => PanelCommand::MoveBy(10i64),
        KeyCode::Home => PanelCommand::ToTop,
        KeyCode::End => PanelCommand::ToBottom,
        KeyCode::Enter | KeyCode::Right => PanelCommand::Activate,
        KeyCode::Backspace | KeyCode::Left => PanelCommand::Back,
        KeyCode::F(1) => PanelCommand::Help,
        KeyCode::F(2) => PanelCommand::Rename,
        KeyCode::F(3) => PanelCommand::View,
        KeyCode::F(4) => PanelCommand::Edit,
        KeyCode::F(5) => PanelCommand::Copy,
        KeyCode::F(6) => PanelCommand::Move,
        KeyCode::F(7) => PanelCommand::MakeDir,
        KeyCode::F(8) => PanelCommand::Delete,
        _ => PanelCommand::Nothing,
    }
}

/// The command a key stands for in a panel.
pub fn panel_command(key: KeyEvent) -> (r: PanelCommand)
    ensures
        r == panel_command_of(key),
{
    let ctrl = key.modifiers.control;
    match key.code {
        KeyCode::Char('q') | KeyCode::F(10) => PanelCommand::Quit,
        KeyCode::Char('c') if ctrl => PanelCommand::Quit,
        KeyCode::Char('r') if ctrl => PanelCommand::Refresh,
        KeyCode::Char('d') if ctrl => PanelCommand::OpenSources,
        KeyCode::F(9) => PanelCommand::ToggleTerm,
        KeyCode::BackTab => PanelCommand::FocusTerm,
        KeyCode::Tab => PanelCommand::SwitchPane,
        KeyCode::Up | KeyCode::Char('k') => PanelCommand::MoveBy(-1i64),
        KeyCode::Down | KeyCode::Char('j') => PanelCommand::MoveBy(1i64),
        KeyCode::PageUp => PanelCommand::MoveBy(-10i64),
        KeyCode::PageDown => PanelCommand::MoveBy(10i64),
        KeyCode::Home => PanelCommand::ToTop,
        KeyCode::End => PanelCommand::ToBottom,
        KeyCode::Enter | KeyCode::Right => PanelCommand::Activate,
        KeyCode::Backspace | KeyCode::Left => PanelCommand::Back,
        KeyCode::F(1) => PanelCommand::Help,
        KeyCode::F(2) => PanelCommand::Rename,
        KeyCode::F(3) => PanelCommand::View,
        KeyCode::F(4) => PanelCommand::Edit,
        KeyCode::F(5) => PanelCommand::Copy,
        KeyCode::F(6) => PanelCommand::Move,
        KeyCode::F(7) => PanelCommand::MakeDir,
        KeyCode::F(8) => PanelCommand::Delete,
        _ => PanelCommand::Nothing,
    }
}

/// The console's two panes and terminals, as far as keys and clicks
/// change them: the active side (0 left, 1 right), the focus, whether the
/// terminal is grown to the whole screen, which sides have a terminal open,
/// and whether the program should end.
#[derive(Clone, Copy, PartialEq, Eq, Debug, Structural)]
pub struct ConsoleState {
    pub active: usize,
    pub focus: Focus,
    pub term_expanded: bool,
    pub left_term: bool,
    pub right_term: bool,
    pub should_quit: bool,
}

impl ConsoleState {
    /// Whether `side` has a terminal open.
    pub open spec fn has_term(self, side: usize) -> bool {
        if side == 0 { self.left_term } else { self.right_term }
    }

    /// The state with the terminal of `side` open or closed.
    pub open spec fn with_term(self, side: usize, open: bool) -> ConsoleState {
        if side == 0 {
            ConsoleState { left_term: open, ..self }
        } else {
            ConsoleState { right_term: open, ..self }
        }
    }

    fn set_term(&mut self, side: usize, open: bool)
        ensures
            *final(self) == old(self).with_term(side, open),
    {
        if side == 0 {
            self.left_term = open;
        } else {
            self.right_term = open;
        }
    }

    /// Shift-Tab in the terminal: back to the panel, terminal collapsed.
    pub fn defocus_terminal(&mut self)
        ensures
            *final(self) == (ConsoleState { focus: Focus::Panel, term_expanded: false, ..*old(self) }),
    {
        self.focus = Focus::Panel;
        self.term_expanded = false;
    }

    /// F9: closes the terminal of the active side when it is open, and says
    /// whether it was (else a terminal is to be started).
    pub fn close_terminal(&mut self) -> (closed: bool)
        ensures
            closed == old(self).has_term(old(self).active),
            closed ==> *final(self) == (ConsoleState {
                focus: Focus::Panel,
                term_expanded: false,
                ..old(self).with_term(old(self).active, false)
            }),
            !closed ==> *final(self) == *old(self),
    {
        let side = self.active;
        let open = if side == 0 { self.left_term } else { self.right_term };
        if open {
            self.set_term(side, false);
            self.focus = Focus::Panel;
            self.term_expanded = false;
            true
        } else {
            false
        }
    }

    /// A terminal was started on the active side and takes the focus.
    pub fn terminal_started(&mut self)
        ensures
            *final(self) == (ConsoleState { focus: Focus::Term, ..old(self).with_term(old(self).active, true) }),
    {
        let side = self.active;
        self.set_term(side, true);
        self.focus = Focus::Term;
    }

    /// The terminal of `side` ended: it is gone, and if it was on the
    /// active side the panel takes the focus back.
    pub fn terminal_ended(&mut self, side: usize)
        ensures
            *final(self) == (ConsoleState {
                focus: if old(self).active == side { Focus::Panel } else { old(self).focus },
                ..old(self).with_term(side, false)
            }),
    {
        self.set_term(side, false);
        if self.active == side {
            self.focus = Focus::Panel;
        }
    }
}

/// Whether terminal output asks where the cursor is (`ESC [ 6 n`).
pub open spec fn asks_cursor(bytes: Seq<u8>) -> bool {
    exists|i: int| 0 <= i && i + 4 <= bytes.len() && #[trigger] bytes.subrange(i, i + 4) == seq![0x1bu8, 0x5bu8, 0x36u8, 0x6eu8]
}

/// Whether the output holds a cursor-position request.
pub fn asks_cursor_position(bytes: &Vec<u8>) -> (r: bool)
    ensures
        r == asks_cursor(bytes@),
{
    if bytes.len() < 4 {
        return false;
    }
    let last = bytes.len() - 4;
    let mut i: usize = 0;
    while i <= last
        invariant
            bytes.len() >= 4,
            last == bytes.len() - 4,
            0 <= i <= last + 1,
            forall|k: int| 0 <= k < i ==> #[trigger] bytes@.subrange(k, k + 4) != seq![0x1bu8, 0x5bu8, 0x36u8, 0x6eu8],
        decreases bytes.len() - i,
    {
        if bytes[i] == 0x1b && bytes[i + 1] == 0x5b && bytes[i + 2] == 0x36 && bytes[i + 3] == 0x6e {
            assert(bytes@.subrange(i as int, i + 4) =~= seq![0x1bu8, 0x5bu8, 0x36u8, 0x6eu8]);
            return true;
        }
        assert(bytes@.subrange(i as int, i + 4)[0] == bytes@[i as int]);
        assert(bytes@.subrange(i as int, i + 4)[1] == bytes@[i + 1]);
        assert(bytes@.subrange(i as int, i + 4)[2] == bytes@[i + 2]);
        assert(bytes@.subrange(i as int, i + 4)[3] == bytes@[i + 3]);
        i = i + 1;
    }
    false
}

/// The answer to a cursor-position request: `ESC [ row ; col R`, counted
/// from 1.
pub open spec fn cursor_report_text(row: u16, col: u16) -> Seq<char> {
    seq!['\x1b', '['] + decimal(row as nat + 1) + seq![';'] + decimal(col as nat + 1) + seq!['R']
}

/// The answer to a cursor-position request for a cursor at `row`, `col`
/// (counted from 0), as text.
pub fn cursor_report(row: u16, col: u16) -> (r: String)
    requires
        row < u16::MAX,
        col < u16::MAX,
    ensures
        r@ == cursor_report_text(row, col),
{
    let mut v: Vec<char> = Vec::new();
    v.push('\x1b');
    v.push('[');
    let a = to_decimal((row + 1) as u128);
    push_all(&mut v, &a);
    v.push(';');
    let b = to_decimal((col + 1) as u128);
    push_all(&mut v, &b);
    v.push('R');
    let r = string_of(v.as_slice());
    assert(r@ =~= cursor_report_text(row, col));
    r
}

/// The title of the terminal's frame.
pub fn term_title(focused: bool, expanded: bool) -> (r: &'static str)
    ensures
        r@ == (if !focused {
            " terminal "@
        } else if expanded {
            " terminal — Ctrl-O/Alt+Enter collapse · Shift-Tab back · F9 close "@
        } else {
            " terminal — Ctrl-O/Alt+Enter expand · Shift-Tab back · F9 close "@
        }),
{
    if !focused {
        " terminal "
    } else if expanded {
        " terminal — Ctrl-O/Alt+Enter collapse · Shift-Tab back · F9 close "
    } else {
        " terminal — Ctrl-O/Alt+Enter expand · Shift-Tab back · F9 close "
    }
}

/// Whether the terminal is drawn at all and must be told its new size:
/// nothing is drawn in an empty frame, and a resize is due when the inner
/// size differs from the last one.
pub fn term_resize_due(last_rows: u16, last_cols: u16, rows: u16, cols: u16) -> (r: (bool, bool))
    ensures
        r.0 == (rows > 0 && cols > 0),
        r.1 == (rows > 0 && cols > 0 && (last_rows != rows || last_cols != cols)),
{
    let drawn = rows > 0 && cols > 0;
    (drawn, drawn && (last_rows != rows || last_cols != cols))
}

/// What a key does in a text prompt.
#[derive(Clone, Copy, PartialEq, Eq, Debug, Structural)]
pub enum InputStep {
    Submit,
    Cancel,
    DeleteLast,
    Type(char),
    Ignore,
}

/// The meaning of a key in a text prompt.
pub fn input_step(key: KeyEvent) -> (r: InputStep)
    ensures
        r == (match key.code {
            KeyCode::Enter => InputStep::Submit,
            KeyCode::Esc => InputStep::Cancel,
            KeyCode::Backspace => InputStep::DeleteLast,
            KeyCode::Char(c) => InputStep::Type(c),
            _ => InputStep::Ignore,
        }),
{
    match key.code {
        KeyCode::Enter => InputStep::Submit,
        KeyCode::Esc => InputStep::Cancel,
        KeyCode::Backspace => InputStep::DeleteLast,
        KeyCode::Char(c) => InputStep::Type(c),
        _ => InputStep::Ignore,
    }
}

/// Applies an editing step to the prompt's text.
pub fn edit_input(value: &mut Vec<char>, step: InputStep)
    ensures
        final(value)@ == match step {
            InputStep::DeleteLast => if old(value)@.len() > 0 { old(value)@.drop_last() } else { old(value)@ },
            InputStep::Type(c) => old(value)@.push(c),
            _ => old(value)@,
        },
{
    match step {
        InputStep::DeleteLast => {
            value.pop();
        },
        InputStep::Type(c) => {
            value.push(c);
        },
        _ => {},
    }
}

/// Whether a key confirms a question: Enter, `y` or `Y`; any other key
/// dismisses it.
pub fn confirms(key: KeyEvent) -> (r: bool)
    ensures
        r == (key.code == KeyCode::Enter || key.code == KeyCode::Char('y') || key.code == KeyCode::Char('Y')),
{
    match key.code {
        KeyCode::Enter | KeyCode::Char('y') | KeyCode::Char('Y') => true,
        _ => false,
    }
}

/// What a key does in the list of sources.
#[derive(Clone, Copy, PartialEq, Eq, Debug, Structural)]
pub enum ListStep {
    /// The cursor (or scroll position) moves here.
    To(usize),
    Close,
    /// Open the entry under the cursor.
    Open,
    Ignore,
}

/// The meaning of a key in the list of sources, with the cursor at
/// `cursor` in a list of `len` entries.
pub fn sources_step(cursor: usize, len: usize, key: KeyEvent) -> (r: ListStep)
    ensures
        r == (match key.code {
            KeyCode::Up | KeyCode::Char('k') => ListStep::To(if cursor > 0 { (cursor - 1) as usize } else { 0 }),
            KeyCode::Down | KeyCode::Char('j') => ListStep::To(if cursor + 1 < len { (cursor + 1) as usize } else { cursor }),
            KeyCode::Home => ListStep::To(0),
            KeyCode::End => ListStep::To(if len > 0 { (len - 1) as usize } else { 0 }),
            KeyCode::Esc => ListStep::Close,
            KeyCode::Enter => ListStep::Open,
            _ => ListStep::Ignore,
        }),
{
    match key.code {
        KeyCode::Up | KeyCode::Char('k') => ListStep::To(cursor.saturating_sub(1)),
        KeyCode::Down | KeyCode::Char('j') => ListStep::To(
            if cursor < usize::MAX && cursor + 1 < len { cursor + 1 } else { cursor },
        ),
        KeyCode::Home => ListStep::To(0),
        KeyCode::End => ListStep::To(len.saturating_sub(1)),
        KeyCode::Esc => ListStep::Close,
        KeyCode::Enter => ListStep::Open,
        _ => ListStep::Ignore,
    }
}

/// The meaning of a key in the file viewer, scrolled to line `scroll` of
/// `lines` lines.
pub fn viewer_step(scroll: usize, lines: usize, key: KeyEvent) -> (r: ListStep)
    requires
        key.code == KeyCode::PageDown ==> scroll + 20 <= usize::MAX,
    ensures
        r == (match key.code {
            KeyCode::Up | KeyCode::Char('k') => ListStep::To(if scroll > 0 { (scroll - 1) as usize } else { 0 }),
            KeyCode::Down | KeyCode::Char('j') => ListStep::To(if scroll + 1 < lines { (scroll + 1) as usize } else { scroll }),
            KeyCode::PageUp => ListStep::To(if scroll >= 20 { (scroll - 20) as usize } else { 0 }),
            KeyCode::PageDown => ListStep::To(
                if scroll + 20 < (if lines > 0 { lines - 1 } else { 0 }) { (scroll + 20) as usize } else { (if lines > 0 { lines - 1 } else { 0 }) as usize },
            ),
            KeyCode::Home => ListStep::To(0),
            KeyCode::End => ListStep::To(if lines > 0 { (lines - 1) as usize } else { 0 }),
            KeyCode::Esc | KeyCode::Char('q') | KeyCode::F(3) | KeyCode::F(10) => ListStep::Close,
            _ => ListStep::Ignore,
        }),
{
    match key.code {
        KeyCode::Up | KeyCode::Char('k') => ListStep::To(scroll.saturating_sub(1)),
        KeyCode::Down | KeyCode::Char('j') => ListStep::To(
            if scroll < usize::MAX && scroll + 1 < lines { scroll + 1 } else { scroll },
        ),
        KeyCode::PageUp => ListStep::To(scroll.saturating_sub(20)),
        KeyCode::PageDown => {
            let last = lines.saturating_sub(1);
            let down = scroll + 20;
            ListStep::To(if down < last { down } else { last })
        },
        KeyCode::Home => ListStep::To(0),
        KeyCode::End => ListStep::To(lines.saturating_sub(1)),
        KeyCode::Esc | KeyCode::Char('q') | KeyCode::F(3) | KeyCode::F(10) => ListStep::Close,
        _ => ListStep::Ignore,
    }
}

/// A rectangle of terminal cells.
#[derive(Clone, Copy, PartialEq, Eq, Debug, Structural)]
pub struct Rect {
    pub x: u16,
    pub y: u16,
    pub width: u16,
    pub height: u16,
}

/// `a + b`, stopping at the largest `u16`.
pub open spec fn sat_add(a: u16, b: u16) -> u16 {
    if a + b > u16::MAX { u16::MAX } else { (a + b) as u16 }
}

impl Rect {
    /// Whether the cell at column `x`, row `y` lies inside (the far edges,
    /// at `x + width` and `y + height`, stop at the largest `u16`).
    pub open spec fn holds(self, x: u16, y: u16) -> bool {
        self.x <= x < sat_add(self.x, self.width) && self.y <= y < sat_add(self.y, self.height)
    }

    /// Whether the cell at column `x`, row `y` lies inside.
    pub fn contains(&self, x: u16, y: u16) -> (r: bool)
        ensures
            r == self.holds(x, y),
    {
        let right = self.x.saturating_add(self.width);
        let bottom = self.y.saturating_add(self.height);
        self.x <= x && x < right && self.y <= y && y < bottom
    }
}

/// What a mouse click hits.
#[derive(Clone, Copy, PartialEq, Eq, Debug, Structural)]
pub enum ClickTarget {
    /// An overlay is open: clicks do nothing.
    Ignored,
    /// The terminal of this side takes the focus.
    Terminal(usize),
    /// The file list of `side`; `row` is the data row hit, counted from the
    /// first visible one, when the click is below the header.
    List { side: usize, row: Option<u16> },
    /// A key of the footer.
    Footer(usize),
    Nothing,
}

/// The first footer key under the click.
pub open spec fn first_footer(rects: Seq<Rect>, x: u16, y: u16) -> Option<int>
    decreases rects.len(),
{
    if rects.len() == 0 {
        None
    } else {
        match first_footer(rects.drop_last(), x, y) {
            Some(i) => Some(i),
            None => if rects.last().holds(x, y) { Some(rects.len() - 1) } else { None },
        }
    }
}

/// The list row hit by a click in list `r` (its top border and header take
/// two rows).
pub open spec fn list_hit(side: usize, r: Rect, y: u16) -> ClickTarget {
    ClickTarget::List { side, row: if y >= r.y + 2 { Some((y - (r.y + 2)) as u16) } else { None } }
}

/// What a click at column `x`, row `y` hits: terminals first, then the file
/// lists, then the footer keys.
pub open spec fn click_target_of(
    overlay_open: bool,
    state: ConsoleState,
    term_rects: (Rect, Rect),
    list_rects: (Rect, Rect),
    footer: Seq<Rect>,
    x: u16,
    y: u16,
) -> ClickTarget {
    if overlay_open {
        ClickTarget::Ignored
    } else if state.left_term && term_rects.0.holds(x, y) {
        ClickTarget::Terminal(0)
    } else if state.right_term && term_rects.1.holds(x, y) {
        ClickTarget::Terminal(1)
    } else if list_rects.0.holds(x, y) {
        list_hit(0, list_rects.0, y)
    } else if list_rects.1.holds(x, y) {
        list_hit(1, list_rects.1, y)
    } else {
        match first_footer(footer, x, y) {
            Some(i) => ClickTarget::Footer(i as usize),
            None => ClickTarget::Nothing,
        }
    }
}

fn list_row(r: &Rect, y: u16) -> (row: Option<u16>)
    requires
        r.y + 2 <= u16::MAX,
    ensures
        row == (if y >= r.y + 2 { Some((y - (r.y + 2)) as u16) } else { None::<u16> }),
{
    let top = r.y + 2;
    if y >= top { Some(y - top) } else { None }
}

/// Where a click lands.
pub fn click_target(
    overlay_open: bool,
    state: &ConsoleState,
    term_rects: (Rect, Rect),
    list_rects: (Rect, Rect),
    footer: &Vec<Rect>,
    x: u16,
    y: u16,
) -> (r: ClickTarget)
    requires
        list_rects.0.holds(x, y) ==> list_rects.0.y + 2 <= u16::MAX,
        list_rects.1.holds(x, y) ==> list_rects.1.y + 2 <= u16::MAX,
    ensures
        r == click_target_of(overlay_open, *state, term_rects, list_rects, footer@, x, y),
{
    if overlay_open {
        return ClickTarget::Ignored;
    }
    if state.left_term && term_rects.0.contains(x, y) {
        return ClickTarget::Terminal(0);
    }
    if state.right_term && term_rects.1.contains(x, y) {
        return ClickTarget::Terminal(1);
    }
    if list_rects.0.contains(x, y) {
        return ClickTarget::List { side: 0, row: list_row(&list_rects.0, y) };
    }
    if list_rects.1.contains(x, y) {
        return ClickTarget::List { side: 1, row: list_row(&list_rects.1, y) };
    }
    match footer_hit(footer, x, y) {
        Some(i) => ClickTarget::Footer(i),
        None => ClickTarget::Nothing,
    }
}

fn footer_hit(footer: &Vec<Rect>, x: u16, y: u16) -> (r: Option<usize>)
    ensures
        match r {
            Some(i) => first_footer(footer@, x, y) == Some(i as int),
            None => first_footer(footer@, x, y) is None,
        },
{
    let mut i: usize = 0;
    while i < footer.len()
        invariant
            0 <= i <= footer.len(),
            first_footer(footer@.take(i as int), x, y) is None,
        decreases footer.len() - i,
    {
        assert(footer@.take(i + 1).drop_last() =~= footer@.take(i as int));
        if footer[i].contains(x, y) {
            proof {
                lemma_first_footer_prefix(footer@, x, y, i + 1);
            }
            return Some(i);
        }
        i = i + 1;
    }
    assert(footer@.take(footer@.len() as int) =~= footer@);
    None
}

proof fn lemma_first_footer_prefix(rects: Seq<Rect>, x: u16, y: u16, k: int)
    requires
        0 <= k <= rects.len(),
        first_footer(rects.take(k), x, y) is Some,
    ensures
        first_footer(rects, x, y) == first_footer(rects.take(k), x, y),
    decreases rects.len() - k,
{
    if k < rects.len() {
        assert(rects.take(k + 1).drop_last() =~= rects.take(k));
        lemma_first_footer_prefix(rects, x, y, k + 1);
    } else {
        assert(rects.take(k) =~= rects);
    }
}

/// The row a click selects in a list scrolled by `offset` with `len` rows:
/// the visible row hit, when there is one.
pub fn clicked_row(offset: usize, visible: u16, len: usize) -> (r: Option<usize>)
    requires
        offset + visible <= usize::MAX,
    ensures
        r == (if offset + visible < len { Some((offset + visible) as usize) } else { None::<usize> }),
{
    let idx = offset + visible as usize;
    if idx < len { Some(idx) } else { None }
}

/// What Enter does on a row of a panel.
#[derive(Clone, Copy, PartialEq, Eq, Debug, Structural)]
pub enum RowAction {
    GoUp,
    Enter,
    Nothing,
}

/// The `..` row goes up; a folder or an archive is entered; a plain file is
/// left alone.
pub fn row_action(is_parent: bool, is_dir: bool, is_archive: bool) -> (r: RowAction)
    ensures
        r == (if is_parent { RowAction::GoUp } else if is_dir || is_archive { RowAction::Enter } else { RowAction::Nothing }),
{
    if is_parent {
        RowAction::GoUp
    } else if is_dir || is_archive {
        RowAction::Enter
    } else {
        RowAction::Nothing
    }
}

/// Backspace at the top level of a source opens the list of sources;
/// deeper, it goes up one level.
pub fn back_opens_sources(depth: usize) -> (r: bool)
    ensures
        r == (depth == 1),
{
    depth == 1
}

/// Whether a start path is the file-system root (or none at all).
pub fn is_root_path(path: &str) -> (r: bool)
    ensures
        r == (path@ == "/"@ || path@.len() == 0),
{
    same_text(path, "/") || path.is_empty()
}

/// What a source of the console opens.
pub enum ConsoleSourceKind {
    Local(String),
    Net(FtpConnection),
    Peer { peer_id: String, resource_id: String },
}

/// An entry of the console's list of sources.
pub struct ConsoleSource {
    pub label: String,
    pub subtitle: String,
    pub online: bool,
    pub kind: ConsoleSourceKind,
}

/// What a source opens, as plain values.
pub enum SourceKindView {
    Local(Seq<char>),
    Net(ConnView),
    Peer(Seq<char>, Seq<char>),
}

/// A console source as plain values.
pub struct ConsoleSourceView {
    pub label: Seq<char>,
    pub subtitle: Seq<char>,
    pub online: bool,
    pub kind: SourceKindView,
}

impl View for ConsoleSource {
    type V = ConsoleSourceView;

    open spec fn view(&self) -> ConsoleSourceView {
        ConsoleSourceView {
            label: self.label@,
            subtitle: self.subtitle@,
            online: self.online,
            kind: match self.kind {
                ConsoleSourceKind::Local(p) => SourceKindView::Local(p@),
                ConsoleSourceKind::Net(c) => SourceKindView::Net(c@),
                ConsoleSourceKind::Peer { peer_id, resource_id } => SourceKindView::Peer(peer_id@, resource_id@),
            },
        }
    }
}

/// The views of a list of console sources.
pub open spec fn console_views(v: Seq<ConsoleSource>) -> Seq<ConsoleSourceView> {
    v.map_values(|s: ConsoleSource| s@)
}

/// The source of a local drive.
pub open spec fn drive_source(d: LocalDriveInfo) -> ConsoleSourceView {
    ConsoleSourceView { label: d.name@, subtitle: d.path@, online: d.is_mounted, kind: SourceKindView::Local(d.path@) }
}

/// The source of a saved connection: `protocol user@host` below its name.
pub open spec fn net_source(c: ConnView) -> ConsoleSourceView {
    ConsoleSourceView {
        label: c.name,
        subtitle: lowercase(c.protocol) + " "@ + c.user + "@"@ + c.host,
        online: true,
        kind: SourceKindView::Net(c),
    }
}

/// The source of a peer's drive.
pub open spec fn peer_source(p: SourceView) -> ConsoleSourceView {
    ConsoleSourceView { label: p.name, subtitle: p.subtitle, online: p.is_online, kind: SourceKindView::Peer(p.peer_id, p.resource_id) }
}

/// The console's sources: the root, the home folder when there is one,
/// the local drives, the saved connections and the peers' drives.
pub open spec fn console_sources(
    home: Option<Seq<char>>,
    drives: Seq<LocalDriveInfo>,
    conns: Seq<ConnView>,
    peers: Seq<SourceView>,
) -> Seq<ConsoleSourceView> {
    seq![ConsoleSourceView { label: "/"@, subtitle: "root"@, online: true, kind: SourceKindView::Local("/"@) }]
        + match home {
            Some(h) => seq![ConsoleSourceView { label: "~"@, subtitle: h, online: true, kind: SourceKindView::Local(h) }],
            None => Seq::empty(),
        }
        + drives.map_values(|d: LocalDriveInfo| drive_source(d))
        + conns.map_values(|c: ConnView| net_source(c))
        + peers.map_values(|p: SourceView| peer_source(p))
}

/// Builds the list of sources the console offers.
pub fn build_sources(
    home: Option<String>,
    drives: &Vec<LocalDriveInfo>,
    conns: &Vec<FtpConnection>,
    peers: Vec<P2pSource>,
) -> (r: Vec<ConsoleSource>)
    ensures
        console_views(r@) == console_sources(opt_text(home), drives@, conn_views(conns@), source_views(peers@)),
{
    let mut v: Vec<ConsoleSource> = Vec::new();
    v.push(ConsoleSource { label: "/".to_owned(), subtitle: "root".to_owned(), online: true, kind: ConsoleSourceKind::Local("/".to_owned()) });
    let ghost hv = opt_text(home);
    match home {
        Some(h) => {
            v.push(ConsoleSource { label: "~".to_owned(), subtitle: h.clone(), online: true, kind: ConsoleSourceKind::Local(h) });
        },
        None => {},
    }
    let ghost head = console_views(v@);
    assert(head =~= seq![ConsoleSourceView { label: "/"@, subtitle: "root"@, online: true, kind: SourceKindView::Local("/"@) }]
        + match hv {
            Some(h) => seq![ConsoleSourceView { label: "~"@, subtitle: h, online: true, kind: SourceKindView::Local(h) }],
            None => Seq::empty(),
        });
    let mut i: usize = 0;
    while i < drives.len()
        invariant
            0 <= i <= drives.len(),
            console_views(v@) == head + drives@.take(i as int).map_values(|d: LocalDriveInfo| drive_source(d)),
        decreases drives.len() - i,
    {
        let d = &drives[i];
        let ghost prev = v@;
        v.push(ConsoleSource { label: d.name.clone(), subtitle: d.path.clone(), online: d.is_mounted, kind: ConsoleSourceKind::Local(d.path.clone()) });
        assert(console_views(v@) =~= console_views(prev).push(drive_source(drives@[i as int])));
        assert(drives@.take(i + 1).map_values(|d: LocalDriveInfo| drive_source(d)) =~= drives@.take(i as int).map_values(
            |d: LocalDriveInfo| drive_source(d),
        ).push(drive_source(drives@[i as int])));
        i = i + 1;
    }
    assert(drives@.take(drives@.len() as int) =~= drives@);
    let ghost head2 = console_views(v@);
    let ghost cv = conn_views(conns@);
    let mut j: usize = 0;
    while j < conns.len()
        invariant
            0 <= j <= conns.len(),
            cv == conn_views(conns@),
            console_views(v@) == head2 + cv.take(j as int).map_values(|c: ConnView| net_source(c)),
        decreases conns.len() - j,
    {
        let c = &conns[j];
        let low = to_lowercase(c.protocol.as_str());
        let mut sub: Vec<char> = Vec::new();
        push_str(&mut sub, low.as_str());
        push_str(&mut sub, " ");
        push_str(&mut sub, c.user.as_str());
        push_str(&mut sub, "@");
        push_str(&mut sub, c.host.as_str());
        let ghost prev = v@;
        v.push(ConsoleSource { label: c.name.clone(), subtitle: string_of(sub.as_slice()), online: true, kind: ConsoleSourceKind::Net(c.duplicate()) });
        assert(console_views(v@) =~= console_views(prev).push(net_source(cv[j as int])));
        assert(cv.take(j + 1).map_values(|c: ConnView| net_source(c)) =~= cv.take(j as int).map_values(|c: ConnView| net_source(c)).push(
            net_source(cv[j as int]),
        ));
        j = j + 1;
    }
    assert(cv.take(cv.len() as int) =~= cv);
    let ghost head3 = console_views(v@);
    let ghost pv = source_views(peers@);
    let n = peers.len();
    let mut k: usize = 0;
    for p in it: peers
        invariant
            pv == source_views(it.seq()),
            k == it.index(),
            k <= pv.len() == n,
            console_views(v@) == head3 + pv.take(k as int).map_values(|p: SourceView| peer_source(p)),
    {
        let ghost x = p@;
        let ghost prev = v@;
        v.push(ConsoleSource { label: p.name, subtitle: p.subtitle, online: p.is_online, kind: ConsoleSourceKind::Peer { peer_id: p.peer_id, resource_id: p.resource_id } });
        assert(pv.take(k + 1) =~= pv.take(k as int).push(x));
        assert(console_views(v@) =~= console_views(prev).push(peer_source(x)));
        assert(pv.take(k + 1).map_values(|p: SourceView| peer_source(p)) =~= pv.take(k as int).map_values(|p: SourceView| peer_source(p)).push(
            peer_source(x),
        ));
        k = k + 1;
    }
    assert(pv.take(pv.len() as int) =~= pv);
    v
}

/// The provider the console opens a saved connection with; any protocol
/// but FTP, WebDAV and SFTP is refused with its (upper-cased) name.
pub fn console_provider(protocol: &str) -> (r: Result<MountKind, String>)
    ensures
        match r {
            Ok(k) => (uppercase(protocol@) == "FTP"@ && k == MountKind::Ftp) || (uppercase(protocol@) == "WEBDAV"@ && k
                == MountKind::Webdav) || (uppercase(protocol@) == "SFTP"@ && k == MountKind::Sftp),
            Err(e) => e@ == uppercase(protocol@) && uppercase(protocol@) != "FTP"@ && uppercase(protocol@) != "WEBDAV"@
                && uppercase(protocol@) != "SFTP"@,
        },
{
    let up = to_uppercase(protocol);
    if same_text(up.as_str(), "FTP") {
        Ok(MountKind::Ftp)
    } else if same_text(up.as_str(), "WEBDAV") {
        Ok(MountKind::Webdav)
    } else if same_text(up.as_str(), "SFTP") {
        Ok(MountKind::Sftp)
    } else {
        Err(up)
    }
}

/// The folder a connection opens at: its remote path, unless that is empty
/// or the root.
pub fn console_start_path(remote_path: &Option<String>) -> (r: Option<String>)
    ensures
        opt_text(r) == match opt_text(*remote_path) {
            Some(p) => if p.len() > 0 && p != "/"@ { Some(p) } else { None },
            None => None,
        },
{
    match remote_path {
        Some(p) => if !p.as_str().is_empty() && !same_text(p.as_str(), "/") { Some(p.clone()) } else { None },
        None => None,
    }
}

/// Why a peer cannot be opened: it shares no folder.
pub fn peer_connect_error(resource_id: &str) -> (r: Option<&'static str>)
    ensures
        match r {
            Some(m) => resource_id@.len() == 0 && m@ == "this peer shares no filesystem"@,
            None => resource_id@.len() > 0,
        },
{
    if resource_id.is_empty() {
        Some("this peer shares no filesystem")
    } else {
        None
    }
}


/// The provider a console pane browses.
pub enum PaneProvider {
    /// The local disk.
    Local,
    /// A saved connection, opened with the given provider.
    Net(MountKind),
    /// A resource that a peer shares.
    Peer { peer_id: String, resource_id: String },
}

/// A console pane as opening a source changes it: its provider, the folder
/// it is at (`None` for the provider's root), whether it shows the list of
/// sources, and the selected row.
pub struct ConsolePane {
    pub provider: PaneProvider,
    pub path: Option<String>,
    pub showing_selector: bool,
    pub selected: Option<usize>,
}

/// The provider the console opens a protocol with, if it knows it.
pub open spec fn net_provider(protocol: Seq<char>) -> Option<MountKind> {
    let up = uppercase(protocol);
    if up == "FTP"@ {
        Some(MountKind::Ftp)
    } else if up == "WEBDAV"@ {
        Some(MountKind::Webdav)
    } else if up == "SFTP"@ {
        Some(MountKind::Sftp)
    } else {
        None
    }
}

/// Opens a saved connection (of the given protocol and remote path) in the
/// active pane: the pane switches to the connection's provider, leaves the
/// list of sources, stands at the remote path (the root when that is empty
/// or `/`) and selects its first row. A protocol the console does not know
/// leaves the pane as it was and gives the message to show: titled
/// `Unknown protocol`, naming the protocol in upper case.
pub fn connect_net(pane: &mut ConsolePane, protocol: &str, remote_path: &Option<String>) -> (msg: Option<(String, String)>)
    ensures
        match net_provider(protocol@) {
            Some(k) => {
                &&& msg is None
                &&& final(pane).provider == PaneProvider::Net(k)
                &&& !final(pane).showing_selector
                &&& final(pane).selected == Some(0usize)
                &&& opt_text(final(pane).path) == match opt_text(*remote_path) {
                    Some(p) => if p.len() > 0 && p != "/"@ { Some(p) } else { None },
                    None => None,
                }
            },
            None => {
                &&& *final(pane) == *old(pane)
                &&& msg matches Some((title, body)) && title@ == "Unknown protocol"@ && body@ == uppercase(protocol@)
            },
        },
{
    proof {
        reveal_strlit("FTP");
        reveal_strlit("WEBDAV");
        reveal_strlit("SFTP");
        assert("FTP"@.len() == 3 && "WEBDAV"@.len() == 6 && "SFTP"@.len() == 4);
    }
    match console_provider(protocol) {
        Ok(k) => {
            pane.provider = PaneProvider::Net(k);
            pane.showing_selector = false;
            pane.path = console_start_path(remote_path);
            pane.selected = Some(0);
            None
        },
        Err(up) => Some(("Unknown protocol".to_owned(), up)),
    }
}

} // verus!
