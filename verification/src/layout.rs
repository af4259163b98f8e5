use vstd::prelude::*;
use crate::window_keys::ActivePanelSide;

verus! {

/// How the two panels share the window: which side, if any, has its
/// terminal grown over both panels, the divider position to go back to,
/// and whether each side's player was on show when it was grown.
pub struct PanelLayout {
    pub expanded: Option<ActivePanelSide>,
    pub saved_position: i32,
    pub saved_player_left: bool,
    pub saved_player_right: bool,
}

/// What growing a side's terminal does.
pub struct ExpandStep {
    /// The side that was grown before and is put back first.
    pub collapse_first: Option<ActivePanelSide>,
    /// The divider position restored when putting that side back.
    pub restore_position: i32,
}

/// What putting a grown terminal back does.
pub struct CollapseStep {
    pub side: ActivePanelSide,
    /// The divider goes back here.
    pub restore_position: i32,
    /// Whether the side's player was on show when its terminal was grown.
    pub player_was_visible: bool,
}

/// Whether a side is one of the two panels.
pub open spec fn is_panel(side: ActivePanelSide) -> bool {
    side == ActivePanelSide::Left || side == ActivePanelSide::Right
}

/// The layout once `side` is grown from `l` (for a panel side not grown
/// yet): the divider position is remembered only when nothing was grown.
pub open spec fn grown_layout(l: PanelLayout, side: ActivePanelSide, position: i32, player_visible: bool) -> PanelLayout {
    PanelLayout {
        expanded: Some(side),
        saved_position: if l.expanded is None { position } else { l.saved_position },
        saved_player_left: if side == ActivePanelSide::Left { player_visible } else { l.saved_player_left },
        saved_player_right: if side == ActivePanelSide::Right { player_visible } else { l.saved_player_right },
    }
}

/// The layout once the grown terminal is put back.
pub open spec fn collapsed_layout(l: PanelLayout) -> PanelLayout {
    PanelLayout { expanded: None, ..l }
}

impl PanelLayout {
    /// Whether the layout is consistent: only a panel side is grown.
    pub open spec fn wf(&self) -> bool {
        self.expanded matches Some(s) ==> is_panel(s)
    }

    /// Nothing is grown; the divider starts at half the window's width.
    pub fn new(initial_width: i32) -> (r: Self)
        requires
            initial_width >= 0,
        ensures
            r.wf(),
            r.expanded is None,
            r.saved_position == initial_width / 2,
            !r.saved_player_left,
            !r.saved_player_right,
    {
        PanelLayout { expanded: None, saved_position: initial_width / 2, saved_player_left: false, saved_player_right: false }
    }

    /// Puts the grown terminal back: the other panel returns and the
    /// divider goes back where it was before anything was grown. Nothing
    /// happens when nothing is grown.
    pub fn collapse(&mut self) -> (r: Option<CollapseStep>)
        requires
            old(self).wf(),
        ensures
            final(self).wf(),
            *final(self) == collapsed_layout(*old(self)),
            match old(self).expanded {
                None => r is None,
                Some(side) => r matches Some(step) && step.side == side && step.restore_position == old(self).saved_position
                    && step.player_was_visible == (if side == ActivePanelSide::Left {
                    old(self).saved_player_left
                } else {
                    old(self).saved_player_right
                }),
            },
    {
        match self.expanded {
            None => None,
            Some(side) => {
                let player_was_visible = if side == ActivePanelSide::Left {
                    self.saved_player_left
                } else {
                    self.saved_player_right
                };
                self.expanded = None;
                Some(CollapseStep { side, restore_position: self.saved_position, player_was_visible })
            },
        }
    }

    /// Grows `side`'s terminal over both panels. `position` is where the
    /// divider stands now and `player_visible` whether the side's player is
    /// on show. Nothing happens for a side that is no panel or that is
    /// grown already; a side grown before is put back first.
    pub fn expand(&mut self, side: ActivePanelSide, position: i32, player_visible: bool) -> (r: Option<ExpandStep>)
        requires
            old(self).wf(),
        ensures
            final(self).wf(),
            !is_panel(side) || old(self).expanded == Some(side) ==> r is None && *final(self) == *old(self),
            is_panel(side) && old(self).expanded != Some(side) ==> {
                &&& r matches Some(step) && step.collapse_first == old(self).expanded
                    && step.restore_position == old(self).saved_position
                &&& *final(self) == grown_layout(*old(self), side, position, player_visible)
            },
    {
        if side == ActivePanelSide::Neither {
            return None;
        }
        if self.expanded == Some(side) {
            return None;
        }
        let restore_position = self.saved_position;
        let collapse_first = self.expanded;
        if self.expanded.is_none() {
            self.saved_position = position;
        }
        if side == ActivePanelSide::Left {
            self.saved_player_left = player_visible;
        } else {
            self.saved_player_right = player_visible;
        }
        self.expanded = Some(side);
        Some(ExpandStep { collapse_first, restore_position })
    }

    /// Whether a side's expand button puts its terminal back (when it is
    /// grown) rather than growing it.
    pub fn button_collapses(&self, side: ActivePanelSide) -> (r: bool)
        ensures
            r == (self.expanded == Some(side)),
    {
        self.expanded == Some(side)
    }

    /// Whether hiding `side`'s terminal puts the grown terminal back: only
    /// when that side is the grown one.
    pub fn terminal_hidden_collapses(&self, side: ActivePanelSide) -> (r: bool)
        ensures
            r == (self.expanded == Some(side)),
    {
        self.expanded == Some(side)
    }
}

/// Growing a terminal and putting it back brings the divider back to
/// where it stood before anything was grown and leaves nothing grown,
/// also when the other side was grown in between.
pub proof fn law_expand_collapse_restores(
    start: PanelLayout,
    first: ActivePanelSide,
    second: ActivePanelSide,
    position: i32,
    later_position: i32,
    player_visible: bool,
)
    requires
        start.wf(),
        start.expanded is None,
        is_panel(first),
        is_panel(second),
        first != second,
    ensures
        ({
            let grown = grown_layout(start, first, position, player_visible);
            &&& grown.wf()
            &&& collapsed_layout(grown).expanded is None
            &&& collapsed_layout(grown).saved_position == position
            &&& grown_layout(grown, second, later_position, player_visible).saved_position == position
            &&& collapsed_layout(grown_layout(grown, second, later_position, player_visible)).saved_position == position
        }),
{
}

/// The divider of a side once its terminal is put back: the player's share
/// when the player is (or was) on show, else the terminal's.
pub fn collapsed_divider(height: i32, player_visible: bool, saved_player_visible: bool) -> (r: i32)
    requires
        0 <= height,
        player_visible || saved_player_visible ==> height * 3 <= i32::MAX,
        !(player_visible || saved_player_visible) ==> height * 2 <= i32::MAX,
    ensures
        r == (if player_visible || saved_player_visible { height * 3 / 5 } else { height * 2 / 3 }),
{
    if player_visible || saved_player_visible {
        height * 3 / 5
    } else {
        height * 2 / 3
    }
}

/// Whether the player comes back when a grown terminal is put back: when
/// it was on show and still has tracks.
pub fn player_returns(saved_player_visible: bool, playlist_len: usize) -> (r: bool)
    ensures
        r == (saved_player_visible && playlist_len > 0),
{
    saved_player_visible && playlist_len > 0
}

/// The active panel after the focus moves: the panel that holds the focus,
/// or the same one when the focus is in neither.
pub fn active_after_focus(in_left: bool, in_right: bool, current: ActivePanelSide) -> (r: ActivePanelSide)
    ensures
        r == (if in_left {
            ActivePanelSide::Left
        } else if in_right {
            ActivePanelSide::Right
        } else {
            current
        }),
{
    if in_left {
        ActivePanelSide::Left
    } else if in_right {
        ActivePanelSide::Right
    } else {
        current
    }
}

/// Which of the two panels look active: the active side only.
pub fn active_classes(side: ActivePanelSide) -> (r: (bool, bool))
    ensures
        r == (side == ActivePanelSide::Left, side == ActivePanelSide::Right),
{
    (side == ActivePanelSide::Left, side == ActivePanelSide::Right)
}

} // verus!
