//! The application controller: live UI state and the divider-drag
//! interaction. A drag session starts on pointer-down over a divider,
//! recomputes the clamped panel dimension on every pointer-move, and ends on
//! pointer-up.

use vstd::prelude::*;

use crate::state::BOTTOM_PANEL_MAX_HEIGHT;
use crate::state::BOTTOM_PANEL_MIN_HEIGHT;
use crate::state::LEFT_PANEL_MAX_WIDTH;
use crate::state::LEFT_PANEL_MIN_WIDTH;

verus! {

/// Clamps `v` to the interval `[lo, hi]`, assuming `lo <= hi`.
pub open spec fn clamped(v: int, lo: int, hi: int) -> int {
    if v < lo {
        lo
    } else if v > hi {
        hi
    } else {
        v
    }
}

/// Every clamped left-panel width lies in the panel's bounds, whatever the
/// starting width and the drag delta.
pub proof fn lemma_left_width_clamp_in_range(w: int, d: int)
    ensures
        LEFT_PANEL_MIN_WIDTH <= clamped(w + d, LEFT_PANEL_MIN_WIDTH as int, LEFT_PANEL_MAX_WIDTH as int)
            <= LEFT_PANEL_MAX_WIDTH,
{
}

/// Every clamped bottom-panel height lies in the panel's bounds, whatever the
/// starting height and the drag delta.
pub proof fn lemma_bottom_height_clamp_in_range(h: int, d: int)
    ensures
        BOTTOM_PANEL_MIN_HEIGHT <= clamped(
            h + d,
            BOTTOM_PANEL_MIN_HEIGHT as int,
            BOTTOM_PANEL_MAX_HEIGHT as int,
        ) <= BOTTOM_PANEL_MAX_HEIGHT,
{
}

/// Live state of the window's interactive regions: the selected tab of each
/// tab region, the current panel sizes, and the transient drag session.
pub struct IDEApplication {
    pub selected_left_tab: usize,
    pub selected_main_tab: usize,
    pub selected_bottom_tab: usize,
    pub left_panel_width: i32,
    pub bottom_panel_height: i32,
    pub is_dragging_left_divider: bool,
    pub is_dragging_bottom_divider: bool,
    pub drag_start_x: Option<i32>,
    pub drag_start_y: Option<i32>,
}

impl IDEApplication {
    /// The controller's invariant: both panel dimensions lie in their clamp
    /// bounds.
    pub open spec fn wf(self) -> bool {
        &&& LEFT_PANEL_MIN_WIDTH <= self.left_panel_width <= LEFT_PANEL_MAX_WIDTH
        &&& BOTTOM_PANEL_MIN_HEIGHT <= self.bottom_panel_height <= BOTTOM_PANEL_MAX_HEIGHT
    }

    /// The state a fresh controller starts in: default panel sizes, first tab
    /// of every region selected, no drag in progress.
    pub open spec fn initial() -> IDEApplication {
        IDEApplication {
            selected_left_tab: 0,
            selected_main_tab: 0,
            selected_bottom_tab: 0,
            left_panel_width: 300,
            bottom_panel_height: 200,
            is_dragging_left_divider: false,
            is_dragging_bottom_divider: false,
            drag_start_x: None,
            drag_start_y: None,
        }
    }

    pub fn new() -> (r: Self)
        ensures
            r == Self::initial(),
            r.wf(),
    {
        IDEApplication {
            selected_left_tab: 0,
            selected_main_tab: 0,
            selected_bottom_tab: 0,
            left_panel_width: 300,
            bottom_panel_height: 200,
            is_dragging_left_divider: false,
            is_dragging_bottom_divider: false,
            drag_start_x: None,
            drag_start_y: None,
        }
    }

    /// Begins a left-divider drag at pointer position `x`. Starting a drag
    /// while one is already active simply overwrites the origin.
    pub fn start_left_divider_drag(&mut self, x: i32)
        ensures
            *final(self) == (IDEApplication {
                is_dragging_left_divider: true,
                drag_start_x: Some(x),
                ..*old(self)
            }),
    {
        self.is_dragging_left_divider = true;
        self.drag_start_x = Some(x);
    }

    /// Begins a bottom-divider drag at pointer position `y`.
    pub fn start_bottom_divider_drag(&mut self, y: i32)
        ensures
            *final(self) == (IDEApplication {
                is_dragging_bottom_divider: true,
                drag_start_y: Some(y),
                ..*old(self)
            }),
    {
        self.is_dragging_bottom_divider = true;
        self.drag_start_y = Some(y);
    }

    /// The width the left panel takes after a pointer-move to `x`: the delta
    /// from the recorded origin is added to the current width and the sum is
    /// clamped to the panel's bounds. A missing origin counts as a zero
    /// delta.
    pub open spec fn left_width_after_move(self, x: i32) -> int {
        let start = match self.drag_start_x {
            Some(sx) => sx as int,
            None => x as int,
        };
        clamped(
            self.left_panel_width + (x - start),
            LEFT_PANEL_MIN_WIDTH as int,
            LEFT_PANEL_MAX_WIDTH as int,
        )
    }

    /// The height the bottom panel takes after a pointer-move to `y`. The
    /// delta's sign is inverted: dragging upward (decreasing `y`) increases
    /// the height.
    pub open spec fn bottom_height_after_move(self, y: i32) -> int {
        let start = match self.drag_start_y {
            Some(sy) => sy as int,
            None => y as int,
        };
        clamped(
            self.bottom_panel_height + (start - y),
            BOTTOM_PANEL_MIN_HEIGHT as int,
            BOTTOM_PANEL_MAX_HEIGHT as int,
        )
    }

    /// Handles a pointer-move to `x` during a left-divider drag: recomputes
    /// the clamped width and moves the origin to `x`. Does nothing when no
    /// left drag is active.
    pub fn update_left_panel_width(&mut self, x: i32)
        ensures
            old(self).is_dragging_left_divider ==> *final(self) == (IDEApplication {
                left_panel_width: old(self).left_width_after_move(x) as i32,
                drag_start_x: Some(x),
                ..*old(self)
            }),
            !old(self).is_dragging_left_divider ==> *final(self) == *old(self),
            LEFT_PANEL_MIN_WIDTH <= final(self).left_panel_width <= LEFT_PANEL_MAX_WIDTH
                || final(self).left_panel_width == old(self).left_panel_width,
            old(self).wf() ==> final(self).wf(),
    {
        if self.is_dragging_left_divider {
            let start: i32 = match self.drag_start_x {
                Some(sx) => sx,
                None => x,
            };
            let delta: i64 = x as i64 - start as i64;
            let target: i64 = self.left_panel_width as i64 + delta;
            let new_width: i32 = if target < LEFT_PANEL_MIN_WIDTH as i64 {
                LEFT_PANEL_MIN_WIDTH
            } else if target > LEFT_PANEL_MAX_WIDTH as i64 {
                LEFT_PANEL_MAX_WIDTH
            } else {
                target as i32
            };
            self.left_panel_width = new_width;
            self.drag_start_x = Some(x);
        }
    }

    /// Handles a pointer-move to `y` during a bottom-divider drag: recomputes
    /// the clamped height and moves the origin to `y`. Does nothing when no
    /// bottom drag is active.
    pub fn update_bottom_panel_height(&mut self, y: i32)
        ensures
            old(self).is_dragging_bottom_divider ==> *final(self) == (IDEApplication {
                bottom_panel_height: old(self).bottom_height_after_move(y) as i32,
                drag_start_y: Some(y),
                ..*old(self)
            }),
            !old(self).is_dragging_bottom_divider ==> *final(self) == *old(self),
            BOTTOM_PANEL_MIN_HEIGHT <= final(self).bottom_panel_height <= BOTTOM_PANEL_MAX_HEIGHT
                || final(self).bottom_panel_height == old(self).bottom_panel_height,
            old(self).wf() ==> final(self).wf(),
    {
        if self.is_dragging_bottom_divider {
            let start: i32 = match self.drag_start_y {
                Some(sy) => sy,
                None => y,
            };
            let delta: i64 = start as i64 - y as i64;
            let target: i64 = self.bottom_panel_height as i64 + delta;
            let new_height: i32 = if target < BOTTOM_PANEL_MIN_HEIGHT as i64 {
                BOTTOM_PANEL_MIN_HEIGHT
            } else if target > BOTTOM_PANEL_MAX_HEIGHT as i64 {
                BOTTOM_PANEL_MAX_HEIGHT
            } else {
                target as i32
            };
            self.bottom_panel_height = new_height;
            self.drag_start_y = Some(y);
        }
    }

    /// Ends any drag session: called on every pointer-up, whichever divider
    /// (if any) was active. Both drag flags end up false and both origins
    /// unset, whatever the prior state; nothing else changes.
    pub fn stop_dragging(&mut self)
        ensures
            *final(self) == (IDEApplication {
                is_dragging_left_divider: false,
                is_dragging_bottom_divider: false,
                drag_start_x: None,
                drag_start_y: None,
                ..*old(self)
            }),
            !final(self).is_dragging_left_divider,
            !final(self).is_dragging_bottom_divider,
            final(self).drag_start_x is None,
            final(self).drag_start_y is None,
    {
        self.is_dragging_left_divider = false;
        self.is_dragging_bottom_divider = false;
        self.drag_start_x = None;
        self.drag_start_y = None;
    }
}

} // verus!
