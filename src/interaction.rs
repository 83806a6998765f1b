//! The viewer's interaction state: the current view and pointer action, with
//! the input callbacks that replace the action and the tick that applies it.
use vstd::prelude::*;
use crate::palette::NUM_COLORS;
use crate::view::{
    after_motion, after_press, after_release, after_touch, anchor_of, norm_mouse_pos, tick, ticked,
    transform_of, view_transform, Action, MouseButton, TouchPhase, ViewState, ViewTransform, VIEW_ONE,
};

verus! {

/// View state and pointer action of one viewer window.
#[derive(Debug, Clone, Copy, PartialEq, Eq, Structural)]
pub struct Viewer {
    pub view: ViewState,
    pub action: Action,
}

/// What the renderer needs for one frame: the view transform and the
/// number of palette entries.
#[derive(Debug, Clone, Copy, PartialEq, Eq, Structural)]
pub struct FrameUniforms {
    pub transform: ViewTransform,
    pub num_colors: u32,
}

impl Viewer {
    pub open spec fn wf(&self) -> bool {
        self.view.wf() && self.action.wf()
    }

    /// A viewer at zoom 1, centred on the origin, idle.
    pub fn new() -> (r: Viewer)
        ensures
            r.wf(),
            r.view == (ViewState { zoom: VIEW_ONE, center_x: 0, center_y: 0 }),
            r.action == Action::Idle,
    {
        Viewer { view: ViewState { zoom: VIEW_ONE, center_x: 0, center_y: 0 }, action: Action::Idle }
    }

    /// Applies the current action to the view for one frame.
    pub fn update(&mut self)
        requires
            old(self).wf(),
        ensures
            final(self).wf(),
            final(self).action == old(self).action,
            final(self).view == ticked(old(self).view, old(self).action),
    {
        self.view = tick(self.view, self.action);
    }

    /// A press at `(x, y)` on a `w x h` screen: the primary button starts
    /// zooming in at the normalized anchor, the secondary one zooming out;
    /// other buttons change nothing.
    pub fn mouse_button_down_event(&mut self, button: MouseButton, x: u32, y: u32, w: u32, h: u32)
        requires
            old(self).wf(),
            x <= w,
            y <= h,
            0 < w,
            0 < h,
        ensures
            final(self).wf(),
            final(self).view == old(self).view,
            final(self).action == after_press(
                old(self).action,
                button,
                (anchor_of(x as int, w as int) as i64, anchor_of(y as int, h as int) as i64),
            ),
    {
        let pos = norm_mouse_pos(x, y, w, h);
        match button {
            MouseButton::Left => {
                self.action = Action::ZoomingIn(pos.0, pos.1);
            },
            MouseButton::Right => {
                self.action = Action::ZoomingOut(pos.0, pos.1);
            },
            _ => {},
        }
    }

    /// A release of any button stops zooming.
    pub fn mouse_button_up_event(&mut self)
        requires
            old(self).wf(),
        ensures
            final(self).wf(),
            final(self).view == old(self).view,
            final(self).action == after_release(old(self).action),
    {
        self.action = Action::Idle;
    }

    /// The pointer moved to `(x, y)`: while zooming, the anchor follows it and
    /// the direction stays; when idle nothing changes.
    pub fn mouse_motion_event(&mut self, x: u32, y: u32, w: u32, h: u32)
        requires
            old(self).wf(),
            x <= w,
            y <= h,
            0 < w,
            0 < h,
        ensures
            final(self).wf(),
            final(self).view == old(self).view,
            final(self).action == after_motion(
                old(self).action,
                (anchor_of(x as int, w as int) as i64, anchor_of(y as int, h as int) as i64),
            ),
    {
        let pos = norm_mouse_pos(x, y, w, h);
        match self.action {
            Action::ZoomingIn(..) => {
                self.action = Action::ZoomingIn(pos.0, pos.1);
            },
            Action::ZoomingOut(..) => {
                self.action = Action::ZoomingOut(pos.0, pos.1);
            },
            Action::Idle => {},
        }
    }

    /// A touch at `(x, y)`: starting or moving zooms in at its anchor (touch
    /// has no zoom-out); ending or cancelling stops.
    pub fn touch_event(&mut self, phase: TouchPhase, x: u32, y: u32, w: u32, h: u32)
        requires
            old(self).wf(),
            x <= w,
            y <= h,
            0 < w,
            0 < h,
        ensures
            final(self).wf(),
            final(self).view == old(self).view,
            final(self).action == after_touch(
                phase,
                (anchor_of(x as int, w as int) as i64, anchor_of(y as int, h as int) as i64),
            ),
    {
        let pos = norm_mouse_pos(x, y, w, h);
        match phase {
            TouchPhase::Started => {
                self.action = Action::ZoomingIn(pos.0, pos.1);
            },
            TouchPhase::Moved => {
                self.action = Action::ZoomingIn(pos.0, pos.1);
            },
            _ => {
                self.action = Action::Idle;
            },
        }
    }

    /// The transform of the current view on a `w x h` screen.
    pub fn transform(&self, w: u32, h: u32) -> (r: ViewTransform)
        requires
            self.wf(),
            0 < w,
            0 < h,
        ensures
            r == transform_of(self.view, w as int, h as int),
    {
        view_transform(self.view, w, h)
    }
}

impl Viewer {
    /// One frame on a `w x h` screen: applies the current action to the view,
    /// then computes the new view's transform and packs it with the palette
    /// size.
    pub fn frame(&mut self, w: u32, h: u32) -> (r: FrameUniforms)
        requires
            old(self).wf(),
            0 < w,
            0 < h,
        ensures
            final(self).wf(),
            final(self).action == old(self).action,
            final(self).view == ticked(old(self).view, old(self).action),
            r.transform == transform_of(final(self).view, w as int, h as int),
            r.num_colors == NUM_COLORS,
    {
        self.update();
        FrameUniforms { transform: self.transform(w, h), num_colors: NUM_COLORS }
    }
}

} // verus!
