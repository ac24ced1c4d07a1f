//! The pointer-gesture state machine that drives the viewport.
//!
//! One gesture is active at a time. The primary button starts a pan: every
//! move re-derives the origin from the pointer so the grabbed point tracks it
//! without drift. The secondary button starts a zoom: the data point under
//! the cursor at button-down becomes the anchor, and every move rescales
//! linearly with the pointer's displacement and re-solves the origin from the
//! button-down pixel (`rezoom_at`), so the anchor never leaves that pixel for
//! the whole gesture. Events that do not belong to the active gesture are
//! ignored.

use vstd::prelude::*;
use crate::rat::{Rat, rat_of_int, rat_add, rat_sub, rat_reduced};
use crate::rat::{qadd, qsub, qmul, qeq, qint, qfits, qreduce};
use crate::rat::{lemma_pos_prod, lemma_qeq_trans};
use crate::viewport::{DataPoint, ScreenPoint, ViewportTransform};
use crate::viewport::{
    lemma_q_div_wf, lemma_screen_round_trip, lemma_to_screen_x_congruent,
    lemma_to_screen_y_congruent,
};

verus! {

/// Default window width in pixels.
pub const WIDTH: i64 = 960;

/// Default window height in pixels.
pub const HEIGHT: i64 = 960;

/// Default zoom gain: scale change per full-window pointer displacement.
pub const ZOOM_GAIN: i64 = 10;

/// One pointer or host event, coordinates in pixels from the top left.
#[derive(Clone, Copy, Debug, PartialEq, Eq, Structural)]
pub enum InputEvent {
    PrimaryDown(i64, i64),
    PrimaryUp,
    SecondaryDown(i64, i64),
    SecondaryUp,
    PointerMove(i64, i64),
    Quit,
}

/// The active gesture, if any.
#[derive(Clone, Copy, Debug, PartialEq, Eq, Structural)]
pub enum InteractionState {
    Idle,
    /// Panning: the pointer grabbed the view at screen offset
    /// `(drag_x, drag_y)` from the origin.
    Panning { drag_x: Rat, drag_y: Rat },
    /// Zooming: `anchor` is the data point under the cursor at button-down,
    /// `(start_x, start_y)` that cursor position, and the base scales are the
    /// transform's scales at that moment.
    Zooming {
        anchor: DataPoint,
        start_x: i64,
        start_y: i64,
        base_scale_x: Rat,
        base_scale_y: Rat,
    },
}

impl InteractionState {
    /// Every rational the state carries is well formed.
    pub open spec fn wf(self) -> bool {
        match self {
            InteractionState::Idle => true,
            InteractionState::Panning { drag_x, drag_y } => drag_x.wf() && drag_y.wf(),
            InteractionState::Zooming { anchor, base_scale_x, base_scale_y, .. } => {
                anchor.wf() && base_scale_x.wf() && base_scale_y.wf()
            },
        }
    }

    /// A pan gesture is active.
    pub fn is_pan(&self) -> (r: bool)
        ensures
            r == (self is Panning),
    {
        match self {
            InteractionState::Panning { .. } => true,
            _ => false,
        }
    }

    /// A zoom gesture is active.
    pub fn is_zoom(&self) -> (r: bool)
        ensures
            r == (self is Zooming),
    {
        match self {
            InteractionState::Zooming { .. } => true,
            _ => false,
        }
    }
}

/// Turns raw pointer events into viewport mutations.
pub struct InteractionController {
    pub state: InteractionState,
    pub width: i64,
    pub height: i64,
    pub zoom_gain: i64,
}

impl InteractionController {
    /// The window has area and the state's rationals are well formed.
    pub open spec fn wf(self) -> bool {
        &&& self.state.wf()
        &&& self.width > 0
        &&& self.height > 0
    }

    /// An idle controller for a window of the given pixel size.
    pub fn new(width: i64, height: i64, zoom_gain: i64) -> (c: InteractionController)
        requires
            width > 0,
            height > 0,
        ensures
            c.wf(),
            c.state == InteractionState::Idle,
            c.width == width,
            c.height == height,
            c.zoom_gain == zoom_gain,
    {
        InteractionController { state: InteractionState::Idle, width, height, zoom_gain }
    }

    /// The new scale that a zoom-gesture pointer position `v` asks for on one
    /// axis: the base scale plus `gain * displacement / window extent`.
    pub open spec fn zoom_scale(self, base: Rat, v: int, start: int, extent: int) -> (int, int) {
        qadd(base@, (self.zoom_gain as int * (v - start), extent))
    }

    /// The machine can carry the work this event asks for: every rational an
    /// arm of `handle_event` builds fits. Events an arm ignores need nothing.
    pub open spec fn event_fits(self, t: ViewportTransform, ev: InputEvent) -> bool {
        match (self.state, ev) {
            (InteractionState::Idle, InputEvent::PrimaryDown(x, y)) => {
                &&& qfits(qsub(qint(x as int), t.origin_x@))
                &&& qfits(qsub(qint(y as int), t.origin_y@))
            },
            (InteractionState::Idle, InputEvent::SecondaryDown(x, y)) => {
                &&& qfits(qsub(qint(x as int), t.origin_x@))
                &&& qfits(t.spec_to_data_x(qint(x as int)))
                &&& qfits(qsub(qint(y as int), t.origin_y@))
                &&& qfits(t.spec_to_data_y(qint(y as int)))
            },
            (InteractionState::Panning { drag_x, drag_y }, InputEvent::PointerMove(x, y)) => {
                &&& qfits(qsub(qint(x as int), drag_x@))
                &&& qfits(qsub(qint(y as int), drag_y@))
            },
            (
                InteractionState::Zooming { anchor, start_x, start_y, base_scale_x, base_scale_y },
                InputEvent::PointerMove(x, y),
            ) => {
                let nsx = self.zoom_scale(base_scale_x, x as int, start_x as int, self.width as int);
                let nsy = self.zoom_scale(
                    base_scale_y,
                    y as int,
                    start_y as int,
                    self.height as int,
                );
                &&& i64::MIN <= self.zoom_gain as int * (x as int - start_x as int) <= i64::MAX
                &&& i64::MIN <= self.zoom_gain as int * (y as int - start_y as int) <= i64::MAX
                &&& qfits(nsx)
                &&& qfits(nsy)
                &&& t.rezoom_fits(
                    start_x as int,
                    start_y as int,
                    anchor,
                    qreduce(nsx),
                    qreduce(nsy),
                )
            },
            _ => true,
        }
    }

    /// During a zoom gesture the anchor sits exactly at the pixel where the
    /// gesture began; other states say nothing of the transform. The handler
    /// keeps this, so the anchor never moves while the user drags to zoom.
    pub open spec fn gesture_consistent(self, t: ViewportTransform) -> bool {
        match self.state {
            InteractionState::Zooming { anchor, start_x, start_y, .. } => {
                &&& qeq(t.spec_to_screen_x(anchor.x@), qint(start_x as int))
                &&& qeq(t.spec_to_screen_y(anchor.y@), qint(start_y as int))
            },
            _ => true,
        }
    }

    /// Feeds one event through the state machine, mutating the transform as
    /// the gesture demands. At most one state change and one transform
    /// mutation happen; events that do not fit the active gesture leave both
    /// untouched.
    pub fn handle_event(&mut self, t: &mut ViewportTransform, ev: InputEvent)
        requires
            old(self).wf(),
            old(t).wf(),
            old(self).gesture_consistent(*old(t)),
            old(self).event_fits(*old(t), ev),
        ensures
            final(self).wf(),
            final(t).wf(),
            final(self).gesture_consistent(*final(t)),
            final(self).width == old(self).width,
            final(self).height == old(self).height,
            final(self).zoom_gain == old(self).zoom_gain,
            match (old(self).state, ev) {
                (InteractionState::Idle, InputEvent::PrimaryDown(x, y)) => {
                    &&& final(self).state matches InteractionState::Panning { drag_x, drag_y }
                        && drag_x@ == qsub(qint(x as int), old(t).origin_x@)
                        && drag_y@ == qsub(qint(y as int), old(t).origin_y@)
                    &&& *final(t) == *old(t)
                },
                (InteractionState::Panning { .. }, InputEvent::PrimaryUp) => {
                    &&& final(self).state == InteractionState::Idle
                    &&& *final(t) == *old(t)
                },
                (InteractionState::Panning { drag_x, drag_y }, InputEvent::PointerMove(x, y)) => {
                    &&& final(self).state == old(self).state
                    &&& final(t).scale_x == old(t).scale_x
                    &&& final(t).scale_y == old(t).scale_y
                    &&& final(t).origin_x@ == qsub(qint(x as int), drag_x@)
                    &&& final(t).origin_y@ == qsub(qint(y as int), drag_y@)
                },
                (InteractionState::Idle, InputEvent::SecondaryDown(x, y)) => {
                    &&& final(self).state matches InteractionState::Zooming {
                        anchor,
                        start_x,
                        start_y,
                        base_scale_x,
                        base_scale_y,
                    } && anchor.x@ == qreduce(old(t).spec_to_data_x(qint(x as int)))
                        && anchor.y@ == qreduce(old(t).spec_to_data_y(qint(y as int)))
                        && qeq(anchor.x@, old(t).spec_to_data_x(qint(x as int)))
                        && qeq(anchor.y@, old(t).spec_to_data_y(qint(y as int)))
                        && start_x == x
                        && start_y == y
                        && base_scale_x == old(t).scale_x
                        && base_scale_y == old(t).scale_y
                    &&& *final(t) == *old(t)
                },
                (InteractionState::Zooming { .. }, InputEvent::SecondaryUp) => {
                    &&& final(self).state == InteractionState::Idle
                    &&& *final(t) == *old(t)
                },
                (
                    InteractionState::Zooming {
                        anchor,
                        start_x,
                        start_y,
                        base_scale_x,
                        base_scale_y,
                    },
                    InputEvent::PointerMove(x, y),
                ) => {
                    let nsx = old(self).zoom_scale(
                        base_scale_x,
                        x as int,
                        start_x as int,
                        old(self).width as int,
                    );
                    let nsy = old(self).zoom_scale(
                        base_scale_y,
                        y as int,
                        start_y as int,
                        old(self).height as int,
                    );
                    &&& final(self).state == old(self).state
                    &&& if nsx.0 == 0 || nsy.0 == 0 {
                        *final(t) == *old(t)
                    } else {
                        &&& final(t).scale_x@ == qreduce(nsx)
                        &&& final(t).scale_y@ == qreduce(nsy)
                        &&& final(t).origin_x@ == qreduce(
                            qsub(qint(start_x as int), qmul(qreduce(nsx), anchor.x@)),
                        )
                        &&& final(t).origin_y@ == qreduce(
                            qsub(qint(start_y as int), qmul(qreduce(nsy), anchor.y@)),
                        )
                        &&& qeq(final(t).spec_to_screen_x(anchor.x@), qint(start_x as int))
                        &&& qeq(final(t).spec_to_screen_y(anchor.y@), qint(start_y as int))
                        &&& qeq(
                            final(t).spec_to_screen_x(anchor.x@),
                            old(t).spec_to_screen_x(anchor.x@),
                        )
                        &&& qeq(
                            final(t).spec_to_screen_y(anchor.y@),
                            old(t).spec_to_screen_y(anchor.y@),
                        )
                    }
                },
                _ => final(self).state == old(self).state && *final(t) == *old(t),
            },
    {
        match (self.state, ev) {
            (InteractionState::Idle, InputEvent::PrimaryDown(x, y)) => {
                let drag_x = rat_sub(rat_of_int(x), t.origin_x);
                let drag_y = rat_sub(rat_of_int(y), t.origin_y);
                self.state = InteractionState::Panning { drag_x, drag_y };
            },
            (InteractionState::Panning { .. }, InputEvent::PrimaryUp) => {
                self.state = InteractionState::Idle;
            },
            (InteractionState::Panning { drag_x, drag_y }, InputEvent::PointerMove(x, y)) => {
                t.origin_x = rat_sub(rat_of_int(x), drag_x);
                t.origin_y = rat_sub(rat_of_int(y), drag_y);
            },
            (InteractionState::Idle, InputEvent::SecondaryDown(x, y)) => {
                let q = ScreenPoint { x: rat_of_int(x), y: rat_of_int(y) };
                let anchor = t.to_data(&q);
                proof {
                    let ddx = t.spec_to_data_x(qint(x as int));
                    let ddy = t.spec_to_data_y(qint(y as int));
                    lemma_screen_round_trip(*t, q);
                    lemma_to_screen_x_congruent(*t, anchor.x@, ddx);
                    lemma_to_screen_y_congruent(*t, anchor.y@, ddy);
                    lemma_q_div_wf(qsub(qint(x as int), t.origin_x@), t.scale_x@);
                    lemma_q_div_wf(qsub(qint(y as int), t.origin_y@), t.scale_y@);
                    lemma_pos_prod(t.scale_x@.1, ddx.1);
                    lemma_pos_prod(t.scale_y@.1, ddy.1);
                    lemma_pos_prod(t.scale_x@.1 * ddx.1, t.origin_x@.1);
                    lemma_pos_prod(t.scale_y@.1 * ddy.1, t.origin_y@.1);
                    lemma_qeq_trans(
                        t.spec_to_screen_x(anchor.x@),
                        t.spec_to_screen_x(ddx),
                        qint(x as int),
                    );
                    lemma_qeq_trans(
                        t.spec_to_screen_y(anchor.y@),
                        t.spec_to_screen_y(ddy),
                        qint(y as int),
                    );
                }
                self.state = InteractionState::Zooming {
                    anchor,
                    start_x: x,
                    start_y: y,
                    base_scale_x: t.scale_x,
                    base_scale_y: t.scale_y,
                };
            },
            (InteractionState::Zooming { .. }, InputEvent::SecondaryUp) => {
                self.state = InteractionState::Idle;
            },
            (
                InteractionState::Zooming { anchor, start_x, start_y, base_scale_x, base_scale_y },
                InputEvent::PointerMove(x, y),
            ) => {
                let step_x_num: i128 = self.zoom_gain as i128 * (x as i128 - start_x as i128);
                let step_y_num: i128 = self.zoom_gain as i128 * (y as i128 - start_y as i128);
                let step_x = Rat { num: step_x_num as i64, den: self.width };
                let step_y = Rat { num: step_y_num as i64, den: self.height };
                let nsx = rat_reduced(rat_add(base_scale_x, step_x));
                let nsy = rat_reduced(rat_add(base_scale_y, step_y));
                if nsx.num != 0 && nsy.num != 0 {
                    t.rezoom_at(start_x, start_y, &anchor, nsx, nsy);
                    proof {
                        lemma_qeq_trans(
                            t.spec_to_screen_x(anchor.x@),
                            qint(start_x as int),
                            old(t).spec_to_screen_x(anchor.x@),
                        );
                        lemma_qeq_trans(
                            t.spec_to_screen_y(anchor.y@),
                            qint(start_y as int),
                            old(t).spec_to_screen_y(anchor.y@),
                        );
                    }
                }
            },
            _ => {},
        }
    }
}

} // verus!
