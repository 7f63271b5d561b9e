//! The cursor that pointer motion moves on the screen, with the throttle
//! and rudder that the wheels move and the buttons that the keys latch.

use vstd::prelude::*;
use crate::codes::{
    BTN_EXTRA, BTN_LEFT, BTN_MIDDLE, BTN_RIGHT, BTN_SIDE, EV_KEY, EV_REL, REL_HWHEEL, REL_WHEEL,
    REL_X, REL_Y,
};
use crate::fixed::{clamp, clamp_spec, LIMIT, ONE};
use crate::frame::{frame_in_range, frame_of, Buttons, Frame, RawEvent};
use crate::physics::{calculate_spec, Config, RustPhysics};
use crate::state::Telemetry;

verus! {

/// What one notch of the vertical wheel adds to the throttle.
pub const THROTTLE_STEP: i64 = 50_000;

/// What one notch of the horizontal wheel adds to the rudder.
pub const RUDDER_STEP: i64 = 200_000;

/// The cursor and the accumulators that the loop owns, as mathematical
/// values.
pub struct CursorModel {
    /// The horizontal cursor position.
    pub x: int,
    /// The vertical cursor position.
    pub y: int,
    /// The screen width.
    pub width: int,
    /// The screen height.
    pub height: int,
    /// The throttle.
    pub throttle: int,
    /// The rudder.
    pub rudder: int,
    /// The button latches.
    pub buttons: Buttons,
}

/// Whether a screen size is accepted: neither side is negative or exceeds
/// the magnitude that the engine accepts.
pub open spec fn valid_screen(width: int, height: int) -> bool {
    0 <= width <= LIMIT && 0 <= height <= LIMIT
}

/// Whether the cursor lies on its screen and throttle and rudder lie between
/// minus one and one.
pub open spec fn valid_cursor(c: CursorModel) -> bool {
    &&& valid_screen(c.width, c.height)
    &&& 0 <= c.x <= c.width
    &&& 0 <= c.y <= c.height
    &&& -ONE <= c.throttle <= ONE
    &&& -ONE <= c.rudder <= ONE
}

/// The cursor of a loop that starts: at the screen centre, throttle and
/// rudder at zero, no button pressed.
pub open spec fn initial_cursor(width: int, height: int) -> CursorModel {
    CursorModel {
        x: width / 2,
        y: height / 2,
        width,
        height,
        throttle: 0,
        rudder: 0,
        buttons: Buttons { trigger: false, thumb: false, top: false, side1: false, side2: false },
    }
}

/// The cursor after a recentre: back at the screen centre, the rudder at
/// zero, the throttle and the buttons as they were.
pub open spec fn recenter_spec(c: CursorModel) -> CursorModel {
    CursorModel { x: c.width / 2, y: c.height / 2, rudder: 0, ..c }
}

/// The buttons after a key event: the latch of the key takes the level of
/// the event, and a key without a latch changes nothing.
pub open spec fn press_spec(b: Buttons, code: u16, pressed: bool) -> Buttons {
    if code == BTN_LEFT {
        Buttons { trigger: pressed, ..b }
    } else if code == BTN_RIGHT {
        Buttons { thumb: pressed, ..b }
    } else if code == BTN_MIDDLE {
        Buttons { top: pressed, ..b }
    } else if code == BTN_SIDE {
        Buttons { side1: pressed, ..b }
    } else if code == BTN_EXTRA {
        Buttons { side2: pressed, ..b }
    } else {
        b
    }
}

/// The cursor after one event of the pointing device. Motion moves the
/// cursor within the screen, the wheels move throttle and rudder within
/// their range, a key sets its latch, and any other event changes nothing.
pub open spec fn apply_event(c: CursorModel, e: RawEvent) -> CursorModel {
    if e.kind == EV_REL {
        if e.code == REL_X {
            CursorModel { x: clamp_spec(c.x + e.value * ONE, 0, c.width), ..c }
        } else if e.code == REL_Y {
            CursorModel { y: clamp_spec(c.y + e.value * ONE, 0, c.height), ..c }
        } else if e.code == REL_WHEEL {
            CursorModel {
                throttle: clamp_spec(c.throttle + e.value * THROTTLE_STEP, -ONE as int, ONE as int),
                ..c
            }
        } else if e.code == REL_HWHEEL {
            CursorModel {
                rudder: clamp_spec(c.rudder + e.value * RUDDER_STEP, -ONE as int, ONE as int),
                ..c
            }
        } else {
            c
        }
    } else if e.kind == EV_KEY {
        CursorModel { buttons: press_spec(c.buttons, e.code, e.value > 0), ..c }
    } else {
        c
    }
}

/// The cursor after a batch of events, applied in their order.
pub open spec fn apply_events(c: CursorModel, events: Seq<RawEvent>) -> CursorModel
    decreases events.len(),
{
    if events.len() == 0 {
        c
    } else {
        apply_event(apply_events(c, events.drop_last()), events.last())
    }
}

/// The offset of the cursor from the screen centre.
pub open spec fn offset_spec(c: CursorModel) -> (int, int) {
    (c.x - c.width / 2, c.y - c.height / 2)
}

/// The frame that a cycle sends and the telemetry that it publishes, for a
/// cursor, the tuning values and the head-tracking axes.
pub open spec fn output_spec(c: CursorModel, config: Config, yaw: int, pitch: int) -> (
    Frame,
    Telemetry,
) {
    let (dx, dy) = offset_spec(c);
    let (fx, fy, in_deadzone, snapped) = calculate_spec(config, dx, dy);
    (
        frame_of(fx, fy, c.throttle, c.rudder, yaw, pitch, c.buttons),
        Telemetry {
            x: fx as i64,
            y: fy as i64,
            throttle: c.throttle as i64,
            rudder: c.rudder as i64,
            snapped,
            in_deadzone,
        },
    )
}

/// No event moves the cursor off its screen, or throttle or rudder out of
/// their range.
pub proof fn law_event_keeps_bounds(c: CursorModel, e: RawEvent)
    requires
        valid_cursor(c),
    ensures
        valid_cursor(apply_event(c, e)),
        apply_event(c, e).width == c.width,
        apply_event(c, e).height == c.height,
{
}

/// No batch of events moves the cursor off its screen, or throttle or
/// rudder out of their range.
pub proof fn law_events_keep_bounds(c: CursorModel, events: Seq<RawEvent>)
    requires
        valid_cursor(c),
    ensures
        valid_cursor(apply_events(c, events)),
        apply_events(c, events).width == c.width,
        apply_events(c, events).height == c.height,
    decreases events.len(),
{
    if events.len() != 0 {
        law_events_keep_bounds(c, events.drop_last());
        law_event_keeps_bounds(apply_events(c, events.drop_last()), events.last());
    }
}

/// A recentre puts the cursor at the screen centre and the rudder at zero,
/// and leaves the throttle and the buttons as they were.
pub proof fn law_recenter(c: CursorModel)
    requires
        valid_cursor(c),
    ensures
        valid_cursor(recenter_spec(c)),
        offset_spec(recenter_spec(c)) == (0int, 0int),
        recenter_spec(c).rudder == 0,
        recenter_spec(c).throttle == c.throttle,
        recenter_spec(c).buttons == c.buttons,
{
}

/// The cursor and the accumulators that the loop owns.
#[derive(Clone, Copy, Debug)]
pub struct CursorState {
    x: i64,
    y: i64,
    width: i64,
    height: i64,
    throttle: i64,
    rudder: i64,
    buttons: Buttons,
}

impl View for CursorState {
    type V = CursorModel;

    closed spec fn view(&self) -> CursorModel {
        CursorModel {
            x: self.x as int,
            y: self.y as int,
            width: self.width as int,
            height: self.height as int,
            throttle: self.throttle as int,
            rudder: self.rudder as int,
            buttons: self.buttons,
        }
    }
}

impl CursorState {
    #[verifier::type_invariant]
    spec fn well_formed(self) -> bool {
        valid_cursor(self@)
    }

    /// Puts a cursor at the centre of a screen, or refuses the screen size.
    pub fn new(width: i64, height: i64) -> (r: Option<CursorState>)
        ensures
            match r {
                Some(c) => valid_screen(width as int, height as int) && c@ == initial_cursor(
                    width as int,
                    height as int,
                ) && valid_cursor(c@),
                None => !valid_screen(width as int, height as int),
            },
    {
        if width < 0 || width > LIMIT || height < 0 || height > LIMIT {
            None
        } else {
            Some(
                CursorState {
                    x: width / 2,
                    y: height / 2,
                    width,
                    height,
                    throttle: 0,
                    rudder: 0,
                    buttons: Buttons {
                        trigger: false,
                        thumb: false,
                        top: false,
                        side1: false,
                        side2: false,
                    },
                },
            )
        }
    }

    /// Puts the cursor back at the screen centre and the rudder at zero.
    pub fn recenter(&mut self)
        ensures
            final(self)@ == recenter_spec(old(self)@),
            valid_cursor(final(self)@),
    {
        proof {
            use_type_invariant(&*self);
        }
        self.x = self.width / 2;
        self.y = self.height / 2;
        self.rudder = 0;
    }

    /// Applies one event of the pointing device.
    pub fn apply(&mut self, e: RawEvent)
        ensures
            final(self)@ == apply_event(old(self)@, e),
            valid_cursor(final(self)@),
    {
        proof {
            use_type_invariant(&*self);
        }
        let delta: i64 = e.value as i64;
        if e.kind == EV_REL {
            if e.code == REL_X {
                self.x = clamp(self.x + delta * ONE, 0, self.width);
            } else if e.code == REL_Y {
                self.y = clamp(self.y + delta * ONE, 0, self.height);
            } else if e.code == REL_WHEEL {
                self.throttle = clamp(self.throttle + delta * THROTTLE_STEP, -ONE, ONE);
            } else if e.code == REL_HWHEEL {
                self.rudder = clamp(self.rudder + delta * RUDDER_STEP, -ONE, ONE);
            }
        } else if e.kind == EV_KEY {
            let pressed: bool = e.value > 0;
            if e.code == BTN_LEFT {
                self.buttons.trigger = pressed;
            } else if e.code == BTN_RIGHT {
                self.buttons.thumb = pressed;
            } else if e.code == BTN_MIDDLE {
                self.buttons.top = pressed;
            } else if e.code == BTN_SIDE {
                self.buttons.side1 = pressed;
            } else if e.code == BTN_EXTRA {
                self.buttons.side2 = pressed;
            }
        }
    }

    /// Applies a batch of events in their order.
    pub fn apply_all(&mut self, events: &Vec<RawEvent>)
        ensures
            final(self)@ == apply_events(old(self)@, events@),
            valid_cursor(final(self)@),
    {
        proof {
            use_type_invariant(&*self);
        }
        let mut i: usize = 0;
        while i < events.len()
            invariant
                i <= events.len(),
                self@ == apply_events(old(self)@, events@.take(i as int)),
                valid_cursor(self@),
            decreases events.len() - i,
        {
            proof {
                assert(events@.take(i + 1).drop_last() =~= events@.take(i as int));
            }
            self.apply(events[i]);
            i = i + 1;
        }
        proof {
            assert(events@.take(i as int) =~= events@);
        }
    }

    /// The cursor position.
    pub fn position(&self) -> (r: (i64, i64))
        ensures
            r.0 == self@.x,
            r.1 == self@.y,
    {
        (self.x, self.y)
    }

    /// The offset of the cursor from the screen centre.
    pub fn offset(&self) -> (r: (i64, i64))
        ensures
            (r.0 as int, r.1 as int) == offset_spec(self@),
    {
        proof {
            use_type_invariant(self);
        }
        (self.x - self.width / 2, self.y - self.height / 2)
    }

    /// The throttle.
    pub fn throttle(&self) -> (r: i64)
        ensures
            r == self@.throttle,
    {
        self.throttle
    }

    /// The rudder.
    pub fn rudder(&self) -> (r: i64)
        ensures
            r == self@.rudder,
    {
        self.rudder
    }

    /// The button latches.
    pub fn buttons(&self) -> (r: Buttons)
        ensures
            r == self@.buttons,
    {
        self.buttons
    }

    /// Computes the frame of a cycle and its telemetry from the mapper with
    /// the live tuning values and the head-tracking axes.
    pub fn output(&self, physics: &RustPhysics, yaw: i64, pitch: i64) -> (r: (Frame, Telemetry))
        ensures
            r == output_spec(self@, physics@, yaw as int, pitch as int),
            frame_in_range(r.0),
    {
        let (dx, dy) = self.offset();
        let (fx, fy, in_deadzone, snapped) = physics.calculate(dx, dy);
        (
            Frame::new(fx, fy, self.throttle, self.rudder, yaw, pitch, self.buttons),
            Telemetry {
                x: fx,
                y: fy,
                throttle: self.throttle,
                rudder: self.rudder,
                snapped,
                in_deadzone,
            },
        )
    }
}

} // verus!
