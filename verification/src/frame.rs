//! The frame that one cycle sends to the virtual stick, and the events that
//! carry it.

use vstd::prelude::*;
use crate::codes::{
    ABS_RX, ABS_RY, ABS_RZ, ABS_X, ABS_Y, ABS_Z, BTN_PINKIE, BTN_THUMB, BTN_TOP, BTN_TOP2,
    BTN_TRIGGER, EV_ABS, EV_KEY, EV_SYN, SYN_REPORT,
};
use crate::fixed::{clamp, clamp_spec, ONE};

verus! {

/// The largest value of an analog channel; the smallest is its negative.
pub const AXIS_MAX: i32 = 32767;

/// An event of the pointing device or for the virtual stick: its kind, the
/// code of its axis or key, and its delta or level.
#[derive(Clone, Copy, Debug, PartialEq, Eq, Structural)]
pub struct RawEvent {
    /// The event kind.
    pub kind: u16,
    /// The axis or key.
    pub code: u16,
    /// The delta of a relative axis, the position of an absolute axis, or
    /// the level of a key.
    pub value: i32,
}

/// The five button latches of the stick.
#[derive(Clone, Copy, Debug, PartialEq, Eq, Structural)]
pub struct Buttons {
    /// Follows the left pointer button.
    pub trigger: bool,
    /// Follows the right pointer button.
    pub thumb: bool,
    /// Follows the middle pointer button.
    pub top: bool,
    /// Follows the first side button.
    pub side1: bool,
    /// Follows the second side button.
    pub side2: bool,
}

/// One frame for the virtual stick: six analog channels and five buttons.
#[derive(Clone, Copy, Debug, PartialEq, Eq, Structural)]
pub struct Frame {
    /// The stick's first axis.
    pub x: i32,
    /// The stick's second axis.
    pub y: i32,
    /// The throttle.
    pub throttle: i32,
    /// The rudder.
    pub rudder: i32,
    /// The head-tracking yaw.
    pub head_yaw: i32,
    /// The head-tracking pitch.
    pub head_pitch: i32,
    /// The buttons.
    pub buttons: Buttons,
}

/// The value of an analog channel for a normalised value: the value is
/// limited to the interval from minus one to one, multiplied by the channel
/// maximum and rounded to the nearest integer, a half away from zero.
pub open spec fn axis_spec(v: int) -> int {
    let limited = clamp_spec(v, -ONE as int, ONE as int);
    if limited >= 0 {
        (2 * limited * AXIS_MAX + ONE) / (2 * ONE)
    } else {
        -((2 * (-limited) * AXIS_MAX + ONE) / (2 * ONE))
    }
}

/// The level of a button channel.
pub open spec fn level_spec(pressed: bool) -> int {
    if pressed {
        1
    } else {
        0
    }
}

/// Converts a normalised value to the value of an analog channel.
pub fn to_axis(v: i64) -> (r: i32)
    ensures
        r == axis_spec(v as int),
        -AXIS_MAX <= r <= AXIS_MAX,
{
    let limited: i64 = clamp(v, -ONE, ONE);
    let magnitude: i64 = if limited >= 0 {
        limited
    } else {
        -limited
    };
    assert(2 * magnitude * AXIS_MAX == magnitude * 65_534) by (nonlinear_arith)
        requires
            AXIS_MAX == 32767,
    ;
    let rounded: i32 = ((magnitude * 65_534 + ONE) / (2 * ONE)) as i32;
    if limited >= 0 {
        rounded
    } else {
        -rounded
    }
}

/// Converts the state of a button to the level of its channel.
pub fn to_level(pressed: bool) -> (r: i32)
    ensures
        r == level_spec(pressed),
{
    if pressed {
        1
    } else {
        0
    }
}

/// The events that carry a frame, in the order in which they are written:
/// the six analog channels, the five buttons, the synchronisation marker.
pub open spec fn frame_events(f: Frame) -> Seq<RawEvent> {
    seq![
        RawEvent { kind: EV_ABS, code: ABS_X, value: f.x },
        RawEvent { kind: EV_ABS, code: ABS_Y, value: f.y },
        RawEvent { kind: EV_ABS, code: ABS_Z, value: f.throttle },
        RawEvent { kind: EV_ABS, code: ABS_RZ, value: f.rudder },
        RawEvent { kind: EV_ABS, code: ABS_RX, value: f.head_yaw },
        RawEvent { kind: EV_ABS, code: ABS_RY, value: f.head_pitch },
        RawEvent { kind: EV_KEY, code: BTN_TRIGGER, value: level_spec(f.buttons.trigger) as i32 },
        RawEvent { kind: EV_KEY, code: BTN_THUMB, value: level_spec(f.buttons.thumb) as i32 },
        RawEvent { kind: EV_KEY, code: BTN_TOP, value: level_spec(f.buttons.top) as i32 },
        RawEvent { kind: EV_KEY, code: BTN_TOP2, value: level_spec(f.buttons.side1) as i32 },
        RawEvent { kind: EV_KEY, code: BTN_PINKIE, value: level_spec(f.buttons.side2) as i32 },
        RawEvent { kind: EV_SYN, code: SYN_REPORT, value: 0 },
    ]
}

/// The analog channels that a frame carries, in their order.
pub open spec fn axis_codes_spec() -> Seq<u16> {
    seq![ABS_X, ABS_Y, ABS_Z, ABS_RZ, ABS_RX, ABS_RY]
}

/// The button channels that a frame carries, in their order.
pub open spec fn button_codes_spec() -> Seq<u16> {
    seq![BTN_TRIGGER, BTN_THUMB, BTN_TOP, BTN_TOP2, BTN_PINKIE]
}

/// Lists the analog channels that the virtual stick has to offer.
pub fn axis_codes() -> (r: [u16; 6])
    ensures
        r@ == axis_codes_spec(),
{
    let codes: [u16; 6] = [ABS_X, ABS_Y, ABS_Z, ABS_RZ, ABS_RX, ABS_RY];
    assert(codes@ =~= axis_codes_spec());
    codes
}

/// Lists the button channels that the virtual stick has to offer.
pub fn button_codes() -> (r: [u16; 5])
    ensures
        r@ == button_codes_spec(),
{
    let codes: [u16; 5] = [BTN_TRIGGER, BTN_THUMB, BTN_TOP, BTN_TOP2, BTN_PINKIE];
    assert(codes@ =~= button_codes_spec());
    codes
}

/// A frame is carried by twelve events: one for each analog channel, with a
/// value within the channel range if the frame is; one for each button
/// channel, with the level zero or one; and the synchronisation marker at
/// the end.
pub proof fn law_frame_events(f: Frame)
    ensures
        frame_events(f).len() == 12,
        forall|i: int|
            0 <= i < 6 ==> (#[trigger] frame_events(f)[i]).kind == EV_ABS && frame_events(
                f,
            )[i].code == axis_codes_spec()[i],
        frame_in_range(f) ==> forall|i: int|
            0 <= i < 6 ==> -AXIS_MAX <= (#[trigger] frame_events(f)[i]).value <= AXIS_MAX,
        forall|i: int|
            6 <= i < 11 ==> (#[trigger] frame_events(f)[i]).kind == EV_KEY && frame_events(
                f,
            )[i].code == button_codes_spec()[i - 6] && 0 <= frame_events(f)[i].value <= 1,
        frame_events(f)[11] == (RawEvent { kind: EV_SYN, code: SYN_REPORT, value: 0 }),
{
}

/// The frame for six normalised values and the buttons.
pub open spec fn frame_of(
    x: int,
    y: int,
    throttle: int,
    rudder: int,
    head_yaw: int,
    head_pitch: int,
    buttons: Buttons,
) -> Frame {
    Frame {
        x: axis_spec(x) as i32,
        y: axis_spec(y) as i32,
        throttle: axis_spec(throttle) as i32,
        rudder: axis_spec(rudder) as i32,
        head_yaw: axis_spec(head_yaw) as i32,
        head_pitch: axis_spec(head_pitch) as i32,
        buttons,
    }
}

/// Whether every analog channel of a frame lies within the channel range.
pub open spec fn frame_in_range(f: Frame) -> bool {
    &&& -AXIS_MAX <= f.x <= AXIS_MAX
    &&& -AXIS_MAX <= f.y <= AXIS_MAX
    &&& -AXIS_MAX <= f.throttle <= AXIS_MAX
    &&& -AXIS_MAX <= f.rudder <= AXIS_MAX
    &&& -AXIS_MAX <= f.head_yaw <= AXIS_MAX
    &&& -AXIS_MAX <= f.head_pitch <= AXIS_MAX
}

impl Frame {
    /// Makes the frame for six normalised values and the buttons.
    pub fn new(
        x: i64,
        y: i64,
        throttle: i64,
        rudder: i64,
        head_yaw: i64,
        head_pitch: i64,
        buttons: Buttons,
    ) -> (r: Frame)
        ensures
            r == frame_of(
                x as int,
                y as int,
                throttle as int,
                rudder as int,
                head_yaw as int,
                head_pitch as int,
                buttons,
            ),
            frame_in_range(r),
    {
        Frame {
            x: to_axis(x),
            y: to_axis(y),
            throttle: to_axis(throttle),
            rudder: to_axis(rudder),
            head_yaw: to_axis(head_yaw),
            head_pitch: to_axis(head_pitch),
            buttons,
        }
    }

    /// Lists the events that carry the frame.
    pub fn events(&self) -> (r: Vec<RawEvent>)
        ensures
            r@ == frame_events(*self),
    {
        let mut out: Vec<RawEvent> = Vec::new();
        out.push(RawEvent { kind: EV_ABS, code: ABS_X, value: self.x });
        out.push(RawEvent { kind: EV_ABS, code: ABS_Y, value: self.y });
        out.push(RawEvent { kind: EV_ABS, code: ABS_Z, value: self.throttle });
        out.push(RawEvent { kind: EV_ABS, code: ABS_RZ, value: self.rudder });
        out.push(RawEvent { kind: EV_ABS, code: ABS_RX, value: self.head_yaw });
        out.push(RawEvent { kind: EV_ABS, code: ABS_RY, value: self.head_pitch });
        out.push(
            RawEvent { kind: EV_KEY, code: BTN_TRIGGER, value: to_level(self.buttons.trigger) },
        );
        out.push(RawEvent { kind: EV_KEY, code: BTN_THUMB, value: to_level(self.buttons.thumb) });
        out.push(RawEvent { kind: EV_KEY, code: BTN_TOP, value: to_level(self.buttons.top) });
        out.push(RawEvent { kind: EV_KEY, code: BTN_TOP2, value: to_level(self.buttons.side1) });
        out.push(RawEvent { kind: EV_KEY, code: BTN_PINKIE, value: to_level(self.buttons.side2) });
        out.push(RawEvent { kind: EV_SYN, code: SYN_REPORT, value: 0 });
        assert(out@ =~= frame_events(*self));
        out
    }
}

} // verus!
