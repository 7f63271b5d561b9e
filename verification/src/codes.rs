//! The event kinds and codes of the operating system's input subsystem that
//! the engine reads from the pointing device and writes to the virtual
//! stick.

use vstd::prelude::*;

verus! {

/// The event kind of a synchronisation marker.
pub const EV_SYN: u16 = 0x00;

/// The event kind of a key or button.
pub const EV_KEY: u16 = 0x01;

/// The event kind of relative motion.
pub const EV_REL: u16 = 0x02;

/// The event kind of an absolute axis.
pub const EV_ABS: u16 = 0x03;

/// The marker that ends a frame.
pub const SYN_REPORT: u16 = 0;

/// Horizontal pointer motion.
pub const REL_X: u16 = 0x00;

/// Vertical pointer motion.
pub const REL_Y: u16 = 0x01;

/// Horizontal wheel rotation.
pub const REL_HWHEEL: u16 = 0x06;

/// Vertical wheel rotation.
pub const REL_WHEEL: u16 = 0x08;

/// The stick's first axis.
pub const ABS_X: u16 = 0x00;

/// The stick's second axis.
pub const ABS_Y: u16 = 0x01;

/// The throttle axis.
pub const ABS_Z: u16 = 0x02;

/// The head-tracking yaw axis.
pub const ABS_RX: u16 = 0x03;

/// The head-tracking pitch axis.
pub const ABS_RY: u16 = 0x04;

/// The rudder axis.
pub const ABS_RZ: u16 = 0x05;

/// The left pointer button.
pub const BTN_LEFT: u16 = 0x110;

/// The right pointer button.
pub const BTN_RIGHT: u16 = 0x111;

/// The middle pointer button.
pub const BTN_MIDDLE: u16 = 0x112;

/// The first side button of the pointer.
pub const BTN_SIDE: u16 = 0x113;

/// The second side button of the pointer.
pub const BTN_EXTRA: u16 = 0x114;

/// The stick's trigger.
pub const BTN_TRIGGER: u16 = 0x120;

/// The stick's thumb button.
pub const BTN_THUMB: u16 = 0x121;

/// The stick's top button.
pub const BTN_TOP: u16 = 0x123;

/// The stick's second top button.
pub const BTN_TOP2: u16 = 0x124;

/// The stick's pinkie button.
pub const BTN_PINKIE: u16 = 0x125;

} // verus!
