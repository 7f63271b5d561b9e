//! A real-time engine that turns relative pointer motion into the frames of
//! a virtual flight stick: a two-axis stick, throttle, rudder, two
//! head-tracking axes and five buttons.
//!
//! The library holds the decisions of the engine and performs no input or
//! output. A caller reads the events of the pointing device, hands them to
//! the engine, and writes the frame that the engine returns.
//!
//! - `fixed`: the fixed-point numbers in which every quantity is held, in
//!   millionths of its unit.
//! - `physics`: the radial mapper from a cursor offset to stick deflection.
//! - `filter`: the jitter filter for the head-tracking axes.
//! - `state`: the state that the control plane and the loop share.
//! - `codes`: the event kinds and codes of the input subsystem.
//! - `frame`: the frame for the virtual stick and its events.
//! - `cursor`: the cursor and the accumulators that the loop owns.
//! - `engine`: the engine that is started, cycled and stopped.

pub mod fixed;
pub mod physics;
pub mod filter;
pub mod state;
pub mod codes;
pub mod frame;
pub mod cursor;
pub mod engine;
