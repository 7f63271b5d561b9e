//! The engine loop as a state machine that is started, cycled and stopped.
//!
//! The engine performs no input or output. Its caller reads the pending
//! events of the pointing device, hands them to `RustEngine::cycle`, and
//! writes the events of the frame that comes back.

use vstd::prelude::*;
use crate::cursor::{
    apply_events, initial_cursor, law_events_keep_bounds, output_spec, recenter_spec,
    valid_cursor, valid_screen, CursorModel, CursorState,
};
use crate::frame::{frame_in_range, Frame, RawEvent};
use crate::physics::{config_error, config_of, valid_config, ConfigError};
use crate::state::{initial_state, SharedState, StateModel};

verus! {

/// Why the engine refused to start.
#[derive(Clone, Copy, Debug, PartialEq, Eq, Structural)]
pub enum EngineError {
    /// The engine is running already.
    AlreadyRunning,
    /// A side of the screen is negative or too large.
    InvalidScreen,
}

/// The engine as mathematical values: the shared state, and the cursor of
/// the running loop. The engine runs exactly when it has a cursor.
pub struct EngineModel {
    /// The shared state, which outlives the loop.
    pub shared: StateModel,
    /// The cursor of the loop, absent while the engine is stopped.
    pub cursor: Option<CursorModel>,
}

/// The engine after a call of `start`, and what the call returns. A running
/// engine refuses, and so does a screen size that is not accepted; neither
/// changes the engine. Otherwise the loop begins with a fresh cursor at the
/// screen centre.
pub open spec fn start_spec(m: EngineModel, width: int, height: int) -> (
    EngineModel,
    Result<(), EngineError>,
) {
    if m.cursor is Some {
        (m, Err(EngineError::AlreadyRunning))
    } else if !valid_screen(width, height) {
        (m, Err(EngineError::InvalidScreen))
    } else {
        (EngineModel { cursor: Some(initial_cursor(width, height)), ..m }, Ok(()))
    }
}

/// The engine after a call of `stop`: the loop has ended and its cursor is
/// gone, the shared state is as it was.
pub open spec fn stop_spec(m: EngineModel) -> EngineModel {
    EngineModel { cursor: None, ..m }
}

/// The engine after one cycle of the loop on a batch of pending events, and
/// the frame to send, if there is one.
///
/// A stopped engine does nothing. A running engine first takes both control
/// requests and clears them. On an exit request the loop ends without a
/// frame. Otherwise the cycle recentres the cursor if that was requested,
/// applies the events, maps the cursor offset with the live tuning values,
/// builds the frame with the head-tracking axes, and publishes the
/// telemetry.
pub open spec fn cycle_spec(m: EngineModel, events: Seq<RawEvent>) -> (
    EngineModel,
    Option<Frame>,
) {
    match m.cursor {
        None => (m, None),
        Some(c) => {
            let served = StateModel { recenter_req: false, exit_req: false, ..m.shared };
            if m.shared.exit_req {
                (EngineModel { shared: served, cursor: None }, None)
            } else {
                let begun = if m.shared.recenter_req {
                    recenter_spec(c)
                } else {
                    c
                };
                let moved = apply_events(begun, events);
                let (frame, telemetry) = output_spec(
                    moved,
                    served.config,
                    served.head_yaw,
                    served.head_pitch,
                );
                (
                    EngineModel {
                        shared: StateModel { telemetry, ..served },
                        cursor: Some(moved),
                    },
                    Some(frame),
                )
            }
        },
    }
}

/// Whether an engine is one that `RustEngine::new` made and its methods
/// drove: the tuning values are accepted ones, and the cursor, if there is
/// one, is valid.
pub open spec fn valid_engine(m: EngineModel) -> bool {
    &&& valid_config(m.shared.config)
    &&& match m.cursor {
        None => true,
        Some(c) => valid_cursor(c),
    }
}

/// Stopping an engine that is not running changes nothing, and stopping
/// twice is stopping once. A second start without a stop between the two is
/// refused and changes nothing. After a stop the engine can start again.
pub proof fn law_lifecycle(m: EngineModel, width: int, height: int)
    ensures
        m.cursor is None ==> stop_spec(m) == m,
        stop_spec(stop_spec(m)) == stop_spec(m),
        start_spec(m, width, height).1 is Ok ==> start_spec(
            start_spec(m, width, height).0,
            width,
            height,
        ) == (start_spec(m, width, height).0, Err::<(), EngineError>(EngineError::AlreadyRunning)),
        start_spec(m, width, height).1 is Err ==> start_spec(m, width, height).0 == m,
        valid_screen(width, height) ==> start_spec(stop_spec(m), width, height).1 is Ok,
{
}

/// A cycle of a running engine serves both control requests exactly once:
/// neither is pending after it. An exit request ends the loop without a
/// frame; without one the loop goes on and sends a frame.
pub proof fn law_requests_served(m: EngineModel, events: Seq<RawEvent>)
    requires
        m.cursor is Some,
    ensures
        !cycle_spec(m, events).0.shared.recenter_req,
        !cycle_spec(m, events).0.shared.exit_req,
        m.shared.exit_req ==> cycle_spec(m, events).0.cursor is None && cycle_spec(
            m,
            events,
        ).1 is None,
        !m.shared.exit_req ==> cycle_spec(m, events).0.cursor is Some && cycle_spec(
            m,
            events,
        ).1 is Some,
{
}

/// A cycle keeps a valid engine valid, leaves the tuning values and the
/// head-tracking axes as they are, and every analog channel of its frame
/// lies within the channel range.
pub proof fn law_cycle_keeps_valid(m: EngineModel, events: Seq<RawEvent>)
    requires
        valid_engine(m),
    ensures
        valid_engine(cycle_spec(m, events).0),
        cycle_spec(m, events).0.shared.config == m.shared.config,
        cycle_spec(m, events).0.shared.head_yaw == m.shared.head_yaw,
        cycle_spec(m, events).0.shared.head_pitch == m.shared.head_pitch,
        match cycle_spec(m, events).1 {
            Some(f) => frame_in_range(f),
            None => true,
        },
{
    match m.cursor {
        None => {},
        Some(c) => {
            let begun = if m.shared.recenter_req {
                recenter_spec(c)
            } else {
                c
            };
            law_events_keep_bounds(begun, events);
        },
    }
}

/// The engine: the shared state and, while it runs, the cursor of its loop.
#[derive(Debug)]
pub struct RustEngine {
    shared: SharedState,
    cursor: Option<CursorState>,
}

impl View for RustEngine {
    type V = EngineModel;

    closed spec fn view(&self) -> EngineModel {
        EngineModel {
            shared: self.shared@,
            cursor: match self.cursor {
                None => None,
                Some(c) => Some(c@),
            },
        }
    }
}

impl RustEngine {
    /// Makes a stopped engine with the shared state at its initial values.
    pub fn new() -> (r: RustEngine)
        ensures
            r@ == (EngineModel { shared: initial_state(), cursor: None }),
            valid_engine(r@),
    {
        RustEngine { shared: SharedState::new(), cursor: None }
    }

    /// Starts the loop for a screen of the given size, with the cursor at
    /// the screen centre. An engine that runs already refuses a second
    /// start, and a screen with a negative or too large side is refused;
    /// a refusal leaves the engine as it was.
    pub fn start(&mut self, width: i64, height: i64) -> (r: Result<(), EngineError>)
        ensures
            (final(self)@, r) == start_spec(old(self)@, width as int, height as int),
    {
        if self.cursor.is_some() {
            return Err(EngineError::AlreadyRunning);
        }
        match CursorState::new(width, height) {
            None => Err(EngineError::InvalidScreen),
            Some(c) => {
                self.cursor = Some(c);
                Ok(())
            },
        }
    }

    /// Ends the loop. A stopped engine stays as it is.
    pub fn stop(&mut self)
        ensures
            final(self)@ == stop_spec(old(self)@),
    {
        self.cursor = None;
    }

    /// Whether the loop runs.
    pub fn is_running(&self) -> (r: bool)
        ensures
            r == (self@.cursor is Some),
    {
        self.cursor.is_some()
    }

    /// Replaces the tuning values. Values that are refused leave the engine
    /// as it was.
    pub fn update_config(
        &mut self,
        radius: i64,
        curve: i64,
        deadzone: i64,
        snap_axis: i64,
        snap_threshold: i64,
        outer: i64,
    ) -> (r: Result<(), ConfigError>)
        ensures
            valid_config(final(self)@.shared.config),
            final(self)@.cursor == old(self)@.cursor,
            match r {
                Ok(_) => final(self)@.shared == (StateModel {
                    config: config_of(radius, curve, deadzone, snap_axis, snap_threshold, outer),
                    ..old(self)@.shared
                }),
                Err(e) => final(self)@ == old(self)@ && config_error(
                    config_of(radius, curve, deadzone, snap_axis, snap_threshold, outer),
                ) == Some(e),
            },
    {
        self.shared.update_config(radius, curve, deadzone, snap_axis, snap_threshold, outer)
    }

    /// Stores the head-tracking axes.
    pub fn update_tracker(&mut self, yaw: i64, pitch: i64)
        ensures
            final(self)@ == (EngineModel {
                shared: StateModel {
                    head_yaw: yaw as int,
                    head_pitch: pitch as int,
                    ..old(self)@.shared
                },
                ..old(self)@
            }),
    {
        self.shared.update_tracker(yaw, pitch);
    }

    /// Asks the loop to put the cursor back to the screen centre in its
    /// next cycle.
    pub fn recenter(&mut self)
        ensures
            final(self)@ == (EngineModel {
                shared: StateModel { recenter_req: true, ..old(self)@.shared },
                ..old(self)@
            }),
    {
        self.shared.recenter();
    }

    /// Asks the loop to end in its next cycle.
    pub fn request_exit(&mut self)
        ensures
            final(self)@ == (EngineModel {
                shared: StateModel { exit_req: true, ..old(self)@.shared },
                ..old(self)@
            }),
    {
        self.shared.request_exit();
    }

    /// Reads the telemetry of the last frame: the two deflections, throttle
    /// and rudder, whether an axis was snapped, whether the cursor was in
    /// the deadzone. After a stop it is that of the last frame before it.
    pub fn get_hud_data(&self) -> (r: (i64, i64, i64, i64, bool, bool))
        ensures
            r == (
                self@.shared.telemetry.x,
                self@.shared.telemetry.y,
                self@.shared.telemetry.throttle,
                self@.shared.telemetry.rudder,
                self@.shared.telemetry.snapped,
                self@.shared.telemetry.in_deadzone,
            ),
    {
        self.shared.get_hud_data()
    }

    /// The cursor of the running loop.
    pub fn cursor(&self) -> (r: Option<CursorState>)
        ensures
            match r {
                Some(c) => self@.cursor == Some(c@),
                None => self@.cursor is None,
            },
    {
        self.cursor
    }

    /// Runs one cycle of the loop on the events that are pending, and
    /// returns the frame to send. It returns none if the engine is stopped
    /// or an exit request ends the loop.
    pub fn cycle(&mut self, events: &Vec<RawEvent>) -> (r: Option<Frame>)
        ensures
            (final(self)@, r) == cycle_spec(old(self)@, events@),
            match r {
                Some(f) => frame_in_range(f),
                None => true,
            },
    {
        let mut cursor: CursorState = match self.cursor {
            None => {
                return None;
            },
            Some(c) => c,
        };
        let (must_recenter, must_exit) = self.shared.take_requests();
        if must_exit {
            self.cursor = None;
            return None;
        }
        if must_recenter {
            cursor.recenter();
        }
        cursor.apply_all(events);
        let (physics, yaw, pitch) = self.shared.snapshot();
        let (frame, telemetry) = cursor.output(&physics, yaw, pitch);
        self.shared.publish(telemetry);
        self.cursor = Some(cursor);
        Some(frame)
    }
}

} // verus!
