//! The state that the control plane and the engine loop share: the live
//! tuning values, the head-tracking axes, the control requests and the
//! telemetry of the last frame.

use vstd::prelude::*;
use crate::physics::{config_error, config_of, valid_config, Config, ConfigError, RustPhysics};

verus! {

/// What the loop last computed, for display.
#[derive(Clone, Copy, Debug, PartialEq, Eq, Structural)]
pub struct Telemetry {
    /// The stick deflection on the first axis.
    pub x: i64,
    /// The stick deflection on the second axis.
    pub y: i64,
    /// The throttle.
    pub throttle: i64,
    /// The rudder.
    pub rudder: i64,
    /// Whether an axis was snapped.
    pub snapped: bool,
    /// Whether the cursor was in the deadzone.
    pub in_deadzone: bool,
}

/// The shared state as mathematical values.
pub struct StateModel {
    /// The tuning values of the mapper.
    pub config: Config,
    /// The head-tracking yaw.
    pub head_yaw: int,
    /// The head-tracking pitch.
    pub head_pitch: int,
    /// The telemetry of the last frame.
    pub telemetry: Telemetry,
    /// Whether a recentre is requested and not yet served.
    pub recenter_req: bool,
    /// Whether an exit is requested and not yet served.
    pub exit_req: bool,
}

/// The tuning values of a new engine: radius 300, linear response, deadzone
/// and snap threshold 0.05, snap-axis share 0.1, no outer slack.
pub open spec fn default_config() -> Config {
    Config {
        radius: 300_000_000,
        curve: 1_000_000,
        deadzone: 50_000,
        snap_axis: 100_000,
        snap_threshold: 50_000,
        outer: 0,
    }
}

/// The shared state of a new engine.
pub open spec fn initial_state() -> StateModel {
    StateModel {
        config: default_config(),
        head_yaw: 0,
        head_pitch: 0,
        telemetry: Telemetry {
            x: 0,
            y: 0,
            throttle: 0,
            rudder: 0,
            snapped: false,
            in_deadzone: false,
        },
        recenter_req: false,
        exit_req: false,
    }
}

/// The shared state.
#[derive(Debug)]
pub struct SharedState {
    config: RustPhysics,
    head_yaw: i64,
    head_pitch: i64,
    telemetry: Telemetry,
    recenter_req: bool,
    exit_req: bool,
}

impl View for SharedState {
    type V = StateModel;

    closed spec fn view(&self) -> StateModel {
        StateModel {
            config: self.config@,
            head_yaw: self.head_yaw as int,
            head_pitch: self.head_pitch as int,
            telemetry: self.telemetry,
            recenter_req: self.recenter_req,
            exit_req: self.exit_req,
        }
    }
}

impl SharedState {
    /// Makes the shared state of a new engine.
    pub fn new() -> (r: SharedState)
        ensures
            r@ == initial_state(),
            valid_config(r@.config),
    {
        let config = match RustPhysics::new(300_000_000, 1_000_000, 50_000, 100_000, 50_000, 0) {
            Ok(p) => p,
            Err(_) => vstd::pervasive::unreached(),
        };
        SharedState {
            config,
            head_yaw: 0,
            head_pitch: 0,
            telemetry: Telemetry {
                x: 0,
                y: 0,
                throttle: 0,
                rudder: 0,
                snapped: false,
                in_deadzone: false,
            },
            recenter_req: false,
            exit_req: false,
        }
    }

    /// Replaces the tuning values. Values that are refused leave the state
    /// as it was.
    pub fn update_config(
        &mut self,
        radius: i64,
        curve: i64,
        deadzone: i64,
        snap_axis: i64,
        snap_threshold: i64,
        outer: i64,
    ) -> (r: Result<(), ConfigError>)
        ensures
            valid_config(final(self)@.config),
            match r {
                Ok(_) => final(self)@ == (StateModel {
                    config: config_of(radius, curve, deadzone, snap_axis, snap_threshold, outer),
                    ..old(self)@
                }),
                Err(e) => final(self)@ == old(self)@ && config_error(
                    config_of(radius, curve, deadzone, snap_axis, snap_threshold, outer),
                ) == Some(e),
            },
    {
        self.config.update_config(radius, curve, deadzone, snap_axis, snap_threshold, outer)
    }

    /// Stores the head-tracking axes.
    pub fn update_tracker(&mut self, yaw: i64, pitch: i64)
        ensures
            final(self)@ == (StateModel {
                head_yaw: yaw as int,
                head_pitch: pitch as int,
                ..old(self)@
            }),
    {
        self.head_yaw = yaw;
        self.head_pitch = pitch;
    }

    /// Asks the loop to put the cursor back to the screen centre.
    pub fn recenter(&mut self)
        ensures
            final(self)@ == (StateModel { recenter_req: true, ..old(self)@ }),
    {
        self.recenter_req = true;
    }

    /// Asks the loop to end.
    pub fn request_exit(&mut self)
        ensures
            final(self)@ == (StateModel { exit_req: true, ..old(self)@ }),
    {
        self.exit_req = true;
    }

    /// Reads the telemetry of the last frame: the two deflections, throttle
    /// and rudder, whether an axis was snapped, whether the cursor was in
    /// the deadzone.
    pub fn get_hud_data(&self) -> (r: (i64, i64, i64, i64, bool, bool))
        ensures
            r == (
                self@.telemetry.x,
                self@.telemetry.y,
                self@.telemetry.throttle,
                self@.telemetry.rudder,
                self@.telemetry.snapped,
                self@.telemetry.in_deadzone,
            ),
    {
        (
            self.telemetry.x,
            self.telemetry.y,
            self.telemetry.throttle,
            self.telemetry.rudder,
            self.telemetry.snapped,
            self.telemetry.in_deadzone,
        )
    }

    /// Reads and clears the two control requests: first whether a recentre
    /// was requested, then whether an exit was.
    pub fn take_requests(&mut self) -> (r: (bool, bool))
        ensures
            r == (old(self)@.recenter_req, old(self)@.exit_req),
            final(self)@ == (StateModel { recenter_req: false, exit_req: false, ..old(self)@ }),
    {
        let requests = (self.recenter_req, self.exit_req);
        self.recenter_req = false;
        self.exit_req = false;
        requests
    }

    /// Reads what the loop needs for one frame: the mapper with the live
    /// tuning values, the head-tracking yaw and the head-tracking pitch.
    pub fn snapshot(&self) -> (r: (RustPhysics, i64, i64))
        ensures
            r.0@ == self@.config,
            r.1 == self@.head_yaw,
            r.2 == self@.head_pitch,
    {
        (self.config, self.head_yaw, self.head_pitch)
    }

    /// Stores the telemetry of a frame.
    pub fn publish(&mut self, telemetry: Telemetry)
        ensures
            final(self)@ == (StateModel { telemetry, ..old(self)@ }),
    {
        self.telemetry = telemetry;
    }
}

} // verus!
