//! Commands, their results, and the capture-control flags.
//!
//! A [`Command`] is an immutable value object issued by a client; it carries
//! no identity beyond its position in the request stream. A [`Return`] is the
//! result of executing one command. [`ScreenCapCommand`] is the control
//! message understood by the capture side, and [`CaptureControl`] the pair of
//! flags it governs.

use vstd::prelude::*;

verus! {

/// A user-intent command against the device surface.
#[derive(Clone, Copy, Debug, PartialEq, Eq, Structural)]
pub enum Command {
    /// One touch-down then one touch-up at `(x, y)`.
    Tap { x: i32, y: i32 },
    /// A swipe from `(x1, y1)` to `(x2, y2)`. The duration is accepted but,
    /// by current policy, not used to pace the motion; this is a known
    /// simplification, not silently dropped.
    Scroll { x1: i32, y1: i32, x2: i32, y2: i32, duration_ms: u64 },
    /// Flip the capture side's enable flag. Always succeeds.
    SetCaptureEnabled(bool),
    /// Force capture on, collect this many fresh timing samples, restore the
    /// prior capture state, and return the trimmed-mean latency.
    MeasureCaptureLatency { iterations: usize },
}

/// The result of executing one [`Command`].
#[derive(Clone, Copy, Debug, PartialEq, Eq, Structural)]
pub enum Return {
    Nothing,
    /// A measured delay, in nanoseconds.
    Delay(u64),
}

/// A control message for the capture side.
#[derive(Clone, Copy, Debug, PartialEq, Eq, Structural)]
pub enum ScreenCapCommand {
    /// Enable or disable frame capture.
    CaptureEnabled(bool),
    /// Enable or disable per-cycle timing samples.
    CaptureTimingEnabled(bool),
}

/// The two flags the capture side polls each cycle.
#[derive(Clone, Copy, Debug, PartialEq, Eq, Structural)]
pub struct CaptureControl {
    /// When false, a capture cycle does no work at all: no transport call,
    /// no buffer write.
    pub capture_enabled: bool,
    /// When true, the elapsed time of each successful capture is pushed into
    /// the timing sampler.
    pub timing_enabled: bool,
}

impl CaptureControl {
    /// The initial state: capture and timing both off.
    pub fn off() -> (r: CaptureControl)
        ensures
            !r.capture_enabled,
            !r.timing_enabled,
    {
        CaptureControl { capture_enabled: false, timing_enabled: false }
    }

    /// Apply one control message. Each message sets exactly one flag and
    /// leaves the other unchanged.
    pub fn apply(&mut self, cmd: ScreenCapCommand)
        ensures
            *final(self) == old(self).apply_spec(cmd),
    {
        match cmd {
            ScreenCapCommand::CaptureEnabled(on) => {
                self.capture_enabled = on;
            }
            ScreenCapCommand::CaptureTimingEnabled(on) => {
                self.timing_enabled = on;
            }
        }
    }

    pub open spec fn apply_spec(self, cmd: ScreenCapCommand) -> CaptureControl {
        match cmd {
            ScreenCapCommand::CaptureEnabled(on) => CaptureControl {
                capture_enabled: on,
                ..self
            },
            ScreenCapCommand::CaptureTimingEnabled(on) => CaptureControl {
                timing_enabled: on,
                ..self
            },
        }
    }
}

} // verus!
