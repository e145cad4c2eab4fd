//! Error taxonomy of the pipeline.
//!
//! Transport-level numeric error codes are translated into these typed errors
//! at the boundary and never exposed as raw integers above the command side.
//! Recognition failures (`NoMatch`, `LowConfidence`) are expected and
//! recoverable; geometry drift is fatal for the session.

use vstd::prelude::*;

verus! {

/// Which half of a touch sequence failed.
#[derive(Clone, Copy, Debug, PartialEq, Eq, Structural)]
pub enum TouchPhase {
    Down,
    Up,
}

/// Everything that can go wrong in a session.
#[derive(Clone, Copy, Debug, PartialEq, Eq, Structural)]
pub enum ControllerError {
    /// The transport could not establish a connection to the endpoint.
    TransportConnectFailed { code: i32 },
    /// The initial geometry query against the transport failed.
    GeometryQueryFailed { code: i32 },
    /// The display geometry changed after the session was established.
    /// This is a fatal consistency violation and is never retried.
    GeometryChangedMidSession {
        expected_width: u32,
        expected_height: u32,
        got_width: u32,
        got_height: u32,
    },
    /// The queried display geometry needs a frame buffer larger than this
    /// machine can address. A machine limit, not a transport failure.
    FrameTooLarge { width: u32, height: u32 },
    /// A capture call failed; reported per cycle.
    CaptureFailed { code: i32 },
    /// A touch-down or touch-up sub-step failed with the given raw code.
    TouchFailed { phase: TouchPhase, code: i32 },
    /// The command channel closed: a normal shutdown signal.
    ChannelClosed,
    /// No known page matched the frame.
    NoMatch,
    /// A page matched, but below the confidence threshold.
    /// Both values are in parts per million of a full match.
    LowConfidence { confidence: u64, threshold: u64 },
    /// A template image could not be loaded or has an impossible shape.
    ImageLoadFailed,
}

impl ControllerError {
    /// A short, stable label for the error variant, for logs and messages.
    pub fn label(&self) -> (r: &'static str)
        ensures
            r@ == self.label_spec(),
    {
        match self {
            ControllerError::TransportConnectFailed { .. } => "transport connect failed",
            ControllerError::GeometryQueryFailed { .. } => "geometry query failed",
            ControllerError::GeometryChangedMidSession { .. } => "geometry changed mid-session",
            ControllerError::FrameTooLarge { .. } => "frame too large",
            ControllerError::CaptureFailed { .. } => "capture failed",
            ControllerError::TouchFailed { .. } => "touch failed",
            ControllerError::ChannelClosed => "channel closed",
            ControllerError::NoMatch => "no match",
            ControllerError::LowConfidence { .. } => "low confidence",
            ControllerError::ImageLoadFailed => "image load failed",
        }
    }

    pub open spec fn label_spec(&self) -> Seq<char> {
        match self {
            ControllerError::TransportConnectFailed { .. } => "transport connect failed"@,
            ControllerError::GeometryQueryFailed { .. } => "geometry query failed"@,
            ControllerError::GeometryChangedMidSession { .. } => "geometry changed mid-session"@,
            ControllerError::FrameTooLarge { .. } => "frame too large"@,
            ControllerError::CaptureFailed { .. } => "capture failed"@,
            ControllerError::TouchFailed { .. } => "touch failed"@,
            ControllerError::ChannelClosed => "channel closed"@,
            ControllerError::NoMatch => "no match"@,
            ControllerError::LowConfidence { .. } => "low confidence"@,
            ControllerError::ImageLoadFailed => "image load failed"@,
        }
    }
}

} // verus!
