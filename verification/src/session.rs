//! One live session against one endpoint: the transport handle, the frame
//! buffer exchange, the timing sampler, and the capture-control flags.
//!
//! The session owns the device transport and serializes all commands: taps
//! and swipes, capture control, and latency measurement. The capture side is
//! driven one cycle at a time; a host loop (a thread or a task) calls
//! [`Session::capture_cycle`] continuously while clients submit commands.
//! Contracts are stated over the transport's call log: which raw operations
//! each command issues and in which order, and that a disabled capture side
//! issues none at all.

use vstd::prelude::*;

use crate::clock::TimeSource;
use crate::command::{CaptureControl, Command, Return, ScreenCapCommand};
use crate::errors::{ControllerError, TouchPhase};
use crate::exchange::{exchange_latest, exchange_len, FrameExchange};
use crate::sampler::{sampler_capacity, sampler_contents, LatencySampler};
use crate::stats;
use crate::transport::{Transport, TransportCall};

verus! {

/// How many timing samples the sampler holds at most.
pub const SAMPLER_CAPACITY: usize = 10;

/// The consumer-side view of the capture pipeline: the display geometry and
/// the frame buffer exchange the capture side publishes into.
pub struct ScreenCapture {
    pub width: usize,
    pub height: usize,
    pub capture: FrameExchange,
}

impl ScreenCapture {
    /// Every slot of the exchange holds exactly one frame of this geometry:
    /// four bytes per pixel.
    pub open spec fn wf(&self) -> bool {
        &&& exchange_len(&self.capture) == self.width * self.height * 4
        &&& exchange_latest(&self.capture).len() == exchange_len(&self.capture)
    }

    /// Read the latest published frame. On a well-formed capture pair the
    /// returned buffer always holds exactly `width * height * 4` bytes,
    /// however the producer and consumer interleave.
    pub fn read_frame(&mut self) -> (r: Vec<u8>)
        ensures
            final(self).width == old(self).width,
            final(self).height == old(self).height,
            exchange_len(&final(self).capture) == exchange_len(&old(self).capture),
            exchange_latest(&final(self).capture) == exchange_latest(&old(self).capture),
            r@ == exchange_latest(&old(self).capture),
            old(self).wf() ==> final(self).wf(),
            old(self).wf() ==> r@.len() == old(self).width * old(self).height * 4,
    {
        self.capture.read()
    }
}

/// One live session: exactly one transport handle, one frame buffer
/// exchange pair, one timing sampler, and the capture-control flags.
pub struct Session<T: Transport, C: TimeSource> {
    pub transport: T,
    pub clock: C,
    pub width: u32,
    pub height: u32,
    /// The producer-side frame slot the transport fills each cycle.
    pub scratch: Vec<u8>,
    pub screen: ScreenCapture,
    pub sampler: LatencySampler,
    pub control: CaptureControl,
}

/// Everything of a session but the transport and the clock is unchanged.
pub open spec fn same_but_transport<T: Transport, C: TimeSource>(
    pre: Session<T, C>,
    post: Session<T, C>,
) -> bool {
    &&& post.clock == pre.clock
    &&& post.width == pre.width
    &&& post.height == pre.height
    &&& post.scratch == pre.scratch
    &&& post.screen == pre.screen
    &&& post.sampler == pre.sampler
    &&& post.control == pre.control
}

/// What executing `Command::Tap { x, y }` relates: exactly one touch-down
/// then one touch-up at `(x, y)`, and the result follows the device's
/// answers exactly. Both answered zero: `Ok(Nothing)`. Touch-down answered
/// `code != 0`: touch-up is never issued and that very code surfaces as a
/// down-phase failure. Touch-up answered `code != 0` after a successful
/// down: that code surfaces as an up-phase failure.
pub open spec fn tap_rel<T: Transport, C: TimeSource>(
    pre: Session<T, C>,
    x: i32,
    y: i32,
    post: Session<T, C>,
    r: Result<Return, ControllerError>,
) -> bool {
    &&& same_but_transport(pre, post)
    &&& match r {
        Ok(ret) => {
            &&& ret == Return::Nothing
            &&& post.transport.calls() == pre.transport.calls().push(
                TransportCall::TouchDown { slot: 0, x, y, code: 0 },
            ).push(TransportCall::TouchUp { slot: 0, code: 0 })
        },
        Err(e) => match e {
            ControllerError::TouchFailed { phase: TouchPhase::Down, code } => {
                &&& code != 0
                &&& post.transport.calls() == pre.transport.calls().push(
                    TransportCall::TouchDown { slot: 0, x, y, code },
                )
            },
            ControllerError::TouchFailed { phase: TouchPhase::Up, code } => {
                &&& code != 0
                &&& post.transport.calls() == pre.transport.calls().push(
                    TransportCall::TouchDown { slot: 0, x, y, code: 0 },
                ).push(TransportCall::TouchUp { slot: 0, code })
            },
            _ => false,
        },
    }
}

/// What executing `Command::Scroll` relates: finger-down at the start
/// point, finger-down at the end point, then finger-up, in that exact
/// order, and the result follows the device's answers exactly: all three
/// answered zero means `Ok(Nothing)`; the first nonzero answer stops the
/// sequence there (the log shows which sub-step it was) and surfaces that
/// very code. The duration is accepted but does not pace the motion.
pub open spec fn scroll_rel<T: Transport, C: TimeSource>(
    pre: Session<T, C>,
    x1: i32,
    y1: i32,
    x2: i32,
    y2: i32,
    post: Session<T, C>,
    r: Result<Return, ControllerError>,
) -> bool {
    &&& same_but_transport(pre, post)
    &&& match r {
        Ok(ret) => {
            &&& ret == Return::Nothing
            &&& post.transport.calls() == pre.transport.calls().push(
                TransportCall::FingerTouchDown { slot: 0, finger: 1, x: x1, y: y1, code: 0 },
            ).push(
                TransportCall::FingerTouchDown { slot: 0, finger: 1, x: x2, y: y2, code: 0 },
            ).push(TransportCall::FingerTouchUp { slot: 0, finger: 1, code: 0 })
        },
        Err(e) => match e {
            ControllerError::TouchFailed { phase: TouchPhase::Down, code } => {
                &&& code != 0
                &&& (post.transport.calls() == pre.transport.calls().push(
                    TransportCall::FingerTouchDown { slot: 0, finger: 1, x: x1, y: y1, code },
                ) || post.transport.calls() == pre.transport.calls().push(
                    TransportCall::FingerTouchDown { slot: 0, finger: 1, x: x1, y: y1, code: 0 },
                ).push(
                    TransportCall::FingerTouchDown { slot: 0, finger: 1, x: x2, y: y2, code },
                ))
            },
            ControllerError::TouchFailed { phase: TouchPhase::Up, code } => {
                &&& code != 0
                &&& post.transport.calls() == pre.transport.calls().push(
                    TransportCall::FingerTouchDown { slot: 0, finger: 1, x: x1, y: y1, code: 0 },
                ).push(
                    TransportCall::FingerTouchDown { slot: 0, finger: 1, x: x2, y: y2, code: 0 },
                ).push(TransportCall::FingerTouchUp { slot: 0, finger: 1, code })
            },
            _ => false,
        },
    }
}

/// What executing `Command::SetCaptureEnabled` relates: the capture flag is
/// set, nothing else happens, and the command always succeeds.
pub open spec fn set_capture_rel<T: Transport, C: TimeSource>(
    pre: Session<T, C>,
    start: bool,
    post: Session<T, C>,
    r: Result<Return, ControllerError>,
) -> bool {
    &&& post == (Session {
        control: CaptureControl { capture_enabled: start, ..pre.control },
        ..pre
    })
    &&& r == Ok::<Return, ControllerError>(Return::Nothing)
}

/// What executing `Command::MeasureCaptureLatency` relates: the prior
/// capture-enabled state is restored, timing capture ends off, the
/// transport saw only capture calls, the sampler ends empty (stale samples
/// from an earlier timing window are discarded before collection, and every
/// fresh sample is consumed), asking for nothing measures a zero delay, and
/// on success the transport saw exactly one capture call per requested
/// sample. The returned delay is the trimmed mean of the collected samples;
/// their values come from the clock, of which nothing is promised, so the
/// delay's value is pinned only by the run-time behavior, not here.
pub open spec fn measure_rel<T: Transport, C: TimeSource>(
    pre: Session<T, C>,
    iterations: usize,
    post: Session<T, C>,
    r: Result<Return, ControllerError>,
) -> bool {
    &&& post.width == pre.width
    &&& post.height == pre.height
    &&& post.screen.width == pre.screen.width
    &&& post.screen.height == pre.screen.height
    &&& exchange_len(&post.screen.capture) == exchange_len(&pre.screen.capture)
    &&& post.scratch@.len() == pre.scratch@.len()
    &&& sampler_capacity(&post.sampler) == sampler_capacity(&pre.sampler)
    &&& post.control.capture_enabled == pre.control.capture_enabled
    &&& !post.control.timing_enabled
    &&& sampler_contents(&post.sampler).len() == 0
    &&& (iterations == 0 ==> r == Ok::<Return, ControllerError>(Return::Delay(0)))
    &&& pre.transport.calls().is_prefix_of(post.transport.calls())
    &&& forall|j: int|
        pre.transport.calls().len() <= j < post.transport.calls().len() ==> (
        #[trigger] post.transport.calls()[j]) is CaptureFrame
    &&& match r {
        Ok(ret) => match ret {
            Return::Delay(d) => {
                &&& post.transport.calls().len() == pre.transport.calls().len() + iterations
                &&& (iterations == 0 ==> d == 0)
            },
            Return::Nothing => false,
        },
        Err(e) => match e {
            ControllerError::CaptureFailed { code } => {
                &&& code != 0
                &&& post.transport.calls().len() > pre.transport.calls().len()
                &&& post.transport.calls().last() == TransportCall::CaptureFrame {
                    code,
                    got_width: 0,
                    got_height: 0,
                }
            },
            ControllerError::GeometryChangedMidSession {
                expected_width,
                expected_height,
                got_width,
                got_height,
            } => {
                &&& expected_width == pre.width
                &&& expected_height == pre.height
                &&& (got_width != pre.width || got_height != pre.height)
                &&& post.transport.calls().len() > pre.transport.calls().len()
                &&& post.transport.calls().last() == TransportCall::CaptureFrame {
                    code: 0,
                    got_width,
                    got_height,
                }
            },
            _ => false,
        },
    }
}

/// The step relation of the command side: how one command takes the session
/// from one state to the next and what it returns. Every clause of
/// `Session::execute`'s contract lives here, so chains of commands can be
/// reasoned about uniformly.
pub open spec fn step_rel<T: Transport, C: TimeSource>(
    pre: Session<T, C>,
    cmd: Command,
    post: Session<T, C>,
    r: Result<Return, ControllerError>,
) -> bool {
    match cmd {
        Command::Tap { x, y } => tap_rel(pre, x, y, post, r),
        Command::Scroll { x1, y1, x2, y2, duration_ms } => scroll_rel(
            pre,
            x1,
            y1,
            x2,
            y2,
            post,
            r,
        ),
        Command::SetCaptureEnabled(start) => set_capture_rel(pre, start, post, r),
        Command::MeasureCaptureLatency { iterations } => measure_rel(pre, iterations, post, r),
    }
}

/// `chain[i]` is the session state before command `i`; `chain.last()` the
/// state after the whole batch. Commands are processed strictly in
/// submission order, one to completion before the next, and `results[i]`
/// answers exactly `cmds[i]`: nothing is dropped or reordered.
pub open spec fn chain_ok<T: Transport, C: TimeSource>(
    chain: Seq<Session<T, C>>,
    cmds: Seq<Command>,
    results: Seq<Result<Return, ControllerError>>,
) -> bool {
    &&& chain.len() == cmds.len() + 1
    &&& results.len() == cmds.len()
    &&& forall|i: int|
        0 <= i < cmds.len() ==> step_rel(chain[i], #[trigger] cmds[i], chain[i + 1], results[i])
}

impl<T: Transport, C: TimeSource> Session<T, C> {
    /// The session's structural invariant: the exchange, the scratch slot
    /// and the geometry agree, the frame fits the session bound, and the
    /// sampler has its fixed capacity.
    pub open spec fn wf(&self) -> bool {
        &&& self.screen.wf()
        &&& self.screen.width == self.width as int
        &&& self.screen.height == self.height as int
        &&& self.scratch@.len() == self.width as int * self.height as int * 4
        &&& self.width as int * self.height as int * 4 <= usize::MAX as int
        &&& sampler_capacity(&self.sampler) == SAMPLER_CAPACITY as nat
    }

    /// Build a session at a known display geometry: size every frame slot
    /// to it, with capture disabled and nothing published or sampled yet.
    /// The given geometry becomes the session's, invariant for its whole
    /// lifetime. The one rejection is the machine limit: a geometry whose
    /// frame buffer cannot be addressed (`width * height * 4` bytes beyond
    /// `usize::MAX`).
    pub fn with_geometry(transport: T, clock: C, width: u32, height: u32) -> (r: Result<
        Session<T, C>,
        ControllerError,
    >)
        ensures
            match r {
                Ok(s) => {
                    &&& s.wf()
                    &&& s.width == width
                    &&& s.height == height
                    &&& (width as int) * (height as int) * 4 <= usize::MAX as int
                    &&& s.transport == transport
                    &&& s.clock == clock
                    &&& !s.control.capture_enabled
                    &&& !s.control.timing_enabled
                    &&& sampler_contents(&s.sampler) == Seq::<u64>::empty()
                    &&& exchange_latest(&s.screen.capture) == Seq::new(
                        (width as int * height as int * 4) as nat,
                        |i: int| 0u8,
                    )
                },
                Err(e) => {
                    &&& e == ControllerError::FrameTooLarge { width, height }
                    &&& (width as int) * (height as int) * 4 > usize::MAX as int
                },
            },
    {
        proof {
            assert((width as int) * (height as int) * 4 < 0x1_0000_0000_0000_0000_0000)
                by (nonlinear_arith)
                requires
                    width <= 0xffff_ffffu32,
                    height <= 0xffff_ffffu32,
            ;
        }
        let bytes: u128 = (width as u128) * (height as u128) * 4;
        if bytes > usize::MAX as u128 {
            return Err(ControllerError::FrameTooLarge { width, height });
        }
        let len: usize = (width as usize) * (height as usize) * 4;
        let scratch: Vec<u8> = vec![0u8; len];
        let capture = FrameExchange::new(len);
        let screen = ScreenCapture {
            width: width as usize,
            height: height as usize,
            capture,
        };
        let sampler = LatencySampler::new(SAMPLER_CAPACITY);
        Ok(
            Session {
                transport,
                clock,
                width,
                height,
                scratch,
                screen,
                sampler,
                control: CaptureControl::off(),
            },
        )
    }

    /// Establish a session: query the geometry once and build the session
    /// at exactly the queried geometry — on success the call log's one
    /// query record carries the very width and height the session now has
    /// (see [`Session::with_geometry`]). Capture starts disabled. The
    /// transport is consumed, so on failure the log is gone with it; the
    /// error still tells what happened: a query failure carries the
    /// device's nonzero code, an unaddressable geometry the queried
    /// dimensions.
    pub fn new(transport: T, clock: C) -> (r: Result<Session<T, C>, ControllerError>)
        ensures
            match r {
                Ok(s) => {
                    &&& s.wf()
                    &&& s.transport.calls() == transport.calls().push(
                        TransportCall::QueryGeometry {
                            code: 0,
                            width: s.width,
                            height: s.height,
                        },
                    )
                    &&& s.clock == clock
                    &&& !s.control.capture_enabled
                    &&& !s.control.timing_enabled
                    &&& sampler_contents(&s.sampler) == Seq::<u64>::empty()
                    &&& exchange_latest(&s.screen.capture) == Seq::new(
                        (s.width as int * s.height as int * 4) as nat,
                        |i: int| 0u8,
                    )
                },
                Err(e) => match e {
                    ControllerError::GeometryQueryFailed { code } => code != 0,
                    ControllerError::FrameTooLarge { width, height } => (width as int) * (
                    height as int) * 4 > usize::MAX as int,
                    _ => false,
                },
            },
    {
        let mut transport = transport;
        let geometry = transport.query_geometry();
        match geometry {
            Err(code) => Err(ControllerError::GeometryQueryFailed { code }),
            Ok((width, height)) => Self::with_geometry(transport, clock, width, height),
        }
    }

    /// One cycle of the capture side. When capture is disabled this does no
    /// work at all: no transport call, no buffer write. When enabled the
    /// outcome follows the device's recorded answer exactly: a nonzero
    /// capture code surfaces as `CaptureFailed` with that code and nothing
    /// is published; a reported geometry other than the session's is the
    /// fatal `GeometryChangedMidSession`, again with nothing published; a
    /// zero code at the session's own geometry publishes the filled scratch
    /// slot and, if timing capture is on, pushes the elapsed time into the
    /// sampler (dropping the sample if the sampler is full).
    pub fn capture_cycle(&mut self) -> (r: Result<bool, ControllerError>)
        requires
            old(self).wf(),
        ensures
            final(self).wf(),
            final(self).width == old(self).width,
            final(self).height == old(self).height,
            final(self).control == old(self).control,
            final(self).screen.width == old(self).screen.width,
            final(self).screen.height == old(self).screen.height,
            exchange_len(&final(self).screen.capture) == exchange_len(&old(self).screen.capture),
            final(self).scratch@.len() == old(self).scratch@.len(),
            sampler_capacity(&final(self).sampler) == sampler_capacity(&old(self).sampler),
            match r {
                Ok(published) => {
                    if published {
                        &&& old(self).control.capture_enabled
                        &&& final(self).transport.calls() == old(self).transport.calls().push(
                            TransportCall::CaptureFrame {
                                code: 0,
                                got_width: old(self).width,
                                got_height: old(self).height,
                            },
                        )
                        &&& exchange_latest(&final(self).screen.capture) == final(self).scratch@
                        &&& if old(self).control.timing_enabled {
                            &&& (sampler_contents(&old(self).sampler).len() < sampler_capacity(
                                &old(self).sampler,
                            ) ==> exists|v: u64|
                                sampler_contents(&final(self).sampler) == sampler_contents(
                                    &old(self).sampler,
                                ).push(v))
                            &&& (sampler_contents(&old(self).sampler).len() >= sampler_capacity(
                                &old(self).sampler,
                            ) ==> sampler_contents(&final(self).sampler) == sampler_contents(
                                &old(self).sampler,
                            ))
                            &&& sampler_contents(&final(self).sampler).len() >= 1
                        } else {
                            sampler_contents(&final(self).sampler) == sampler_contents(
                                &old(self).sampler,
                            )
                        }
                    } else {
                        &&& !old(self).control.capture_enabled
                        &&& *final(self) == *old(self)
                    }
                },
                Err(e) => {
                    &&& old(self).control.capture_enabled
                    &&& exchange_latest(&final(self).screen.capture) == exchange_latest(
                        &old(self).screen.capture,
                    )
                    &&& sampler_contents(&final(self).sampler) == sampler_contents(
                        &old(self).sampler,
                    )
                    &&& match e {
                        ControllerError::CaptureFailed { code } => {
                            &&& code != 0
                            &&& final(self).transport.calls() == old(
                                self,
                            ).transport.calls().push(
                                TransportCall::CaptureFrame {
                                    code,
                                    got_width: 0,
                                    got_height: 0,
                                },
                            )
                        },
                        ControllerError::GeometryChangedMidSession {
                            expected_width,
                            expected_height,
                            got_width,
                            got_height,
                        } => {
                            &&& expected_width == old(self).width
                            &&& expected_height == old(self).height
                            &&& (got_width != old(self).width || got_height != old(self).height)
                            &&& final(self).transport.calls() == old(
                                self,
                            ).transport.calls().push(
                                TransportCall::CaptureFrame { code: 0, got_width, got_height },
                            )
                        },
                        _ => false,
                    }
                },
            },
    {
        if !self.control.capture_enabled {
            return Ok(false);
        }
        let start = self.clock.now_nanos();
        let captured = self.transport.capture_frame(&mut self.scratch);
        match captured {
            Err(code) => Err(ControllerError::CaptureFailed { code }),
            Ok((got_width, got_height)) => {
                if got_width != self.width || got_height != self.height {
                    return Err(
                        ControllerError::GeometryChangedMidSession {
                            expected_width: self.width,
                            expected_height: self.height,
                            got_width,
                            got_height,
                        },
                    );
                }
                self.screen.capture.publish(&self.scratch);
                if self.control.timing_enabled {
                    let end = self.clock.now_nanos();
                    let elapsed = if end >= start {
                        end - start
                    } else {
                        0
                    };
                    let _ = self.sampler.try_push(elapsed);
                }
                Ok(true)
            },
        }
    }

    /// The latest published frame, collapsed to grayscale for the
    /// recognizer: the capture source's RGBA bytes, one luma byte per
    /// pixel.
    pub fn read_gray_frame(&mut self) -> (r: crate::img::GrayImage)
        requires
            old(self).wf(),
        ensures
            final(self).wf(),
            final(self).transport == old(self).transport,
            final(self).clock == old(self).clock,
            final(self).width == old(self).width,
            final(self).height == old(self).height,
            final(self).scratch == old(self).scratch,
            final(self).sampler == old(self).sampler,
            final(self).control == old(self).control,
            final(self).screen.width == old(self).screen.width,
            final(self).screen.height == old(self).screen.height,
            exchange_len(&final(self).screen.capture) == exchange_len(&old(self).screen.capture),
            exchange_latest(&final(self).screen.capture) == exchange_latest(
                &old(self).screen.capture,
            ),
            r.wf(),
            r.width == old(self).width as int,
            r.height == old(self).height as int,
            forall|i: int|
                0 <= i < r.width * r.height ==> r.pixels@[i] == crate::img::luma_spec(
                    exchange_latest(&old(self).screen.capture)[4 * i],
                    exchange_latest(&old(self).screen.capture)[4 * i + 1],
                    exchange_latest(&old(self).screen.capture)[4 * i + 2],
                ),
    {
        let frame = self.screen.read_frame();
        crate::img::rgba_to_gray(&frame, self.screen.width, self.screen.height)
    }

    /// Apply a capture-side control message.
    pub fn apply_screen_cap_command(&mut self, cmd: ScreenCapCommand)
        ensures
            *final(self) == (Session { control: old(self).control.apply_spec(cmd), ..*old(self) }),
    {
        self.control.apply(cmd);
    }

    /// Tap: one touch-down then one touch-up at `(x, y)`. A failed
    /// touch-down aborts the command: the touch-up is never issued.
    pub fn tap(&mut self, x: i32, y: i32) -> (r: Result<Return, ControllerError>)
        requires
            old(self).wf(),
        ensures
            final(self).wf(),
            tap_rel(*old(self), x, y, *final(self), r),
    {
        let down = self.transport.touch_down(0, x, y);
        if down != 0 {
            return Err(ControllerError::TouchFailed { phase: TouchPhase::Down, code: down });
        }
        let up = self.transport.touch_up(0);
        if up != 0 {
            return Err(ControllerError::TouchFailed { phase: TouchPhase::Up, code: up });
        }
        Ok(Return::Nothing)
    }

    /// Scroll: finger-down at `(x1, y1)`, finger-down at `(x2, y2)`, then
    /// finger-up, in that exact order. The duration parameter is accepted
    /// but, by current policy, not used to pace the motion.
    pub fn scroll(&mut self, x1: i32, y1: i32, x2: i32, y2: i32, duration_ms: u64) -> (r: Result<
        Return,
        ControllerError,
    >)
        requires
            old(self).wf(),
        ensures
            final(self).wf(),
            scroll_rel(*old(self), x1, y1, x2, y2, *final(self), r),
    {
        let _ = duration_ms;
        let down1 = self.transport.finger_touch_down(0, 1, x1, y1);
        if down1 != 0 {
            return Err(ControllerError::TouchFailed { phase: TouchPhase::Down, code: down1 });
        }
        let down2 = self.transport.finger_touch_down(0, 1, x2, y2);
        if down2 != 0 {
            return Err(ControllerError::TouchFailed { phase: TouchPhase::Down, code: down2 });
        }
        let up = self.transport.finger_touch_up(0, 1);
        if up != 0 {
            return Err(ControllerError::TouchFailed { phase: TouchPhase::Up, code: up });
        }
        Ok(Return::Nothing)
    }

    /// Flip the capture side's enable flag. Always succeeds.
    pub fn control_screen_capture(&mut self, start: bool) -> (r: Result<Return, ControllerError>)
        ensures
            set_capture_rel(*old(self), start, *final(self), r),
    {
        self.control.capture_enabled = start;
        Ok(Return::Nothing)
    }

    /// Flip the capture side's timing flag. Always succeeds.
    pub fn control_screen_capture_timing(&mut self, start: bool) -> (r: Result<
        Return,
        ControllerError,
    >)
        ensures
            *final(self) == (Session {
                control: CaptureControl { timing_enabled: start, ..old(self).control },
                ..*old(self)
            }),
            r == Ok::<Return, ControllerError>(Return::Nothing),
    {
        self.control.timing_enabled = start;
        Ok(Return::Nothing)
    }

    /// Measure capture latency: discard any samples left over from an
    /// earlier timing window, force capture and timing on, run capture
    /// cycles until `iterations` fresh samples have been collected, restore
    /// the prior capture-enabled state, and return the trimmed mean of the
    /// samples as a delay in nanoseconds. Only samples produced by this
    /// measurement's own capture cycles enter the mean, and none is left
    /// queued behind.
    pub fn measure_capture_latency(&mut self, iterations: usize) -> (r: Result<
        Return,
        ControllerError,
    >)
        requires
            old(self).wf(),
        ensures
            final(self).wf(),
            measure_rel(*old(self), iterations, *final(self), r),
    {
        let prior = self.control.capture_enabled;
        // Discard samples left over from an earlier timing window, so that
        // only samples produced by this measurement's own capture cycles
        // enter the mean.
        let mut pending = self.sampler.try_pop();
        while pending.is_some()
            invariant
                self.wf(),
                prior == old(self).control.capture_enabled,
                self.control == old(self).control,
                self.transport == old(self).transport,
                self.clock == old(self).clock,
                self.width == old(self).width,
                self.height == old(self).height,
                self.screen == old(self).screen,
                self.scratch == old(self).scratch,
                sampler_capacity(&self.sampler) == sampler_capacity(&old(self).sampler),
                pending is None ==> sampler_contents(&self.sampler).len() == 0,
            decreases sampler_contents(&self.sampler).len() + (if pending is Some {
                1int
            } else {
                0int
            }),
        {
            pending = self.sampler.try_pop();
        }
        self.control.capture_enabled = true;
        self.control.timing_enabled = true;
        let mut samples: Vec<u64> = Vec::new();
        while samples.len() < iterations
            invariant
                self.wf(),
                prior == old(self).control.capture_enabled,
                sampler_contents(&self.sampler).len() == 0,
                samples@.len() <= iterations,
                self.control.capture_enabled,
                self.control.timing_enabled,
                self.width == old(self).width,
                self.height == old(self).height,
                self.screen.width == old(self).screen.width,
                self.screen.height == old(self).screen.height,
                exchange_len(&self.screen.capture) == exchange_len(&old(self).screen.capture),
                self.scratch@.len() == old(self).scratch@.len(),
                sampler_capacity(&self.sampler) == sampler_capacity(&old(self).sampler),
                old(self).transport.calls().is_prefix_of(self.transport.calls()),
                self.transport.calls().len() == old(self).transport.calls().len()
                    + samples@.len(),
                forall|j: int|
                    old(self).transport.calls().len() <= j < self.transport.calls().len() ==> (
                    #[trigger] self.transport.calls()[j]) is CaptureFrame,
            decreases iterations - samples@.len(),
        {
            let ghost calls_before = self.transport.calls();
            let cycled = self.capture_cycle();
            proof {
                lemma_push_extends_capture_only(
                    old(self).transport.calls(),
                    calls_before,
                    self.transport.calls(),
                );
            }
            match cycled {
                Err(e) => {
                    self.control.capture_enabled = prior;
                    self.control.timing_enabled = false;
                    return Err(e);
                },
                Ok(_) => {},
            }
            let popped = self.sampler.try_pop();
            match popped {
                Some(v) => {
                    samples.push(v);
                },
                None => {
                    proof {
                        assert(false);
                    }
                },
            }
        }
        self.control.capture_enabled = prior;
        self.control.timing_enabled = false;
        if samples.len() == 0 {
            return Ok(Return::Delay(0));
        }
        let d = stats::trimmed_mean(&samples);
        Ok(Return::Delay(d))
    }

    /// Execute one command against the session. Conceptually synchronous:
    /// the command runs to completion before the call returns, and commands
    /// are never interleaved with each other.
    pub fn execute(&mut self, cmd: Command) -> (r: Result<Return, ControllerError>)
        requires
            old(self).wf(),
        ensures
            final(self).wf(),
            step_rel(*old(self), cmd, *final(self), r),
    {
        match cmd {
            Command::Tap { x, y } => self.tap(x, y),
            Command::Scroll { x1, y1, x2, y2, duration_ms } => self.scroll(
                x1,
                y1,
                x2,
                y2,
                duration_ms,
            ),
            Command::SetCaptureEnabled(start) => self.control_screen_capture(start),
            Command::MeasureCaptureLatency { iterations } => self.measure_capture_latency(
                iterations,
            ),
        }
    }

    /// Execute a batch of commands strictly in submission order, one to
    /// completion before the next. `results[i]` answers exactly `cmds[i]`:
    /// no command is dropped or reordered, even when touches mix with
    /// capture control and diagnostics.
    pub fn run_commands(&mut self, cmds: &Vec<Command>) -> (results: Vec<
        Result<Return, ControllerError>,
    >)
        requires
            old(self).wf(),
        ensures
            final(self).wf(),
            results@.len() == cmds@.len(),
            exists|chain: Seq<Session<T, C>>|
                {
                    &&& #[trigger] chain_ok(chain, cmds@, results@)
                    &&& chain[0] == *old(self)
                    &&& chain.last() == *final(self)
                },
    {
        let mut results: Vec<Result<Return, ControllerError>> = Vec::new();
        let ghost mut chain: Seq<Session<T, C>> = seq![*old(self)];
        let mut i: usize = 0;
        while i < cmds.len()
            invariant
                old(self).wf(),
                self.wf(),
                i <= cmds@.len(),
                results@.len() == i,
                chain.len() == i + 1,
                chain[0] == *old(self),
                chain.last() == *self,
                forall|j: int|
                    0 <= j < i ==> step_rel(chain[j], #[trigger] cmds@[j], chain[j + 1], results@[j]),
            decreases cmds@.len() - i,
        {
            let cmd = cmds[i];
            let r = self.execute(cmd);
            results.push(r);
            proof {
                chain = chain.push(*self);
            }
            i = i + 1;
        }
        proof {
            assert(chain_ok(chain, cmds@, results@));
        }
        results
    }
}

/// Whether a command can turn the capture side on.
pub open spec fn enables_capture(cmd: Command) -> bool {
    ||| cmd matches Command::SetCaptureEnabled(true)
    ||| cmd matches Command::MeasureCaptureLatency { .. }
}

/// One step of a batch that starts disabled and never re-enables capture:
/// the capture side stays disabled and the transport saw no capture call.
proof fn lemma_disabled_step<T: Transport, C: TimeSource>(
    pre: Session<T, C>,
    cmd: Command,
    post: Session<T, C>,
    r: Result<Return, ControllerError>,
)
    requires
        step_rel(pre, cmd, post, r),
        !pre.control.capture_enabled,
        !enables_capture(cmd),
    ensures
        !post.control.capture_enabled,
        pre.transport.calls().is_prefix_of(post.transport.calls()),
        forall|j: int|
            pre.transport.calls().len() <= j < post.transport.calls().len() ==> !((
            #[trigger] post.transport.calls()[j]) is CaptureFrame),
{
    let a = pre.transport.calls();
    let b = post.transport.calls();
    match cmd {
        Command::Tap { .. } => {
            assert(a =~= b.subrange(0, a.len() as int));
        },
        Command::Scroll { .. } => {
            assert(a =~= b.subrange(0, a.len() as int));
        },
        Command::SetCaptureEnabled(start) => {
            assert(a =~= b.subrange(0, a.len() as int));
        },
        Command::MeasureCaptureLatency { .. } => {
            assert(false);
        },
    }
}

/// The capture-gating law: starting from a session whose capture side is
/// disabled, a batch of commands that never re-enables capture (no
/// `SetCaptureEnabled(true)`, no latency measurement) keeps it disabled
/// throughout, and not one transport capture call occurs anywhere in the
/// batch.
pub proof fn lemma_capture_stays_disabled<T: Transport, C: TimeSource>(
    chain: Seq<Session<T, C>>,
    cmds: Seq<Command>,
    results: Seq<Result<Return, ControllerError>>,
)
    requires
        chain_ok(chain, cmds, results),
        !chain[0].control.capture_enabled,
        forall|i: int| 0 <= i < cmds.len() ==> !enables_capture(#[trigger] cmds[i]),
    ensures
        forall|i: int| 0 <= i < chain.len() ==> !(#[trigger] chain[i]).control.capture_enabled,
        chain[0].transport.calls().is_prefix_of(chain.last().transport.calls()),
        forall|j: int|
            chain[0].transport.calls().len() <= j < chain.last().transport.calls().len() ==> !((
            #[trigger] chain.last().transport.calls()[j]) is CaptureFrame),
    decreases cmds.len(),
{
    if cmds.len() == 0 {
        assert(chain.last() == chain[0]);
        assert(chain[0].transport.calls() =~= chain.last().transport.calls().subrange(
            0,
            chain[0].transport.calls().len() as int,
        ));
    } else {
        lemma_disabled_step(chain[0], cmds[0], chain[1], results[0]);
        let chain2 = chain.drop_first();
        let cmds2 = cmds.drop_first();
        let results2 = results.drop_first();
        assert forall|i: int| 0 <= i < cmds2.len() implies step_rel(
            chain2[i],
            #[trigger] cmds2[i],
            chain2[i + 1],
            results2[i],
        ) by {
            assert(cmds2[i] == cmds[i + 1]);
            assert(chain2[i] == chain[i + 1]);
            assert(chain2[i + 1] == chain[i + 2]);
            assert(results2[i] == results[i + 1]);
            assert(step_rel(chain[i + 1], cmds[i + 1], chain[i + 2], results[i + 1]));
        }
        assert(chain_ok(chain2, cmds2, results2));
        assert forall|i: int| 0 <= i < cmds2.len() implies !enables_capture(
            #[trigger] cmds2[i],
        ) by {
            assert(cmds2[i] == cmds[i + 1]);
        }
        lemma_capture_stays_disabled(chain2, cmds2, results2);
        assert(chain2.last() == chain.last());
        assert forall|i: int| 0 <= i < chain.len() implies !(#[trigger] chain[i]).control.capture_enabled by {
            if i >= 1 {
                assert(chain[i] == chain2[i - 1]);
            }
        }
        lemma_no_capture_extension_trans(
            chain[0].transport.calls(),
            chain[1].transport.calls(),
            chain.last().transport.calls(),
        );
    }
}

/// Prefix extensions that add no capture call compose.
proof fn lemma_no_capture_extension_trans(
    a: Seq<TransportCall>,
    b: Seq<TransportCall>,
    c: Seq<TransportCall>,
)
    requires
        a.is_prefix_of(b),
        forall|j: int| a.len() <= j < b.len() ==> !((#[trigger] b[j]) is CaptureFrame),
        b.is_prefix_of(c),
        forall|j: int| b.len() <= j < c.len() ==> !((#[trigger] c[j]) is CaptureFrame),
    ensures
        a.is_prefix_of(c),
        forall|j: int| a.len() <= j < c.len() ==> !((#[trigger] c[j]) is CaptureFrame),
{
    assert(a =~= c.subrange(0, a.len() as int));
    assert forall|j: int| a.len() <= j < c.len() implies !((#[trigger] c[j]) is CaptureFrame) by {
        if j < b.len() {
            assert(c[j] == b.subrange(0, b.len() as int)[j]);
        }
    }
}

/// Appending one capture record keeps an extension capture-only.
proof fn lemma_push_extends_capture_only(
    base: Seq<TransportCall>,
    mid: Seq<TransportCall>,
    end: Seq<TransportCall>,
)
    requires
        base.is_prefix_of(mid),
        forall|j: int| base.len() <= j < mid.len() ==> (#[trigger] mid[j]) is CaptureFrame,
        end == mid || exists|rec: TransportCall|
            rec is CaptureFrame && end == #[trigger] mid.push(rec),
    ensures
        base.is_prefix_of(end),
        forall|j: int| base.len() <= j < end.len() ==> (#[trigger] end[j]) is CaptureFrame,
{
    if end != mid {
        let rec = choose|rec: TransportCall| rec is CaptureFrame && end == #[trigger] mid.push(
            rec,
        );
        assert(end == mid.push(rec));
        assert(base =~= end.subrange(0, base.len() as int));
        assert forall|j: int| base.len() <= j < end.len() implies (
        #[trigger] end[j]) is CaptureFrame by {
            if j < mid.len() {
                assert(end[j] == mid[j]);
            } else {
                assert(end[j] == rec);
            }
        }
    }
}

} // verus!
