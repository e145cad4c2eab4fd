//! The device transport capability and a scripted stand-in for tests.
//!
//! The transport is the opaque synchronous binding that issues raw commands
//! to the device: query the display geometry, fill a frame buffer, press and
//! release touch points. It is injected into the session as a substitutable
//! capability rather than reached through a global binding, so the command
//! logic can be exercised against a scripted transport.
//!
//! Every operation records itself, together with the answer the device
//! gave, in a ghost call log, `calls()`. The session's contracts are stated
//! over that log: which calls a command issues, in which order, what each
//! was answered, and that a disabled capture side issues none.

use vstd::prelude::*;

verus! {

/// One raw operation issued to the device transport, together with the
/// device's answer: the status code (zero means success) and, for the
/// geometry-bearing operations, the geometry the device reported (zero by
/// convention when the operation failed).
#[derive(Clone, Copy, Debug, PartialEq, Eq, Structural)]
pub enum TransportCall {
    QueryGeometry { code: i32, width: u32, height: u32 },
    CaptureFrame { code: i32, got_width: u32, got_height: u32 },
    TouchDown { slot: i32, x: i32, y: i32, code: i32 },
    TouchUp { slot: i32, code: i32 },
    FingerTouchDown { slot: i32, finger: i32, x: i32, y: i32, code: i32 },
    FingerTouchUp { slot: i32, finger: i32, code: i32 },
}

/// The device transport: synchronous raw operations against one endpoint.
///
/// A zero code means success; any other code is a device-defined failure.
/// Nothing is promised about which codes or frames the device answers: the
/// device decides. What is promised is the call log: each operation appends
/// exactly its own record carrying the device's answer, so callers can
/// reason about which operations a command issued, in what order, and how
/// each was answered.
pub trait Transport: Sized {
    /// All operations issued so far, in order, with their answers.
    spec fn calls(&self) -> Seq<TransportCall>;

    /// Ask the device for its display geometry, in pixels. `Ok` carries the
    /// geometry and records it with code zero; `Err` carries and records
    /// the nonzero failure code.
    fn query_geometry(&mut self) -> (r: Result<(u32, u32), i32>)
        ensures
            match r {
                Ok((width, height)) => final(self).calls() == old(self).calls().push(
                    TransportCall::QueryGeometry { code: 0, width, height },
                ),
                Err(code) => {
                    &&& code != 0
                    &&& final(self).calls() == old(self).calls().push(
                        TransportCall::QueryGeometry { code, width: 0, height: 0 },
                    )
                },
            },
    ;

    /// Fill `buf` with the current frame; the buffer's length is preserved.
    /// `Ok` carries the geometry the frame was rendered at and records it
    /// with code zero; `Err` carries and records the nonzero failure code.
    fn capture_frame(&mut self, buf: &mut Vec<u8>) -> (r: Result<(u32, u32), i32>)
        ensures
            match r {
                Ok((width, height)) => final(self).calls() == old(self).calls().push(
                    TransportCall::CaptureFrame { code: 0, got_width: width, got_height: height },
                ),
                Err(code) => {
                    &&& code != 0
                    &&& final(self).calls() == old(self).calls().push(
                        TransportCall::CaptureFrame { code, got_width: 0, got_height: 0 },
                    )
                },
            },
            final(buf)@.len() == old(buf)@.len(),
    ;

    /// Press the touch point of `slot` at `(x, y)`; the returned code is
    /// recorded with the call.
    fn touch_down(&mut self, slot: i32, x: i32, y: i32) -> (code: i32)
        ensures
            final(self).calls() == old(self).calls().push(
                TransportCall::TouchDown { slot, x, y, code },
            ),
    ;

    /// Release the touch point of `slot`; the returned code is recorded
    /// with the call.
    fn touch_up(&mut self, slot: i32) -> (code: i32)
        ensures
            final(self).calls() == old(self).calls().push(TransportCall::TouchUp { slot, code }),
    ;

    /// Press finger `finger` of `slot` at `(x, y)`; the returned code is
    /// recorded with the call.
    fn finger_touch_down(&mut self, slot: i32, finger: i32, x: i32, y: i32) -> (code: i32)
        ensures
            final(self).calls() == old(self).calls().push(
                TransportCall::FingerTouchDown { slot, finger, x, y, code },
            ),
    ;

    /// Release finger `finger` of `slot`; the returned code is recorded
    /// with the call.
    fn finger_touch_up(&mut self, slot: i32, finger: i32) -> (code: i32)
        ensures
            final(self).calls() == old(self).calls().push(
                TransportCall::FingerTouchUp { slot, finger, code },
            ),
    ;
}

/// A scripted transport for tests: answers each operation with the next
/// code from a script (then zeroes), serves a fixed geometry and frame, and
/// keeps its call log in an ordinary vector that tests can inspect.
pub struct ScriptedTransport {
    pub width: u32,
    pub height: u32,
    /// The frame `capture_frame` serves; shorter frames are zero-padded to
    /// the caller's buffer length.
    pub frame: Vec<u8>,
    /// Result codes, consumed one per operation; exhausted means success.
    pub codes: Vec<i32>,
    pub next_code: usize,
    pub log: Vec<TransportCall>,
}

impl ScriptedTransport {
    pub fn new(width: u32, height: u32, frame: Vec<u8>) -> (r: ScriptedTransport)
        ensures
            r.width == width,
            r.height == height,
            r.frame == frame,
            r.codes@.len() == 0,
            r.next_code == 0,
            r.log@.len() == 0,
    {
        ScriptedTransport {
            width,
            height,
            frame,
            codes: Vec::new(),
            next_code: 0,
            log: Vec::new(),
        }
    }

    /// Replace the result-code script and rewind it.
    pub fn set_codes(&mut self, codes: Vec<i32>)
        ensures
            *final(self) == (ScriptedTransport { codes, next_code: 0usize, ..*old(self) }),
    {
        self.codes = codes;
        self.next_code = 0;
    }

    /// What `take_code` answers in state `self`.
    pub open spec fn next_code_spec(&self) -> i32 {
        if self.next_code < self.codes@.len() {
            self.codes@[self.next_code as int]
        } else {
            0i32
        }
    }

    /// The next scripted result code, or zero when the script is spent.
    fn take_code(&mut self) -> (r: i32)
        ensures
            r == old(self).next_code_spec(),
            final(self).width == old(self).width,
            final(self).height == old(self).height,
            final(self).frame == old(self).frame,
            final(self).codes == old(self).codes,
            final(self).log == old(self).log,
            final(self).next_code == if old(self).next_code < old(self).codes@.len() {
                old(self).next_code + 1
            } else {
                old(self).next_code as int
            },
    {
        if self.next_code < self.codes.len() {
            let c = self.codes[self.next_code];
            self.next_code = self.next_code + 1;
            c
        } else {
            0
        }
    }

    /// How many capture calls stand in the log; what the fake-transport
    /// instrumentation of the capture-gating tests counts.
    pub fn capture_call_count(&self) -> (r: usize)
        ensures
            r == self.log@.filter(|c: TransportCall| c is CaptureFrame).len(),
    {
        let mut count: usize = 0;
        let mut i: usize = 0;
        while i < self.log.len()
            invariant
                i <= self.log@.len(),
                count == self.log@.subrange(0, i as int).filter(
                    |c: TransportCall| c is CaptureFrame,
                ).len(),
            decreases self.log@.len() - i,
        {
            let is_capture = match self.log[i] {
                TransportCall::CaptureFrame { .. } => true,
                _ => false,
            };
            proof {
                assert(self.log@.subrange(0, (i + 1) as int).drop_last() == self.log@.subrange(
                    0,
                    i as int,
                ));
                reveal_with_fuel(Seq::filter, 2);
            }
            if is_capture {
                count = count + 1;
            }
            i = i + 1;
        }
        proof {
            assert(self.log@.subrange(0, self.log@.len() as int) == self.log@);
        }
        count
    }
}

impl Transport for ScriptedTransport {
    open spec fn calls(&self) -> Seq<TransportCall> {
        self.log@
    }

    fn query_geometry(&mut self) -> (r: Result<(u32, u32), i32>) {
        let code = self.take_code();
        if code == 0 {
            self.log.push(TransportCall::QueryGeometry {
                code: 0,
                width: self.width,
                height: self.height,
            });
            Ok((self.width, self.height))
        } else {
            self.log.push(TransportCall::QueryGeometry { code, width: 0, height: 0 });
            Err(code)
        }
    }

    fn capture_frame(&mut self, buf: &mut Vec<u8>) -> (r: Result<(u32, u32), i32>) {
        let code = self.take_code();
        if code != 0 {
            self.log.push(TransportCall::CaptureFrame { code, got_width: 0, got_height: 0 });
            return Err(code);
        }
        let n = buf.len();
        let mut i: usize = 0;
        while i < n
            invariant
                i <= n,
                buf@.len() == n,
            decreases n - i,
        {
            let v = if i < self.frame.len() {
                self.frame[i]
            } else {
                0u8
            };
            buf.set(i, v);
            i = i + 1;
        }
        self.log.push(TransportCall::CaptureFrame {
            code: 0,
            got_width: self.width,
            got_height: self.height,
        });
        Ok((self.width, self.height))
    }

    fn touch_down(&mut self, slot: i32, x: i32, y: i32) -> (code: i32) {
        let code = self.take_code();
        self.log.push(TransportCall::TouchDown { slot, x, y, code });
        code
    }

    fn touch_up(&mut self, slot: i32) -> (code: i32) {
        let code = self.take_code();
        self.log.push(TransportCall::TouchUp { slot, code });
        code
    }

    fn finger_touch_down(&mut self, slot: i32, finger: i32, x: i32, y: i32) -> (code: i32) {
        let code = self.take_code();
        self.log.push(TransportCall::FingerTouchDown { slot, finger, x, y, code });
        code
    }

    fn finger_touch_up(&mut self, slot: i32, finger: i32) -> (code: i32) {
        let code = self.take_code();
        self.log.push(TransportCall::FingerTouchUp { slot, finger, code });
        code
    }
}

} // verus!
