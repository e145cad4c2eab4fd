//! The frame buffer exchange: lock-free hand-off of the latest captured
//! frame from one producer to one consumer.
//!
//! The exchange is a triple buffer: `publish` swaps the just-written slot
//! into the shared middle slot, `read` claims the current shared slot. A fast
//! producer with a slow consumer causes frame drops, never backpressure and
//! never unbounded memory growth. Both sides agree on the buffer byte length
//! up front; that length is fixed for the object's lifetime.
//!
//! The buffer itself comes from the `triple_buffer` crate; this module owns
//! both halves of the split pair and states what the crate's operations do to
//! the published value.

use vstd::prelude::*;

verus! {

/// The byte length every slot of the exchange was created with.
pub uninterp spec fn exchange_len(e: &FrameExchange) -> nat;

/// The most recently published frame, or the initial all-zero frame if
/// nothing was published yet.
pub uninterp spec fn exchange_latest(e: &FrameExchange) -> Seq<u8>;

/// One producer slot, one consumer slot, one shared middle slot, all of a
/// fixed byte length.
///
/// The struct hides the two halves of a `triple_buffer` pair. They share
/// state through the crate's lock-free protocol, so no honest contract could
/// be stated on either half alone; holding both in one place lets `publish`
/// and `read` speak about the same published value.
#[verifier::external_body]
pub struct FrameExchange {
    input: triple_buffer::Input<Vec<u8>>,
    output: triple_buffer::Output<Vec<u8>>,
}

impl FrameExchange {
    /// Create an exchange whose every slot holds `len` zero bytes.
    ///
    /// Relies on `triple_buffer::triple_buffer`, which clones the initial
    /// value into all three slots.
    #[verifier::external_body]
    pub fn new(len: usize) -> (r: FrameExchange)
        ensures
            exchange_len(&r) == len,
            exchange_latest(&r) == Seq::<u8>::new(len as nat, |i: int| 0u8),
    {
        let (input, output) = triple_buffer::triple_buffer(&vec![0u8; len]);
        FrameExchange { input, output }
    }

    /// Publish a frame: it becomes the value the consumer will read next.
    ///
    /// Relies on `triple_buffer::Input::write`, which stores the value in the
    /// producer slot and atomically swaps that slot into the shared one.
    #[verifier::external_body]
    pub fn publish(&mut self, frame: &Vec<u8>)
        requires
            frame@.len() == exchange_len(old(self)),
        ensures
            exchange_len(final(self)) == exchange_len(old(self)),
            exchange_latest(final(self)) == frame@,
    {
        self.input.write(frame.clone());
    }

    /// Read the latest published frame, marking it seen.
    ///
    /// Relies on `triple_buffer::Output::read`, which claims the shared slot
    /// if the producer published since the last read and returns the
    /// consumer slot.
    #[verifier::external_body]
    pub fn read(&mut self) -> (r: Vec<u8>)
        ensures
            exchange_len(final(self)) == exchange_len(old(self)),
            exchange_latest(final(self)) == exchange_latest(old(self)),
            r@ == exchange_latest(old(self)),
    {
        self.output.read().clone()
    }
}

} // verus!
