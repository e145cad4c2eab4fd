//! The timing sampler: a fixed-capacity ring buffer of elapsed-time samples.
//!
//! Single producer (the capture side) and single consumer (the latency
//! measurement routine). A push never blocks: when the buffer is full and
//! uncollected the sample is dropped, so the capture side feels no
//! backpressure. A pop never blocks either.
//!
//! The buffer comes from the `ringbuf` crate; this module owns both halves
//! of the split pair and states the queue discipline over their shared
//! contents.

use vstd::prelude::*;

verus! {

/// The samples currently queued, eldest first, in nanoseconds.
pub uninterp spec fn sampler_contents(s: &LatencySampler) -> Seq<u64>;

/// The fixed capacity the sampler was created with.
pub uninterp spec fn sampler_capacity(s: &LatencySampler) -> nat;

/// A bounded single-producer/single-consumer queue of elapsed-time samples.
///
/// The struct hides the two halves of a split `ringbuf` heap ring buffer.
/// They share one ring, so no honest contract could be stated on either half
/// alone; holding both in one place lets `try_push` and `try_pop` speak
/// about the same queue.
#[verifier::external_body]
pub struct LatencySampler {
    prod: ringbuf::HeapProd<u64>,
    cons: ringbuf::HeapCons<u64>,
}

impl LatencySampler {
    /// Create a sampler that holds at most `capacity` samples.
    ///
    /// Relies on `ringbuf::SharedRb::new` and `split`, which hand out the
    /// producer and consumer halves of an empty ring of that capacity.
    #[verifier::external_body]
    pub fn new(capacity: usize) -> (r: LatencySampler)
        requires
            capacity >= 1,
        ensures
            sampler_capacity(&r) == capacity,
            sampler_contents(&r) == Seq::<u64>::empty(),
    {
        let rb = ringbuf::HeapRb::<u64>::new(capacity);
        let (prod, cons) = ringbuf::traits::Split::split(rb);
        LatencySampler { prod, cons }
    }

    /// Append a sample if there is room; drop it otherwise.
    ///
    /// Relies on `ringbuf::traits::Producer::try_push`, which appends the
    /// item when the ring is not full and returns it back when it is.
    #[verifier::external_body]
    pub fn try_push(&mut self, sample: u64) -> (r: bool)
        ensures
            sampler_capacity(final(self)) == sampler_capacity(old(self)),
            sampler_contents(old(self)).len() < sampler_capacity(old(self)) ==> {
                &&& r
                &&& sampler_contents(final(self)) == sampler_contents(old(self)).push(sample)
            },
            sampler_contents(old(self)).len() >= sampler_capacity(old(self)) ==> {
                &&& !r
                &&& sampler_contents(final(self)) == sampler_contents(old(self))
            },
    {
        ringbuf::traits::Producer::try_push(&mut self.prod, sample).is_ok()
    }

    /// Remove and return the eldest sample, or `None` if the queue is empty.
    ///
    /// Relies on `ringbuf::traits::Consumer::try_pop`.
    #[verifier::external_body]
    pub fn try_pop(&mut self) -> (r: Option<u64>)
        ensures
            sampler_capacity(final(self)) == sampler_capacity(old(self)),
            sampler_contents(old(self)).len() > 0 ==> {
                &&& r == Some(sampler_contents(old(self))[0])
                &&& sampler_contents(final(self)) == sampler_contents(old(self)).drop_first()
            },
            sampler_contents(old(self)).len() == 0 ==> {
                &&& r is None
                &&& sampler_contents(final(self)) == sampler_contents(old(self))
            },
    {
        ringbuf::traits::Consumer::try_pop(&mut self.cons)
    }
}

} // verus!
