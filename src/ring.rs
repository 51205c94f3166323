//! Fixed-capacity FIFO rings from the `ringbuf` crate, with the contracts the
//! filters and pulse detectors rely on.
//!
//! A ring's contents are named as a sequence, oldest item first. Pushing onto
//! a full ring drops (and hands back) its oldest item.
use vstd::prelude::*;
use ringbuf::traits::{Observer, RingBuffer};
use ringbuf::HeapRb;

verus! {

/// A heap-allocated ring of flags (`ringbuf::HeapRb<bool>`).
#[verifier::external_body]
pub struct FlagRing {
    rb: HeapRb<bool>,
}

/// What a ring of flags holds, oldest first.
pub uninterp spec fn flags_of(r: FlagRing) -> Seq<bool>;

/// The capacity that a ring of flags was made with.
pub uninterp spec fn flag_capacity(r: FlagRing) -> nat;

impl FlagRing {
    /// Relies on `HeapRb::new`: an empty ring of exactly `capacity` slots (it
    /// panics on a capacity of zero).
    #[verifier::external_body]
    pub(crate) fn new(capacity: usize) -> (r: FlagRing)
        requires
            capacity > 0,
        ensures
            flags_of(r) == Seq::<bool>::empty(),
            flag_capacity(r) == capacity,
    {
        FlagRing { rb: HeapRb::new(capacity) }
    }

    /// Relies on `RingBuffer::push_overwrite`: when the ring is full it pops
    /// the oldest flag and returns it, then appends `x`; otherwise it appends
    /// `x` and returns `None`.
    #[verifier::external_body]
    pub(crate) fn push_overwrite(&mut self, x: bool) -> (dropped: Option<bool>)
        ensures
            flag_capacity(*final(self)) == flag_capacity(*old(self)),
            flags_of(*old(self)).len() < flag_capacity(*old(self)) ==> {
                &&& dropped == None::<bool>
                &&& flags_of(*final(self)) == flags_of(*old(self)).push(x)
            },
            flags_of(*old(self)).len() >= flag_capacity(*old(self)) ==> {
                &&& dropped == Some(flags_of(*old(self))[0])
                &&& flags_of(*final(self)) == flags_of(*old(self)).drop_first().push(x)
            },
    {
        self.rb.push_overwrite(x)
    }

    /// Relies on `Observer::occupied_len`: the number of flags held.
    #[verifier::external_body]
    pub(crate) fn occupied_len(&self) -> (n: usize)
        ensures
            n == flags_of(*self).len(),
    {
        self.rb.occupied_len()
    }
}

/// A heap-allocated ring of frequency samples (`ringbuf::HeapRb<i32>`).
#[verifier::external_body]
pub struct SampleRing {
    rb: HeapRb<i32>,
}

/// What a ring of samples holds, oldest first.
pub uninterp spec fn samples_of(r: SampleRing) -> Seq<i32>;

/// The capacity that a ring of samples was made with.
pub uninterp spec fn sample_capacity(r: SampleRing) -> nat;

impl SampleRing {
    /// Relies on `HeapRb::new`: an empty ring of exactly `capacity` slots (it
    /// panics on a capacity of zero).
    #[verifier::external_body]
    pub(crate) fn new(capacity: usize) -> (r: SampleRing)
        requires
            capacity > 0,
        ensures
            samples_of(r) == Seq::<i32>::empty(),
            sample_capacity(r) == capacity,
    {
        SampleRing { rb: HeapRb::new(capacity) }
    }

    /// Relies on `RingBuffer::push_overwrite`: when the ring is full it pops
    /// the oldest sample and returns it, then appends `x`; otherwise it
    /// appends `x` and returns `None`.
    #[verifier::external_body]
    pub(crate) fn push_overwrite(&mut self, x: i32) -> (dropped: Option<i32>)
        ensures
            sample_capacity(*final(self)) == sample_capacity(*old(self)),
            samples_of(*old(self)).len() < sample_capacity(*old(self)) ==> {
                &&& dropped == None::<i32>
                &&& samples_of(*final(self)) == samples_of(*old(self)).push(x)
            },
            samples_of(*old(self)).len() >= sample_capacity(*old(self)) ==> {
                &&& dropped == Some(samples_of(*old(self))[0])
                &&& samples_of(*final(self)) == samples_of(*old(self)).drop_first().push(x)
            },
    {
        self.rb.push_overwrite(x)
    }
}

} // verus!
