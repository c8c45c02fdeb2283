//! Bounded FIFO sample buffers, backed by `ringbuf`'s heap ring buffer.
//!
//! A sample is held as its raw 32-bit pattern: an `f32` sample is stored by
//! its bits, and silence (`0.0`) is the all-zero pattern.

use ringbuf::traits::{Consumer, Observer, Producer};
use vstd::prelude::*;

verus! {

/// A bounded FIFO of samples. The `ringbuf` buffer it holds is opaque to
/// Verus; `ring_items` and `ring_capacity` describe it.
#[verifier::external_body]
pub struct SampleRing {
    rb: ringbuf::HeapRb<u32>,
}

/// The items held by a ring buffer, oldest first.
pub uninterp spec fn ring_items(ring: SampleRing) -> Seq<u32>;

/// The capacity a ring buffer was created with.
pub uninterp spec fn ring_capacity(ring: SampleRing) -> nat;

/// The silent sample: `f32` zero, or integer zero.
pub const SILENCE: u32 = 0;

impl View for SampleRing {
    type V = Seq<u32>;

    open spec fn view(&self) -> Seq<u32> {
        ring_items(*self)
    }
}

impl SampleRing {
    /// The number of items the buffer can hold.
    pub open spec fn cap(&self) -> nat {
        ring_capacity(*self)
    }

    /// `SharedRb::<Heap<u32>>::new(capacity)`: an empty buffer that holds at
    /// most `capacity` items. The constructor panics on a zero capacity.
    #[verifier::external_body]
    fn rb_new(capacity: usize) -> (ring: SampleRing)
        requires
            capacity > 0,
        ensures
            ring_items(ring) == Seq::<u32>::empty(),
            ring_capacity(ring) == capacity,
    {
        SampleRing { rb: ringbuf::HeapRb::<u32>::new(capacity) }
    }

    /// `Producer::try_push`: appends `x` unless the buffer is full, in which
    /// case it hands `x` back and leaves the buffer as it was.
    #[verifier::external_body]
    pub(crate) fn rb_try_push(ring: &mut SampleRing, x: u32) -> (pushed: Result<(), u32>)
        ensures
            ring_capacity(*final(ring)) == ring_capacity(*old(ring)),
            ring_items(*final(ring)).len() <= ring_capacity(*final(ring))
                && ring_items(*old(ring)).len() <= ring_capacity(*old(ring))
                && ring_capacity(*final(ring)) > 0,
            ring_items(*old(ring)).len() < ring_capacity(*old(ring)) ==> pushed is Ok
                && ring_items(*final(ring)) == ring_items(*old(ring)).push(x),
            ring_items(*old(ring)).len() >= ring_capacity(*old(ring)) ==> pushed is Err && pushed->Err_0 == x
                && ring_items(*final(ring)) == ring_items(*old(ring)),
    {
        ring.rb.try_push(x)
    }

    /// `Consumer::try_pop`: removes and returns the oldest item, or returns
    /// `None` on an empty buffer.
    #[verifier::external_body]
    pub(crate) fn rb_try_pop(ring: &mut SampleRing) -> (r: Option<u32>)
        ensures
            ring_capacity(*final(ring)) == ring_capacity(*old(ring)),
            ring_items(*final(ring)).len() <= ring_capacity(*final(ring))
                && ring_items(*old(ring)).len() <= ring_capacity(*old(ring))
                && ring_capacity(*final(ring)) > 0,
            ring_items(*old(ring)).len() > 0 ==> r == Some(ring_items(*old(ring))[0])
                && ring_items(*final(ring)) == ring_items(*old(ring)).drop_first(),
            ring_items(*old(ring)).len() == 0 ==> r is None
                && ring_items(*final(ring)) == ring_items(*old(ring)),
    {
        ring.rb.try_pop()
    }

    /// `Observer::occupied_len`: the number of items held, never above the
    /// capacity.
    #[verifier::external_body]
    pub(crate) fn rb_occupied_len(&self) -> (r: usize)
        ensures
            r == ring_items(*self).len() && r <= ring_capacity(*self),
    {
        self.rb.occupied_len()
    }

    /// `Observer::capacity`: the capacity, never zero.
    #[verifier::external_body]
    pub(crate) fn rb_capacity(&self) -> (r: usize)
        ensures
            r == ring_capacity(*self) && r > 0 && ring_items(*self).len() <= r,
    {
        self.rb.capacity().get()
    }

    /// `Producer::push_slice`: appends as many of `elems`, from the first
    /// on, as there is room for, and returns how many.
    #[verifier::external_body]
    pub(crate) fn rb_push_slice(ring: &mut SampleRing, elems: &[u32]) -> (count: usize)
        ensures
            ring_capacity(*final(ring)) == ring_capacity(*old(ring)),
            ring_items(*final(ring)).len() <= ring_capacity(*final(ring))
                && ring_items(*old(ring)).len() <= ring_capacity(*old(ring))
                && ring_capacity(*final(ring)) > 0,
            count == (if elems@.len() <= ring_capacity(*old(ring)) - ring_items(*old(ring)).len() {
                elems@.len() as int
            } else {
                ring_capacity(*old(ring)) - ring_items(*old(ring)).len()
            }),
            ring_items(*final(ring)) == ring_items(*old(ring)) + elems@.take(count as int),
    {
        ring.rb.push_slice(elems)
    }

    /// `Consumer::pop_slice`: moves as many of the oldest items into the front
    /// of `elems` as both hold, and returns how many; the rest of `elems` is
    /// left as it was.
    #[verifier::external_body]
    pub(crate) fn rb_pop_slice(ring: &mut SampleRing, elems: &mut [u32]) -> (count: usize)
        ensures
            ring_capacity(*final(ring)) == ring_capacity(*old(ring)),
            ring_items(*final(ring)).len() <= ring_capacity(*final(ring))
                && ring_items(*old(ring)).len() <= ring_capacity(*old(ring))
                && ring_capacity(*final(ring)) > 0,
            count == (if old(elems)@.len() <= ring_items(*old(ring)).len() {
                old(elems)@.len()
            } else {
                ring_items(*old(ring)).len()
            }),
            ring_items(*final(ring)) == ring_items(*old(ring)).skip(count as int),
            final(elems)@ == ring_items(*old(ring)).take(count as int) + old(elems)@.skip(count as int),
    {
        ring.rb.pop_slice(elems)
    }

    /// `Observer::is_full`: whether the buffer holds as many items as it can.
    #[verifier::external_body]
    pub(crate) fn rb_is_full(&self) -> (r: bool)
        ensures
            r == (ring_items(*self).len() == ring_capacity(*self)),
    {
        self.rb.is_full()
    }

    /// `Observer::is_empty`: whether the buffer holds no items.
    #[verifier::external_body]
    pub(crate) fn rb_is_empty(&self) -> (r: bool)
        ensures
            r == (ring_items(*self).len() == 0),
    {
        self.rb.is_empty()
    }

    /// Creates an empty buffer that holds at most `capacity` samples.
    pub fn new(capacity: usize) -> (ring: SampleRing)
        requires
            capacity > 0,
        ensures
            ring@ == Seq::<u32>::empty(),
            ring.cap() == capacity,
    {
        Self::rb_new(capacity)
    }

    /// The number of samples held.
    pub fn occupied_len(&self) -> (r: usize)
        ensures
            r == self@.len(),
    {
        self.rb_occupied_len()
    }
}

} // verus!
