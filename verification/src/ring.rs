//! The bounded queue of samples between the decoder and the audio callback.
//!
//! A sample is the bit pattern of a 32-bit float; the pattern `0` is silence.

use ringbuf::ring_buffer::RbBase;
use ringbuf::{HeapRb, Rb};
use vstd::prelude::*;

use crate::status::PlayerState;

verus! {

/// The bit pattern of a silent sample.
pub const SILENCE: u32 = 0;

/// The heap-allocated ring buffer of the `ringbuf` crate, used through an exclusive reference.
#[verifier::external_body]
pub struct RingStore {
    rb: HeapRb<u32>,
}

/// The samples a ring buffer holds, oldest first.
pub uninterp spec fn ring_samples(store: RingStore) -> Seq<u32>;

/// The number of samples a ring buffer was made to hold.
pub uninterp spec fn ring_capacity(store: RingStore) -> nat;

/// `ringbuf::HeapRb::new`: an empty ring buffer of the given capacity.
///
/// The call panics on a capacity of zero and on one whose bytes exceed the address space, so both
/// are left out; it also panics when memory runs out.
#[verifier::external_body]
fn store_new(capacity: usize) -> (store: RingStore)
    requires
        0 < capacity,
        capacity * 4 <= isize::MAX,
    ensures
        ring_samples(store) == Seq::<u32>::empty(),
        ring_capacity(store) == capacity,
{
    RingStore { rb: HeapRb::new(capacity) }
}

/// `ringbuf::ring_buffer::RbBase::is_full`: whether no place is vacant.
#[verifier::external_body]
fn store_is_full(store: &RingStore) -> (full: bool)
    ensures
        full == (ring_samples(*store).len() == ring_capacity(*store)),
{
    store.rb.is_full()
}

/// `ringbuf::Rb::push`: appends a sample behind the others, or hands it back when the ring buffer
/// is full.
#[verifier::external_body]
fn store_push(store: &mut RingStore, sample: u32) -> (pushed: Result<(), u32>)
    ensures
        ring_capacity(*final(store)) == ring_capacity(*old(store)),
        ring_samples(*old(store)).len() == ring_capacity(*old(store)) ==> pushed is Err
            && pushed->Err_0 == sample && ring_samples(*final(store)) == ring_samples(*old(store)),
        ring_samples(*old(store)).len() < ring_capacity(*old(store)) ==> pushed is Ok
            && ring_samples(*final(store)) == ring_samples(*old(store)).push(sample),
{
    store.rb.push(sample)
}

/// `ringbuf::Rb::pop`: takes the oldest sample out, if there is one.
#[verifier::external_body]
fn store_pop(store: &mut RingStore) -> (popped: Option<u32>)
    ensures
        ring_capacity(*final(store)) == ring_capacity(*old(store)),
        ring_samples(*old(store)).len() == 0 ==> popped is None && ring_samples(*final(store))
            == ring_samples(*old(store)),
        ring_samples(*old(store)).len() > 0 ==> popped == Some(ring_samples(*old(store))[0])
            && ring_samples(*final(store)) == ring_samples(*old(store)).skip(1),
{
    store.rb.pop()
}

/// `ringbuf::Rb::clear`: takes every sample out and returns how many there were.
#[verifier::external_body]
fn store_clear(store: &mut RingStore) -> (count: usize)
    ensures
        ring_capacity(*final(store)) == ring_capacity(*old(store)),
        ring_samples(*final(store)) == Seq::<u32>::empty(),
        count == ring_samples(*old(store)).len(),
{
    store.rb.clear()
}

/// `ringbuf::Consumer::pop_slice`: moves as many samples, oldest first, into the front of the
/// slice as it has room for, leaves the rest of the slice alone, and returns how many were moved.
#[verifier::external_body]
fn store_pop_slice(store: &mut RingStore, out: &mut [u32]) -> (count: usize)
    ensures
        ring_capacity(*final(store)) == ring_capacity(*old(store)),
        count == smaller(old(out)@.len(), ring_samples(*old(store)).len()),
        final(out)@ == ring_samples(*old(store)).take(count as int) + old(out)@.skip(count as int),
        ring_samples(*final(store)) == ring_samples(*old(store)).skip(count as int),
{
    store.rb.split_ref().1.pop_slice(out)
}

/// The smaller of two lengths.
pub open spec fn smaller(a: nat, b: nat) -> nat {
    if a <= b {
        a
    } else {
        b
    }
}

/// `count` silent samples.
pub open spec fn silence(count: nat) -> Seq<u32> {
    Seq::new(count, |i: int| SILENCE)
}

/// The last `limit` samples of a sequence, or all of it where it is shorter.
pub open spec fn newest(samples: Seq<u32>, limit: nat) -> Seq<u32> {
    samples.skip(samples.len() - smaller(samples.len(), limit))
}

/// What the audio callback puts out for a request of `wanted` samples: silence unless playing;
/// otherwise the oldest queued samples, padded with silence where too few are queued.
pub open spec fn rendered(state: PlayerState, queued: Seq<u32>, wanted: nat) -> Seq<u32> {
    if state is Playing {
        let count = smaller(wanted, queued.len());
        queued.take(count as int) + silence((wanted - count) as nat)
    } else {
        silence(wanted)
    }
}

/// What stays queued after a request of `wanted` samples.
pub open spec fn left_queued(state: PlayerState, queued: Seq<u32>, wanted: nat) -> Seq<u32> {
    if state is Playing {
        queued.skip(smaller(wanted, queued.len()) as int)
    } else {
        queued
    }
}

/// The bounded queue of samples that the decoder fills and the audio callback drains.
pub struct SampleRing {
    store: RingStore,
}

impl View for SampleRing {
    type V = Seq<u32>;

    /// The queued samples, oldest first.
    closed spec fn view(&self) -> Seq<u32> {
        ring_samples(self.store)
    }
}

impl SampleRing {
    /// How many samples the ring can hold.
    pub closed spec fn spec_capacity(self) -> nat {
        ring_capacity(self.store)
    }

    /// A ring has room for at least one sample and never holds more than its capacity.
    pub open spec fn wf(self) -> bool {
        0 < self.spec_capacity() && self@.len() <= self.spec_capacity() <= usize::MAX
    }

    /// An empty ring for `capacity` samples.
    pub fn new(capacity: usize) -> (ring: Self)
        requires
            0 < capacity,
            capacity * 4 <= isize::MAX,
        ensures
            ring.wf(),
            ring@ == Seq::<u32>::empty(),
            ring.spec_capacity() == capacity,
    {
        SampleRing { store: store_new(capacity) }
    }

    /// Whether no further sample fits.
    pub fn is_full(&self) -> (full: bool)
        ensures
            full == (self@.len() == self.spec_capacity()),
    {
        store_is_full(&self.store)
    }

    /// Queues decoded samples. A sample that finds the ring full displaces the oldest one, so that
    /// the ring ends with the newest samples that fit.
    pub fn write_latest(&mut self, samples: &[u32])
        requires
            old(self).wf(),
        ensures
            final(self).wf(),
            final(self).spec_capacity() == old(self).spec_capacity(),
            final(self)@ == newest(old(self)@ + samples@, old(self).spec_capacity()),
    {
        let ghost before = self@;
        let ghost capacity = self.spec_capacity();
        let mut next: usize = 0;
        assert(newest(before + samples@.take(0), capacity) =~= before);
        while next < samples.len()
            invariant
                next <= samples@.len(),
                self.wf(),
                self.spec_capacity() == capacity,
                self@ == newest(before + samples@.take(next as int), capacity),
            decreases samples@.len() - next,
        {
            let ghost queued = self@;
            let ghost offered = before + samples@.take(next as int);
            if store_is_full(&self.store) {
                let _ = store_pop(&mut self.store);
            }
            let _ = store_push(&mut self.store, samples[next]);
            assert(before + samples@.take(next + 1) =~= offered.push(samples@[next as int]));
            assert(self@ =~= newest(offered.push(samples@[next as int]), capacity));
            next = next + 1;
        }
        assert(samples@.take(samples@.len() as int) =~= samples@);
    }

    /// Queues one sample if there is room, and says whether it was queued.
    pub fn offer(&mut self, sample: u32) -> (queued: bool)
        requires
            old(self).wf(),
        ensures
            final(self).wf(),
            final(self).spec_capacity() == old(self).spec_capacity(),
            queued == (old(self)@.len() < old(self).spec_capacity()),
            final(self)@ == if queued {
                old(self)@.push(sample)
            } else {
                old(self)@
            },
    {
        match store_push(&mut self.store, sample) {
            Ok(()) => true,
            Err(_) => false,
        }
    }

    /// Drops everything that is queued, so that none of it is heard any more.
    pub fn clear(&mut self)
        requires
            old(self).wf(),
        ensures
            final(self).wf(),
            final(self).spec_capacity() == old(self).spec_capacity(),
            final(self)@ == Seq::<u32>::empty(),
    {
        let _ = store_clear(&mut self.store);
    }

    /// Serves one request of the audio callback: overwrites `out`, consuming queued samples only
    /// while playing.
    pub fn render(&mut self, state: PlayerState, out: &mut [u32])
        requires
            old(self).wf(),
        ensures
            final(self).wf(),
            final(self).spec_capacity() == old(self).spec_capacity(),
            final(out)@ == rendered(state, old(self)@, old(out)@.len()),
            final(self)@ == left_queued(state, old(self)@, old(out)@.len()),
    {
        let ghost queued = self@;
        let ghost wanted = out@.len();
        let mut next: usize = 0;
        if state == PlayerState::Playing {
            next = store_pop_slice(&mut self.store, out);
        }
        let ghost count = next;
        let ghost head = out@.take(count as int);
        while next < out.len()
            invariant
                count <= next <= out@.len(),
                out@.len() == wanted,
                out@.take(count as int) == head,
                forall|i: int| count <= i < next ==> out@[i] == SILENCE,
            decreases out@.len() - next,
        {
            out[next] = SILENCE;
            assert(out@.take(count as int) =~= head);
            next = next + 1;
        }
        assert(out@ =~= head + silence((wanted - count) as nat));
    }
}

/// What the writer of resampled samples did, or asks for.
#[derive(Debug, Clone, Copy, PartialEq, Eq, Structural)]
pub enum WriteStep {
    /// The ring is full: pause briefly, then step again with `waited`.
    Wait,
    /// One sample was dealt with.
    Advanced,
    /// Every sample has been dealt with.
    Finished,
}

/// Queues resampled samples one at a time, pausing once for each that finds the ring full and
/// dropping it if the ring is still full afterwards.
pub struct ResampledWriter {
    samples: Vec<u32>,
    next: usize,
}

impl ResampledWriter {
    /// The samples still to be dealt with.
    pub closed spec fn pending(self) -> Seq<u32> {
        self.samples@.skip(self.next as int)
    }

    /// The position never passes the end.
    pub closed spec fn wf(self) -> bool {
        self.next <= self.samples@.len()
    }

    /// A writer with all of `samples` to deal with.
    pub fn new(samples: Vec<u32>) -> (writer: Self)
        ensures
            writer.wf(),
            writer.pending() == samples@,
    {
        let writer = ResampledWriter { samples, next: 0 };
        assert(writer.pending() =~= samples@);
        writer
    }

    /// Deals with the first pending sample: queues it if there is room, asks for a pause if there
    /// is none and no pause was made for it yet, and drops it otherwise.
    pub fn step(&mut self, ring: &mut SampleRing, waited: bool) -> (step: WriteStep)
        requires
            old(self).wf(),
            old(ring).wf(),
        ensures
            final(self).wf(),
            final(ring).wf(),
            final(ring).spec_capacity() == old(ring).spec_capacity(),
            step == write_step(
                old(self).pending(),
                old(ring)@,
                old(ring).spec_capacity(),
                waited,
            ).0,
            final(self).pending() == write_step(
                old(self).pending(),
                old(ring)@,
                old(ring).spec_capacity(),
                waited,
            ).1,
            final(ring)@ == write_step(
                old(self).pending(),
                old(ring)@,
                old(ring).spec_capacity(),
                waited,
            ).2,
    {
        if self.next == self.samples.len() {
            return WriteStep::Finished;
        }
        if !waited && ring.is_full() {
            return WriteStep::Wait;
        }
        let _ = ring.offer(self.samples[self.next]);
        let ghost rest = self.pending().skip(1);
        self.next = self.next + 1;
        assert(self.pending() =~= rest);
        WriteStep::Advanced
    }
}

/// One step of the writer of resampled samples, given the pending samples, the queued samples,
/// the capacity and whether a pause was just made: the step, then what is pending and queued.
pub open spec fn write_step(
    pending: Seq<u32>,
    queued: Seq<u32>,
    capacity: nat,
    waited: bool,
) -> (WriteStep, Seq<u32>, Seq<u32>) {
    if pending.len() == 0 {
        (WriteStep::Finished, pending, queued)
    } else if queued.len() < capacity {
        (WriteStep::Advanced, pending.skip(1), queued.push(pending[0]))
    } else if !waited {
        (WriteStep::Wait, pending, queued)
    } else {
        (WriteStep::Advanced, pending.skip(1), queued)
    }
}

} // verus!
