use vstd::prelude::*;
use std::collections::VecDeque;
use crate::sound_core::error::{ErrorCode, SoundError, SoundResult};

verus! {

/// Outcome of one attempt to enqueue a rendered block.
#[derive(Debug, Clone, Copy, PartialEq, Eq, Structural)]
pub enum PushStatus {
    /// The whole block was appended to the queue.
    Pushed,
    /// Playback was stopped; the block was dropped.
    Stopped,
    /// Not enough free capacity yet; the producer must wait and retry.
    WouldBlock,
}

/// Queue contents after an enqueue attempt, and the attempt's status.
pub open spec fn spec_push<T>(queued: Seq<T>, capacity: nat, block: Seq<T>, stop_requested: bool) -> (Seq<T>, PushStatus) {
    if stop_requested {
        (queued, PushStatus::Stopped)
    } else if queued.len() + block.len() > capacity {
        (queued, PushStatus::WouldBlock)
    } else {
        (queued + block, PushStatus::Pushed)
    }
}

/// Number of samples that one drain of at most `max` samples removes.
pub open spec fn spec_drained(queued_len: nat, max: nat) -> nat {
    if max < queued_len { max } else { queued_len }
}

/// Bounded FIFO of interleaved playback samples.
///
/// Producers push complete engine blocks; the device callback drains batches
/// without ever waiting. The queue never holds more than `capacity` samples.
pub struct SampleQueue<T> {
    samples: VecDeque<T>,
    capacity: usize,
}

impl<T: Copy> SampleQueue<T> {
    /// The queued samples, oldest first.
    pub closed spec fn spec_samples(&self) -> Seq<T> {
        self.samples@
    }

    /// Maximum number of samples retained ahead of the device callback.
    pub closed spec fn spec_capacity(&self) -> nat {
        self.capacity as nat
    }

    /// The queue's invariant: it never exceeds its capacity.
    pub open spec fn wf(&self) -> bool {
        self.spec_samples().len() <= self.spec_capacity()
    }

    /// Creates an empty queue with space for `capacity` interleaved samples.
    pub fn new(capacity: usize) -> (queue: Self)
        ensures
            queue.wf(),
            queue.spec_samples() == Seq::<T>::empty(),
            queue.spec_capacity() == capacity,
    {
        SampleQueue { samples: VecDeque::with_capacity(capacity), capacity }
    }

    /// Returns the configured capacity.
    pub fn capacity(&self) -> (capacity: usize)
        ensures
            capacity == self.spec_capacity(),
    {
        self.capacity
    }

    /// Returns the current queued sample count.
    pub fn len(&self) -> (len: usize)
        ensures
            len == self.spec_samples().len(),
    {
        self.samples.len()
    }

    /// Returns the number of samples that can still be enqueued.
    pub fn free_space(&self) -> (free: usize)
        requires
            self.wf(),
        ensures
            free == self.spec_capacity() - self.spec_samples().len(),
    {
        self.capacity - self.samples.len()
    }

    /// Tries to enqueue one complete rendered block without waiting.
    ///
    /// A block longer than the whole capacity can never fit and is rejected.
    /// Otherwise the block is dropped when playback stopped, reported as
    /// `WouldBlock` while capacity is short, and appended whole once it fits.
    pub fn push_block(&mut self, block: &[T], stop_requested: bool) -> (result: SoundResult<PushStatus>)
        requires
            old(self).wf(),
        ensures
            final(self).wf(),
            final(self).spec_capacity() == old(self).spec_capacity(),
            block@.len() > old(self).spec_capacity() ==> {
                &&& result is Err
                &&& result->Err_0@.code == ErrorCode::InvalidArgument
                &&& final(self).spec_samples() == old(self).spec_samples()
            },
            block@.len() <= old(self).spec_capacity() ==> {
                let (queued, status) = spec_push(old(self).spec_samples(), old(self).spec_capacity(), block@, stop_requested);
                &&& result == Ok::<PushStatus, SoundError>(status)
                &&& final(self).spec_samples() == queued
            },
    {
        if block.len() > self.capacity {
            return Err(SoundError::invalid_argument("sample block length exceeds queue capacity"));
        }
        if stop_requested {
            return Ok(PushStatus::Stopped);
        }
        if self.capacity - self.samples.len() < block.len() {
            return Ok(PushStatus::WouldBlock);
        }
        let ghost start = self.samples@;
        let mut i: usize = 0;
        while i < block.len()
            invariant
                i <= block@.len(),
                self.capacity == old(self).capacity,
                start == old(self).samples@,
                start.len() + block@.len() <= self.capacity,
                self.samples@ == start + block@.subrange(0, i as int),
            decreases block@.len() - i,
        {
            self.samples.push_back(block[i]);
            i = i + 1;
            assert(self.samples@ =~= start + block@.subrange(0, i as int));
        }
        assert(block@.subrange(0, block@.len() as int) =~= block@);
        Ok(PushStatus::Pushed)
    }

    /// Drains up to `output.len()` samples for one device callback.
    ///
    /// The oldest samples are written to the front of `output`; the rest of
    /// `output` is left as it was. Returns the number of samples written.
    pub fn pop_into(&mut self, output: &mut [T]) -> (drained: usize)
        requires
            old(self).wf(),
        ensures
            final(self).wf(),
            final(self).spec_capacity() == old(self).spec_capacity(),
            drained == spec_drained(old(self).spec_samples().len(), old(output)@.len()),
            final(self).spec_samples() == old(self).spec_samples().skip(drained as int),
            final(output)@.len() == old(output)@.len(),
            final(output)@.subrange(0, drained as int) == old(self).spec_samples().subrange(0, drained as int),
            final(output)@.subrange(drained as int, final(output)@.len() as int)
                == old(output)@.subrange(drained as int, old(output)@.len() as int),
    {
        let drained = if output.len() < self.samples.len() { output.len() } else { self.samples.len() };
        let ghost start = self.samples@;
        let ghost out0 = output@;
        let mut i: usize = 0;
        while i < drained
            invariant
                drained <= start.len(),
                drained <= out0.len(),
                i <= drained,
                self.capacity == old(self).capacity,
                start == old(self).samples@,
                start.len() <= self.capacity,
                self.samples@ == start.skip(i as int),
                output@.len() == out0.len(),
                forall|k: int| 0 <= k < i ==> output@[k] == start[k],
                forall|k: int| i <= k < out0.len() ==> output@[k] == out0[k],
            decreases drained - i,
        {
            let next = self.samples.pop_front();
            match next {
                Some(sample) => {
                    output[i] = sample;
                },
                None => {},
            }
            i = i + 1;
            assert(self.samples@ =~= start.skip(i as int));
        }
        assert(output@.subrange(0, drained as int) =~= start.subrange(0, drained as int));
        assert(output@.subrange(drained as int, output@.len() as int) =~= out0.subrange(drained as int, out0.len() as int));
        drained
    }

    /// Drains up to `max` samples, appending them to `output` oldest first.
    pub fn pop_into_vec(&mut self, output: &mut Vec<T>, max: usize) -> (drained: usize)
        requires
            old(self).wf(),
        ensures
            final(self).wf(),
            final(self).spec_capacity() == old(self).spec_capacity(),
            drained == spec_drained(old(self).spec_samples().len(), max as nat),
            final(self).spec_samples() == old(self).spec_samples().skip(drained as int),
            final(output)@ == old(output)@ + old(self).spec_samples().subrange(0, drained as int),
    {
        let drained = if max < self.samples.len() { max } else { self.samples.len() };
        let ghost start = self.samples@;
        let ghost out0 = output@;
        let mut i: usize = 0;
        while i < drained
            invariant
                drained <= start.len(),
                i <= drained,
                self.capacity == old(self).capacity,
                start == old(self).samples@,
                start.len() <= self.capacity,
                self.samples@ == start.skip(i as int),
                output@ == out0 + start.subrange(0, i as int),
            decreases drained - i,
        {
            let next = self.samples.pop_front();
            match next {
                Some(sample) => {
                    output.push(sample);
                },
                None => {},
            }
            i = i + 1;
            assert(self.samples@ =~= start.skip(i as int));
            assert(output@ =~= out0 + start.subrange(0, i as int));
        }
        drained
    }
}

/// Samples come out in the order they went in: after a block is accepted,
/// a drain that is large enough returns everything queued before it
/// followed by the block itself, and leaves the queue empty.
pub proof fn law_queue_fifo<T>(queued: Seq<T>, capacity: nat, block: Seq<T>, max: nat)
    requires
        queued.len() + block.len() <= capacity,
        max >= queued.len() + block.len(),
    ensures
        ({
            let (after_push, status) = spec_push(queued, capacity, block, false);
            let drained = spec_drained(after_push.len(), max);
            &&& status == PushStatus::Pushed
            &&& after_push.subrange(0, drained as int) == queued + block
            &&& after_push.skip(drained as int).len() == 0
        }),
{
    let (after_push, status) = spec_push(queued, capacity, block, false);
    assert(after_push.subrange(0, after_push.len() as int) =~= queued + block);
}

/// Once playback is stopped, no push changes what is queued.
pub proof fn law_stopped_queue_is_frozen<T>(queued: Seq<T>, capacity: nat, block: Seq<T>)
    ensures
        spec_push(queued, capacity, block, true) == (queued, PushStatus::Stopped),
{
}

/// An accepted push never takes the queue beyond its capacity, and a push
/// that would is held back without losing or reordering anything.
pub proof fn law_queue_bounded<T>(queued: Seq<T>, capacity: nat, block: Seq<T>, stop_requested: bool)
    requires
        queued.len() <= capacity,
    ensures
        ({
            let (after_push, status) = spec_push(queued, capacity, block, stop_requested);
            &&& after_push.len() <= capacity
            &&& status != PushStatus::Pushed ==> after_push == queued
            &&& status == PushStatus::Pushed ==> after_push.subrange(0, queued.len() as int) == queued
        }),
{
    let (after_push, status) = spec_push(queued, capacity, block, stop_requested);
    if status == PushStatus::Pushed {
        assert(after_push.subrange(0, queued.len() as int) =~= queued);
    }
}

} // verus!
