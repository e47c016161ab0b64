use vstd::prelude::*;
use crate::playback::queue::SampleQueue;

verus! {

/// Playback lifecycle flags shared by producers and the device callback.
///
/// `producer_done` is set once no more blocks will be pushed,
/// `playback_done` once the callback drained the final samples or playback
/// was stopped, and `stop_requested` when producers and the callback should
/// stop as soon as possible.
#[derive(Debug, Clone, Copy, PartialEq, Eq, Structural)]
pub struct PlaybackState {
    producer_done: bool,
    playback_done: bool,
    stop_requested: bool,
}

/// The three lifecycle flags, in the order producer done, playback done,
/// stop requested.
pub struct PlaybackFlags {
    pub producer_done: bool,
    pub playback_done: bool,
    pub stop_requested: bool,
}

impl View for PlaybackState {
    type V = PlaybackFlags;

    closed spec fn view(&self) -> PlaybackFlags {
        PlaybackFlags {
            producer_done: self.producer_done,
            playback_done: self.playback_done,
            stop_requested: self.stop_requested,
        }
    }
}

impl PlaybackState {
    /// Creates an idle playback state: nothing is being produced or played.
    pub fn new() -> (state: Self)
        ensures
            state@.producer_done,
            state@.playback_done,
            !state@.stop_requested,
    {
        PlaybackState { producer_done: true, playback_done: true, stop_requested: false }
    }

    /// Resets the lifecycle flags for a new playback run and returns the
    /// fresh, empty queue of `capacity` samples that the run will use.
    pub fn prepare_queue<T: Copy>(&mut self, capacity: usize) -> (queue: SampleQueue<T>)
        ensures
            !final(self)@.producer_done,
            !final(self)@.playback_done,
            !final(self)@.stop_requested,
            queue.wf(),
            queue.spec_samples() == Seq::<T>::empty(),
            queue.spec_capacity() == capacity,
    {
        self.producer_done = false;
        self.playback_done = false;
        self.stop_requested = false;
        SampleQueue::new(capacity)
    }

    /// Returns whether the producer has finished pushing blocks.
    pub fn producer_done(&self) -> (done: bool)
        ensures
            done == self@.producer_done,
    {
        self.producer_done
    }

    /// Returns the stop flag observed by producers while they wait for capacity.
    pub fn stop_requested(&self) -> (stop: bool)
        ensures
            stop == self@.stop_requested,
    {
        self.stop_requested
    }

    /// Marks the producer as finished.
    pub fn mark_producer_done(&mut self)
        ensures
            final(self)@.producer_done,
            final(self)@.playback_done == old(self)@.playback_done,
            final(self)@.stop_requested == old(self)@.stop_requested,
    {
        self.producer_done = true;
    }

    /// Marks playback as drained from the device callback side.
    pub fn mark_playback_done(&mut self)
        ensures
            final(self)@.playback_done,
            final(self)@.producer_done == old(self)@.producer_done,
            final(self)@.stop_requested == old(self)@.stop_requested,
    {
        self.playback_done = true;
    }

    /// Requests immediate playback stop; playback counts as done from now on.
    pub fn request_stop(&mut self)
        ensures
            final(self)@.stop_requested,
            final(self)@.playback_done,
            final(self)@.producer_done == old(self)@.producer_done,
    {
        self.stop_requested = true;
        self.playback_done = true;
    }

    /// Returns whether playback has completed or was stopped.
    pub fn is_playback_done(&self) -> (done: bool)
        ensures
            done == self@.playback_done,
    {
        self.playback_done
    }

    /// Returns whether playback has been asked to stop.
    pub fn is_stop_requested(&self) -> (stop: bool)
        ensures
            stop == self@.stop_requested,
    {
        self.stop_requested
    }
}

} // verus!
