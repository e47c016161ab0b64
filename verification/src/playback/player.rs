use vstd::prelude::*;
use crate::sound_core::error::{ErrorCode, SoundError, SoundResult};
use crate::playback::queue::{PushStatus, SampleQueue, spec_push};
use crate::playback::state::PlaybackState;
use crate::playback::device::{write_output, write_output_post};

verus! {

/// Queue and prebuffering policy for device playback.
#[derive(Debug, Clone, Copy)]
pub struct PlaybackConfig {
    /// Number of rendered blocks preferred before low-latency playback begins.
    pub prefill_blocks: usize,
    /// Maximum number of rendered blocks retained ahead of the device callback.
    pub max_queued_blocks: usize,
}

impl Default for PlaybackConfig {
    fn default() -> (config: Self)
        ensures
            config.prefill_blocks == 8,
            config.max_queued_blocks == 32,
    {
        PlaybackConfig { prefill_blocks: 8, max_queued_blocks: 32 }
    }
}

/// Whether a playback policy can be used: at least one block may be queued
/// and the prefill fits in the queue.
pub open spec fn playback_config_ok(config: PlaybackConfig) -> bool {
    &&& config.max_queued_blocks > 0
    &&& config.prefill_blocks <= config.max_queued_blocks
}

/// Checks a playback queue policy.
pub fn validate_config(config: PlaybackConfig) -> (result: SoundResult<()>)
    ensures
        result is Ok <==> playback_config_ok(config),
        result is Err ==> result->Err_0@.code == ErrorCode::InvalidArgument,
{
    if config.max_queued_blocks == 0 {
        return Err(SoundError::invalid_argument("max_queued_blocks must be > 0"));
    }
    if config.prefill_blocks > config.max_queued_blocks {
        return Err(SoundError::invalid_argument(
            "prefill_blocks must be less than or equal to max_queued_blocks",
        ));
    }
    Ok(())
}

/// Playback side of device output: the bounded sample queue, the lifecycle
/// flags and the fixed block shape that producers must push.
///
/// The device stream itself is driven outside the library; its callback
/// drains this player through [`SoundPlayer::write_device_output`].
pub struct SoundPlayer<S> {
    config: PlaybackConfig,
    state: PlaybackState,
    queue: SampleQueue<S>,
    block_samples: usize,
}

impl<S: Copy> SoundPlayer<S> {
    pub closed spec fn spec_config(&self) -> PlaybackConfig {
        self.config
    }

    pub closed spec fn spec_state(&self) -> PlaybackState {
        self.state
    }

    pub closed spec fn spec_queue(&self) -> SampleQueue<S> {
        self.queue
    }

    /// Number of interleaved samples in one rendered block.
    pub closed spec fn spec_block_samples(&self) -> nat {
        self.block_samples as nat
    }

    pub open spec fn wf(&self) -> bool {
        &&& self.spec_queue().wf()
        &&& self.spec_block_samples() <= self.spec_queue().spec_capacity()
    }

    /// Creates the playback side for interleaved blocks of `block_size`
    /// frames of `output_channels` samples, with room for
    /// `config.max_queued_blocks` blocks.
    pub fn new(output_channels: usize, block_size: usize, config: PlaybackConfig) -> (result: SoundResult<Self>)
        requires
            block_size * output_channels * config.max_queued_blocks <= usize::MAX,
        ensures
            result is Ok <==> (playback_config_ok(config) && output_channels > 0 && block_size > 0),
            result is Err ==> result->Err_0@.code == ErrorCode::InvalidArgument,
            result matches Ok(player) ==> {
                &&& player.wf()
                &&& player.spec_config() == config
                &&& player.spec_block_samples() == block_size * output_channels
                &&& player.spec_queue().spec_samples() == Seq::<S>::empty()
                &&& player.spec_queue().spec_capacity() == config.max_queued_blocks * (block_size * output_channels)
                &&& !player.spec_state()@.producer_done
                &&& !player.spec_state()@.playback_done
                &&& !player.spec_state()@.stop_requested
            },
    {
        validate_config(config)?;
        if output_channels == 0 {
            return Err(SoundError::invalid_argument("output channel count must be > 0"));
        }
        if block_size == 0 {
            return Err(SoundError::invalid_argument("block_size must be > 0"));
        }
        proof {
            assert(block_size * output_channels <= block_size * output_channels * config.max_queued_blocks)
                by (nonlinear_arith)
                requires config.max_queued_blocks > 0;
            assert(config.max_queued_blocks * (block_size * output_channels)
                == block_size * output_channels * config.max_queued_blocks) by (nonlinear_arith);
            assert(block_size * output_channels <= config.max_queued_blocks * (block_size * output_channels))
                by (nonlinear_arith)
                requires config.max_queued_blocks > 0;
        }
        let block_samples = block_size * output_channels;
        let mut state = PlaybackState::new();
        let queue = state.prepare_queue(config.max_queued_blocks * block_samples);
        Ok(SoundPlayer { config, state, queue, block_samples })
    }

    /// Returns the queue and prebuffering policy used by this player.
    pub fn config(&self) -> (config: PlaybackConfig)
        ensures
            config == self.spec_config(),
    {
        self.config
    }

    /// Returns the number of interleaved samples in one block.
    pub fn block_samples(&self) -> (samples: usize)
        ensures
            samples == self.spec_block_samples(),
    {
        self.block_samples
    }

    /// Tries to enqueue one interleaved rendered block.
    ///
    /// Blocks of the wrong length are rejected; otherwise the attempt is the
    /// queue's, with the player's stop flag.
    pub fn push_block(&mut self, block: &[S]) -> (result: SoundResult<PushStatus>)
        requires
            old(self).wf(),
        ensures
            final(self).wf(),
            final(self).spec_config() == old(self).spec_config(),
            final(self).spec_block_samples() == old(self).spec_block_samples(),
            final(self).spec_state() == old(self).spec_state(),
            final(self).spec_queue().spec_capacity() == old(self).spec_queue().spec_capacity(),
            block@.len() != old(self).spec_block_samples() ==> {
                &&& result is Err
                &&& result->Err_0@.code == ErrorCode::InvalidArgument
                &&& final(self).spec_queue().spec_samples() == old(self).spec_queue().spec_samples()
            },
            block@.len() == old(self).spec_block_samples() ==> {
                let (queued, status) = spec_push(
                    old(self).spec_queue().spec_samples(),
                    old(self).spec_queue().spec_capacity(),
                    block@,
                    old(self).spec_state()@.stop_requested,
                );
                &&& result == Ok::<PushStatus, SoundError>(status)
                &&& final(self).spec_queue().spec_samples() == queued
            },
    {
        if block.len() != self.block_samples {
            return Err(SoundError::invalid_argument("playback block length must equal the block sample count"));
        }
        let stop = self.state.stop_requested();
        self.queue.push_block(block, stop)
    }

    /// Marks the producer as finished so the callback can complete after draining.
    pub fn finish(&mut self)
        ensures
            final(self).spec_state()@.producer_done,
            final(self).spec_state()@.playback_done == old(self).spec_state()@.playback_done,
            final(self).spec_state()@.stop_requested == old(self).spec_state()@.stop_requested,
            final(self).spec_queue() == old(self).spec_queue(),
            final(self).spec_config() == old(self).spec_config(),
            final(self).spec_block_samples() == old(self).spec_block_samples(),
    {
        self.state.mark_producer_done();
    }

    /// Requests playback stop.
    pub fn stop(&mut self)
        ensures
            final(self).spec_state()@.stop_requested,
            final(self).spec_state()@.playback_done,
            final(self).spec_state()@.producer_done == old(self).spec_state()@.producer_done,
            final(self).spec_queue() == old(self).spec_queue(),
            final(self).spec_config() == old(self).spec_config(),
            final(self).spec_block_samples() == old(self).spec_block_samples(),
    {
        self.state.request_stop();
    }

    /// Returns whether playback has been asked to stop.
    pub fn is_stop_requested(&self) -> (stop: bool)
        ensures
            stop == self.spec_state()@.stop_requested,
    {
        self.state.is_stop_requested()
    }

    /// Returns whether the callback drained all samples after `finish`, or
    /// playback was stopped.
    pub fn is_playback_done(&self) -> (done: bool)
        ensures
            done == self.spec_state()@.playback_done,
    {
        self.state.is_playback_done()
    }

    /// Fills one device callback buffer from the queue; see [`write_output`].
    pub fn write_device_output<T: Copy, F: Fn(S) -> T>(
        &mut self,
        data: &mut [T],
        device_channels: usize,
        output_channels: usize,
        scratch: &mut Vec<S>,
        silence: T,
        convert: F,
    )
        requires
            old(self).wf(),
            output_channels <= device_channels,
            forall|s: S| call_requires(convert, (s,)),
        ensures
            final(self).wf(),
            final(self).spec_config() == old(self).spec_config(),
            final(self).spec_block_samples() == old(self).spec_block_samples(),
            final(self).spec_queue().spec_capacity() == old(self).spec_queue().spec_capacity(),
            write_output_post(old(data)@, final(data)@, device_channels as nat, output_channels as nat,
                old(self).spec_queue().spec_samples(), final(self).spec_queue().spec_samples(),
                old(self).spec_state()@, final(self).spec_state()@, silence, convert),
    {
        write_output(data, device_channels, output_channels, &mut self.queue, &mut self.state, scratch, silence, convert);
    }
}

} // verus!
