use vstd::prelude::*;
use crate::sound_core::config::OutputChannels;
use crate::sound_core::error::{ErrorCode, SoundError, SoundResult};
use crate::gpu::rt::is_power_of_two;

verus! {

proof fn lemma_double_power_of_two(p: usize)
    by (bit_vector)
    requires
        p > 0,
        p & ((p - 1) as usize) == 0,
        ((p * 2) as usize) == p * 2,
    ensures
        ((p * 2) as usize) > 0,
        ((p * 2) as usize) & ((((p * 2) as usize) - 1) as usize) == 0,
{
}

/// Smallest power of two that is at least `n` (one for zero).
pub fn next_power_of_two(n: usize) -> (p: usize)
    requires
        n <= usize::MAX / 2 + 1,
    ensures
        is_power_of_two(p),
        p >= n,
        p == 1 || p / 2 < n,
{
    let mut p: usize = 1;
    assert(1usize & 0usize == 0) by (bit_vector);
    while p < n
        invariant
            is_power_of_two(p),
            p == 1 || p / 2 < n,
            n <= usize::MAX / 2 + 1,
        decreases usize::MAX - p,
    {
        proof {
            lemma_double_power_of_two(p);
        }
        p = p * 2;
    }
    p
}

/// FFT and overlap-tail sizes of the partitioned convolver.
pub struct ConvolutionSizes {
    /// FFT length: the smallest power of two that holds a block convolved
    /// with a whole impulse response.
    pub fft_size: usize,
    /// Overlap frames carried from one block to the next.
    pub tail_size: usize,
}

/// Computes the FFT and tail sizes for blocks of `block_size` frames and
/// impulse responses of `ir_num_samples` samples.
pub fn convolution_sizes(block_size: usize, ir_num_samples: u32) -> (sizes: ConvolutionSizes)
    requires
        ir_num_samples >= 1,
        block_size + ir_num_samples - 1 <= usize::MAX / 2 + 1,
    ensures
        is_power_of_two(sizes.fft_size),
        sizes.fft_size >= block_size + ir_num_samples - 1,
        sizes.fft_size == 1 || sizes.fft_size / 2 < block_size + ir_num_samples - 1,
        sizes.tail_size == sizes.fft_size - block_size,
{
    let fft_size = next_power_of_two(block_size + ir_num_samples as usize - 1);
    ConvolutionSizes { fft_size, tail_size: fft_size - block_size }
}

/// Interleaved output sample `index` read from stereo frames starting at
/// `start`: mono layouts take the left channel of each frame, two-channel
/// layouts take left then right.
pub open spec fn copied_sample<T>(from: Seq<[T; 2]>, start: int, output_channels: OutputChannels, index: int) -> T {
    match output_channels {
        OutputChannels::Mono => from[start + index][0],
        _ => from[start + index / 2][index % 2],
    }
}

/// Writes `count` stereo frames starting at `start` into the interleaved
/// output layout; the rest of `to` is left unchanged.
pub fn copy_samples<T: Copy>(from: &[[T; 2]], start_index: usize, count: usize, to: &mut [T], output_channels: OutputChannels)
    requires
        start_index + count <= from@.len(),
        count * output_channels.spec_count() <= old(to)@.len(),
    ensures
        final(to)@.len() == old(to)@.len(),
        forall|i: int| 0 <= i < count * output_channels.spec_count() ==>
            #[trigger] final(to)@[i] == copied_sample(from@, start_index as int, output_channels, i),
        forall|i: int| count * output_channels.spec_count() <= i < final(to)@.len() ==>
            #[trigger] final(to)@[i] == old(to)@[i],
{
    let ghost untouched = to@;
    let from_len = from.len();
    let to_len = to.len();
    assert(from_len == from@.len() && to_len == to@.len());
    match output_channels {
        OutputChannels::Mono => {
            let mut frame: usize = 0;
            while frame < count
                invariant
                    output_channels == OutputChannels::Mono,
                    frame <= count,
                    start_index + count <= from@.len(),
                    from@.len() <= usize::MAX,
                    count <= to@.len(),
                    to@.len() == untouched.len(),
                    forall|i: int| 0 <= i < frame ==> #[trigger] to@[i] == copied_sample(from@, start_index as int, output_channels, i),
                    forall|i: int| frame <= i < to@.len() ==> #[trigger] to@[i] == untouched[i],
                decreases count - frame,
            {
                to[frame] = from[start_index + frame][0];
                frame = frame + 1;
            }
        },
        OutputChannels::Stereo | OutputChannels::Binaural => {
            let mut frame: usize = 0;
            while frame < count
                invariant
                    output_channels.spec_count() == 2,
                    output_channels != OutputChannels::Mono,
                    frame <= count,
                    start_index + count <= from@.len(),
                    from@.len() <= usize::MAX,
                    to@.len() <= usize::MAX,
                    count * 2 <= to@.len(),
                    to@.len() == untouched.len(),
                    forall|i: int| 0 <= i < 2 * frame ==> #[trigger] to@[i] == copied_sample(from@, start_index as int, output_channels, i),
                    forall|i: int| 2 * frame <= i < to@.len() ==> #[trigger] to@[i] == untouched[i],
                decreases count - frame,
            {
                let pair = from[start_index + frame];
                to[2 * frame] = pair[0];
                to[2 * frame + 1] = pair[1];
                proof {
                    assert((2 * frame) / 2 == frame as int);
                    assert((2 * frame + 1) / 2 == frame as int);
                    assert((2 * frame) % 2 == 0);
                    assert((2 * frame + 1) % 2 == 1);
                }
                frame = frame + 1;
            }
        },
    }
}

/// Checks the lengths of one mono input block and its interleaved output.
pub fn validate_block_lengths(
    input_len: usize,
    output_len: usize,
    block_size: usize,
    output_channels: OutputChannels,
    fft_size: usize,
) -> (result: SoundResult<()>)
    requires
        input_len * 2 <= usize::MAX,
        fft_size * 2 <= usize::MAX,
    ensures
        result is Ok <==> (input_len == block_size
            && output_len == input_len * output_channels.spec_count()
            && output_len <= fft_size * output_channels.spec_count()),
        result is Err ==> result->Err_0@.code == ErrorCode::InvalidArgument,
{
    if input_len != block_size {
        return Err(SoundError::invalid_argument("input_block length must equal block size"));
    }
    let channels = output_channels.count();
    if output_len != input_len * channels {
        return Err(SoundError::invalid_argument("output_block length must equal channel count times input_block length"));
    }
    if output_len > fft_size * channels {
        return Err(SoundError::invalid_argument("output_block length exceeds fft output sample capacity"));
    }
    Ok(())
}

/// Adds the previous overlap tail into the head of a convolved block, then
/// stores the block's new tail (the frames after `block_size`).
pub fn overlap_add<T: Copy, F: Fn(T, T) -> T>(output: &mut [[T; 2]], tail: &mut [[T; 2]], block_size: usize, sum: F)
    requires
        old(tail)@.len() <= old(output)@.len(),
        block_size + old(tail)@.len() <= old(output)@.len(),
        forall|a: T, b: T| call_requires(sum, (a, b)),
    ensures
        final(output)@.len() == old(output)@.len(),
        final(tail)@.len() == old(tail)@.len(),
        forall|i: int| 0 <= i < old(tail)@.len() ==> {
            &&& call_ensures(sum, (old(output)@[i][0], old(tail)@[i][0]), #[trigger] final(output)@[i][0])
            &&& call_ensures(sum, (old(output)@[i][1], old(tail)@[i][1]), final(output)@[i][1])
        },
        forall|i: int| old(tail)@.len() <= i < old(output)@.len() ==> #[trigger] final(output)@[i] == old(output)@[i],
        forall|i: int| 0 <= i < old(tail)@.len() ==> #[trigger] final(tail)@[i] == final(output)@[block_size + i],
{
    let ghost out0 = output@;
    let ghost tail0 = tail@;
    let mut i: usize = 0;
    while i < tail.len()
        invariant
            tail@ == tail0,
            tail0.len() <= out0.len(),
            output@.len() == out0.len(),
            i <= tail0.len(),
            forall|a: T, b: T| call_requires(sum, (a, b)),
            forall|k: int| 0 <= k < i ==> {
                &&& call_ensures(sum, (out0[k][0], tail0[k][0]), #[trigger] output@[k][0])
                &&& call_ensures(sum, (out0[k][1], tail0[k][1]), output@[k][1])
            },
            forall|k: int| i <= k < out0.len() ==> #[trigger] output@[k] == out0[k],
        decreases tail0.len() - i,
    {
        let current = output[i];
        let left = sum(current[0], tail[i][0]);
        let right = sum(current[1], tail[i][1]);
        output[i] = [left, right];
        i = i + 1;
    }
    let ghost summed = output@;
    let output_len = output.len();
    assert(output_len == summed.len());
    let mut j: usize = 0;
    while j < tail.len()
        invariant
            output@ == summed,
            tail@.len() == tail0.len(),
            block_size + tail0.len() <= summed.len(),
            summed.len() <= usize::MAX,
            j <= tail0.len(),
            forall|k: int| 0 <= k < j ==> #[trigger] tail@[k] == summed[block_size + k],
        decreases tail0.len() - j,
    {
        tail[j] = output[block_size + j];
        j = j + 1;
    }
}

/// Whether a voice still has overlap tail to drain.
pub open spec fn tail_pending(tail_len: nat, tail_position: nat) -> bool {
    tail_position < tail_len
}

/// Drains the next block of already-computed overlap tail samples.
///
/// Returns `Ok(true)` with the next `block_size` tail frames (silence after
/// the tail ends) in `output_block`, and advances the read position by one
/// block, saturating. Returns `Ok(false)`, changing nothing, once the tail
/// is drained. An output of the wrong length is rejected.
pub fn flush_tail_block<T: Copy>(
    tail: &[[T; 2]],
    tail_position: &mut usize,
    block_size: usize,
    output_channels: OutputChannels,
    output_block: &mut [T],
    silence: T,
) -> (result: SoundResult<bool>)
    requires
        block_size * 2 <= usize::MAX,
    ensures
        old(output_block)@.len() != block_size * output_channels.spec_count() ==> {
            &&& result is Err
            &&& result->Err_0@.code == ErrorCode::InvalidArgument
            &&& *final(tail_position) == *old(tail_position)
            &&& final(output_block)@ == old(output_block)@
        },
        old(output_block)@.len() == block_size * output_channels.spec_count() ==> {
            if tail_pending(tail@.len(), *old(tail_position) as nat) {
                let copied = if block_size < tail@.len() - *old(tail_position) { block_size as int } else { tail@.len() - *old(tail_position) };
                let copied_len = copied * output_channels.spec_count();
                &&& result == Ok::<bool, SoundError>(true)
                &&& *final(tail_position) == if *old(tail_position) + block_size > usize::MAX { usize::MAX as int } else { *old(tail_position) + block_size }
                &&& final(output_block)@.len() == old(output_block)@.len()
                &&& forall|i: int| 0 <= i < copied_len ==>
                    #[trigger] final(output_block)@[i] == copied_sample(tail@, *old(tail_position) as int, output_channels, i)
                &&& forall|i: int| copied_len <= i < final(output_block)@.len() ==> #[trigger] final(output_block)@[i] == silence
            } else {
                &&& result == Ok::<bool, SoundError>(false)
                &&& *final(tail_position) == *old(tail_position)
                &&& final(output_block)@ == old(output_block)@
            }
        },
{
    let channels = output_channels.count();
    if output_block.len() != block_size * channels {
        return Err(SoundError::invalid_argument("output_block length must equal block size times channel count"));
    }
    if *tail_position >= tail.len() {
        return Ok(false);
    }
    let ghost n = output_block@.len();
    let mut i: usize = 0;
    while i < output_block.len()
        invariant
            i <= output_block@.len(),
            output_block@.len() == n,
            forall|k: int| 0 <= k < i ==> #[trigger] output_block@[k] == silence,
        decreases output_block@.len() - i,
    {
        output_block[i] = silence;
        i = i + 1;
    }
    let remaining = tail.len() - *tail_position;
    let frames_to_copy = if block_size < remaining { block_size } else { remaining };
    proof {
        assert(frames_to_copy * output_channels.spec_count() <= block_size * output_channels.spec_count())
            by (nonlinear_arith)
            requires frames_to_copy <= block_size;
    }
    copy_samples(tail, *tail_position, frames_to_copy, output_block, output_channels);
    *tail_position = tail_position.saturating_add(block_size);
    Ok(true)
}

/// The interleaved block that draining a tail from `position` yields: the
/// next `block_size` frames of `tail` in the output layout, and silence for
/// the frames past its end.
pub open spec fn tail_block<T>(
    tail: Seq<[T; 2]>,
    position: int,
    block_size: int,
    output_channels: OutputChannels,
    silence: T,
) -> Seq<T> {
    let copied = if block_size < tail.len() - position { block_size } else { tail.len() - position };
    Seq::new((block_size * output_channels.spec_count()) as nat, |i: int|
        if i < copied * output_channels.spec_count() {
            copied_sample(tail, position, output_channels, i)
        } else {
            silence
        })
}

/// Rejects more input for a voice that already started flushing its tail.
pub fn validate_not_flushing(tail_position: usize) -> (result: SoundResult<()>)
    ensures
        result is Ok <==> tail_position == 0,
        result is Err ==> result->Err_0@.code == ErrorCode::InvalidArgument,
{
    if tail_position != 0 {
        return Err(SoundError::invalid_argument(
            "voice has already started flushing its tail and cannot process more input blocks",
        ));
    }
    Ok(())
}

/// Convolution work that the auralization engine drives: impulse responses
/// are uploaded once, each voice keeps its own overlap state, and blocks are
/// convolved or their tails drained on request.
pub trait ConvolutionBackend<S> {
    /// One impulse-response sample as the backend uploads it.
    type IrSample;
    /// An uploaded, transformed impulse response.
    type ImpulseResponse;
    /// Per-voice overlap and staging state.
    type VoiceConvolution;

    /// Whether a voice still has overlap tail to drain.
    spec fn spec_tail_pending(&self, voice: Self::VoiceConvolution) -> bool;

    /// Whether an impulse response of `len` samples is accepted.
    spec fn spec_ir_len_ok(&self, len: nat) -> bool;

    /// The dry block the voice last convolved.
    spec fn spec_last_input(&self, voice: Self::VoiceConvolution) -> Seq<S>;

    /// The voice once one more block of its tail has been drained.
    spec fn spec_flushed(&self, voice: Self::VoiceConvolution) -> Self::VoiceConvolution;

    /// The next block of the voice's tail, in the output layout.
    spec fn spec_flush_block(&self, voice: Self::VoiceConvolution) -> Seq<S>;

    /// Uploads an impulse response and transforms it for convolution; one
    /// of a length the backend does not accept is `InvalidArgument`.
    fn create_impulse_response(&self, samples: &[Self::IrSample]) -> (result: SoundResult<Self::ImpulseResponse>)
        ensures
            !self.spec_ir_len_ok(samples@.len()) ==> result is Err && result->Err_0@.code == ErrorCode::InvalidArgument;

    /// Creates the zeroed per-voice state for convolving with `impulse_response`.
    fn new_voice_convolution(&self, impulse_response: &Self::ImpulseResponse) -> Self::VoiceConvolution;

    /// Convolves one mono dry block into the interleaved output layout.
    fn process_block(&self, voice: &mut Self::VoiceConvolution, input_block: &[S], output_block: &mut [S]) -> (result: SoundResult<()>)
        ensures
            final(output_block)@.len() == old(output_block)@.len(),
            result is Ok ==> self.spec_last_input(*final(voice)) == input_block@;

    /// Drains the next block of overlap tail: `Ok(true)` while tail was left
    /// to drain, with that block in the output and the voice one block
    /// further on; `Ok(false)`, with the output untouched, once none is.
    fn flush_tail_block(&self, voice: &mut Self::VoiceConvolution, output_block: &mut [S]) -> (result: SoundResult<bool>)
        ensures
            final(output_block)@.len() == old(output_block)@.len(),
            result matches Ok(more) ==> more == self.spec_tail_pending(*old(voice)),
            result matches Ok(false) ==> final(output_block)@ == old(output_block)@,
            result matches Ok(true) ==> {
                &&& *final(voice) == self.spec_flushed(*old(voice))
                &&& final(output_block)@ == self.spec_flush_block(*old(voice))
            };
}

} // verus!
