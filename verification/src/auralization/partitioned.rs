use vstd::prelude::*;
use crate::auralization::convolver::{
    copied_sample, convolution_sizes, copy_samples, overlap_add, tail_block, tail_pending, validate_block_lengths,
    validate_not_flushing,
    ConvolutionBackend,
};
use crate::auralization::engine::SampleOps;
use crate::sound_core::config::OutputChannels;
use crate::sound_core::error::{ErrorCode, SoundError, SoundResult};

verus! {

/// The FFT work of the partitioned convolver, done on the GPU: an impulse
/// response is transformed once into a spectrum, and each block is
/// convolved with a spectrum in place (forward transform, multiply by the
/// spectrum, inverse transform).
pub trait SpectralTransform<S> {
    /// A transformed impulse response, shared by the voices that use it.
    /// The transform is invertible, so a spectrum is viewed as the
    /// time-domain block it is the transform of.
    type Spectrum: Clone + View<V = Seq<[S; 2]>>;

    /// Transforms a zero-padded stereo impulse response, packed as complex
    /// samples `left + i * right`; the spectrum is the transform of exactly
    /// the block it was handed.
    fn transform_impulse_response(&self, padded: &[[S; 2]]) -> (result: SoundResult<Self::Spectrum>)
        ensures
            result matches Ok(spectrum) ==> spectrum@ == padded@;

    /// Convolves a zero-padded complex block with `spectrum`, in place.
    fn convolve_in_place(&self, spectrum: &Self::Spectrum, signal: &mut [[S; 2]]) -> SoundResult<()>;
}

/// An impulse response as the convolver holds it: its spectrum, and the
/// zero-padded block the spectrum was transformed from.
pub struct PartitionedImpulseResponse<S, P> {
    spectrum: P,
    source: Ghost<Seq<[S; 2]>>,
}

impl<S, P> PartitionedImpulseResponse<S, P> {
    /// The transformed impulse response.
    pub closed spec fn spec_spectrum(&self) -> P {
        self.spectrum
    }

    /// The zero-padded block handed to the transform.
    pub closed spec fn spec_source(&self) -> Seq<[S; 2]> {
        self.source@
    }
}

/// Per-voice convolution state: the impulse response, the overlap tail
/// carried from block to block, the read position while the tail is
/// drained, the complex staging block, and the last dry block with the
/// packed block that was handed to the transform for it.
pub struct VoiceConvolutionState<S, P> {
    impulse_response: PartitionedImpulseResponse<S, P>,
    tail: Vec<[S; 2]>,
    tail_position: usize,
    complex: Vec<[S; 2]>,
    input: Ghost<Seq<S>>,
    staged: Ghost<Seq<[S; 2]>>,
}

impl<S, P> VoiceConvolutionState<S, P> {
    /// The overlap tail carried to the next block.
    pub closed spec fn spec_tail(&self) -> Seq<[S; 2]> {
        self.tail@
    }

    /// How far the tail has been drained.
    pub closed spec fn spec_tail_position(&self) -> usize {
        self.tail_position
    }

    /// The impulse response the voice convolves with.
    pub closed spec fn spec_impulse_response(&self) -> PartitionedImpulseResponse<S, P> {
        self.impulse_response
    }

    /// The complex staging block.
    pub closed spec fn spec_complex(&self) -> Seq<[S; 2]> {
        self.complex@
    }

    /// The dry block last convolved.
    pub closed spec fn spec_input(&self) -> Seq<S> {
        self.input@
    }

    /// The packed block last handed to the transform.
    pub closed spec fn spec_staged(&self) -> Seq<[S; 2]> {
        self.staged@
    }

    /// The same state with the tail read position moved on by `frames`,
    /// saturating.
    pub closed spec fn spec_advanced(self, frames: usize) -> Self {
        VoiceConvolutionState {
            impulse_response: self.impulse_response,
            tail: self.tail,
            tail_position: if self.tail_position + frames > usize::MAX {
                usize::MAX
            } else {
                (self.tail_position + frames) as usize
            },
            complex: self.complex,
            input: self.input,
            staged: self.staged,
        }
    }
}

/// `len` silent stereo frames.
pub open spec fn silent_frames_spec<S>(silence: S, len: nat) -> Seq<[S; 2]> {
    Seq::new(len, |i: int| [silence, silence])
}

/// A mono dry block packed as complex samples `[sample, silence]`, padded
/// with silent frames to `len` frames.
pub open spec fn packed_block<S>(input: Seq<S>, silence: S, len: nat) -> Seq<[S; 2]> {
    Seq::new(len, |i: int| if i < input.len() { [input[i], silence] } else { [silence, silence] })
}

/// An impulse response padded with silent frames to `len` frames.
pub open spec fn padded_impulse_response<S>(samples: Seq<[S; 2]>, silence: S, len: nat) -> Seq<[S; 2]> {
    Seq::new(len, |i: int| if i < samples.len() { samples[i] } else { [silence, silence] })
}

/// A convolved block with the previous overlap tail mixed into its head.
pub open spec fn overlap_summed<S, O: SampleOps<S>>(ops: O, block: Seq<[S; 2]>, tail: Seq<[S; 2]>) -> Seq<[S; 2]> {
    Seq::new(block.len(), |i: int| if i < tail.len() {
        [ops.spec_mix(block[i][0], tail[i][0]), ops.spec_mix(block[i][1], tail[i][1])]
    } else {
        block[i]
    })
}

/// `len` silent stereo frames.
fn silent_frames<S: Copy>(silence: S, len: usize) -> (frames: Vec<[S; 2]>)
    ensures
        frames@.len() == len,
        forall|i: int| 0 <= i < len ==> #[trigger] frames@[i] == [silence, silence],
{
    let mut frames: Vec<[S; 2]> = Vec::new();
    let mut i: usize = 0;
    while i < len
        invariant
            i <= len,
            frames@.len() == i,
            forall|k: int| 0 <= k < i ==> #[trigger] frames@[k] == [silence, silence],
        decreases len - i,
    {
        frames.push([silence, silence]);
        i = i + 1;
    }
    frames
}

/// Partitioned overlap-add convolver for mono voices and stereo impulse
/// responses.
///
/// Each dry block is zero-padded to the FFT size and convolved with the
/// voice's impulse response by `transform`; the part that spills past the
/// block is kept as the voice's overlap tail and added into the next block.
/// Stereo impulse responses are packed as complex samples, so one transform
/// yields both ears.
pub struct PartitionedConvolver<S, O, G> {
    transform: G,
    ops: O,
    silence: S,
    block_size: usize,
    output_channels: OutputChannels,
    fft_size: usize,
    tail_size: usize,
}

impl<S, O, G> PartitionedConvolver<S, O, G> {
    /// A non-empty block that fits the FFT length, and the tail that the
    /// FFT length leaves past one block.
    #[verifier::type_invariant]
    spec fn sizes_ok(self) -> bool {
        &&& self.block_size > 0
        &&& self.block_size <= self.fft_size
        &&& self.fft_size * 2 <= usize::MAX
        &&& self.tail_size == self.fft_size - self.block_size
    }
}

impl<S: Copy, O: SampleOps<S>, G: SpectralTransform<S>> PartitionedConvolver<S, O, G> {

    /// Frames per dry block.
    pub closed spec fn spec_block_size(&self) -> usize {
        self.block_size
    }

    /// FFT length.
    pub closed spec fn spec_fft_size(&self) -> usize {
        self.fft_size
    }

    /// Overlap frames carried per voice.
    pub closed spec fn spec_tail_size(&self) -> usize {
        self.tail_size
    }

    /// Interleaved output layout.
    pub closed spec fn spec_output_channels(&self) -> OutputChannels {
        self.output_channels
    }

    /// The sample arithmetic used to add tails.
    pub closed spec fn spec_ops(&self) -> O {
        self.ops
    }

    /// The silent sample value.
    pub closed spec fn spec_silence(&self) -> S {
        self.silence
    }

    /// Samples per interleaved output block.
    pub open spec fn spec_output_len(&self) -> nat {
        (self.spec_block_size() * self.spec_output_channels().spec_count()) as nat
    }

    /// Creates a convolver for blocks of `block_size` frames and impulse
    /// responses of up to `ir_num_samples` samples. The FFT length is the
    /// smallest power of two that holds a block convolved with a whole
    /// impulse response.
    pub fn new(
        transform: G,
        ops: O,
        silence: S,
        block_size: usize,
        ir_num_samples: u32,
        output_channels: OutputChannels,
    ) -> (result: SoundResult<Self>)
        ensures
            result is Ok <==> (block_size > 0 && ir_num_samples > 0
                && block_size + ir_num_samples - 1 <= usize::MAX / 4),
            result is Err ==> result->Err_0@.code == ErrorCode::InvalidArgument,
            result matches Ok(convolver) ==> {
                let n = block_size + ir_num_samples - 1;
                &&& convolver.spec_block_size() == block_size
                &&& convolver.spec_output_channels() == output_channels
                &&& convolver.spec_fft_size() >= n
                &&& (convolver.spec_fft_size() == 1 || convolver.spec_fft_size() / 2 < n)
                &&& convolver.spec_tail_size() == convolver.spec_fft_size() - block_size
            },
    {
        if block_size == 0 || ir_num_samples == 0 {
            return Err(SoundError::invalid_argument("block size and impulse response length must be > 0"));
        }
        if block_size > usize::MAX / 4 || ir_num_samples as usize - 1 > usize::MAX / 4 - block_size {
            return Err(SoundError::invalid_argument("convolution size is too large"));
        }
        let sizes = convolution_sizes(block_size, ir_num_samples);
        Ok(PartitionedConvolver {
            transform,
            ops,
            silence,
            block_size,
            output_channels,
            fft_size: sizes.fft_size,
            tail_size: sizes.tail_size,
        })
    }

    /// Returns the FFT length used for signal and impulse-response blocks.
    pub fn fft_size(&self) -> (size: usize)
        ensures
            size == self.spec_fft_size(),
    {
        self.fft_size
    }

    /// Returns the number of overlap frames kept per voice.
    pub fn tail_size(&self) -> (size: usize)
        ensures
            size == self.spec_tail_size(),
    {
        self.tail_size
    }
}

impl<S: Copy, O: SampleOps<S>, G: SpectralTransform<S>> ConvolutionBackend<S> for PartitionedConvolver<S, O, G> {
    type IrSample = [S; 2];
    type ImpulseResponse = PartitionedImpulseResponse<S, G::Spectrum>;
    type VoiceConvolution = VoiceConvolutionState<S, G::Spectrum>;

    open spec fn spec_tail_pending(&self, voice: VoiceConvolutionState<S, G::Spectrum>) -> bool {
        tail_pending(voice.spec_tail().len(), voice.spec_tail_position() as nat)
    }

    open spec fn spec_ir_len_ok(&self, len: nat) -> bool {
        0 < len <= self.spec_fft_size()
    }

    open spec fn spec_last_input(&self, voice: VoiceConvolutionState<S, G::Spectrum>) -> Seq<S> {
        voice.spec_input()
    }

    open spec fn spec_flushed(&self, voice: VoiceConvolutionState<S, G::Spectrum>) -> VoiceConvolutionState<S, G::Spectrum> {
        voice.spec_advanced(self.spec_block_size())
    }

    open spec fn spec_flush_block(&self, voice: VoiceConvolutionState<S, G::Spectrum>) -> Seq<S> {
        tail_block(voice.spec_tail(), voice.spec_tail_position() as int, self.spec_block_size() as int,
            self.spec_output_channels(), self.spec_silence())
    }

    /// Zero-pads an impulse response of one to `fft_size` samples to the FFT
    /// length and transforms it: the spectrum is the transform of the whole
    /// impulse response, every sample at its own index, followed by silence
    /// up to the FFT length.
    fn create_impulse_response(&self, samples: &[[S; 2]]) -> (result: SoundResult<PartitionedImpulseResponse<S, G::Spectrum>>)
        ensures
            result matches Ok(ir) ==> {
                &&& self.spec_ir_len_ok(samples@.len())
                &&& ir.spec_spectrum()@ == ir.spec_source()
                &&& ir.spec_source() == padded_impulse_response(samples@, self.spec_silence(), self.spec_fft_size() as nat)
                &&& ir.spec_source().len() == self.spec_fft_size()
                &&& forall|i: int| 0 <= i < samples@.len() ==> #[trigger] ir.spec_source()[i] == samples@[i]
                &&& forall|i: int| samples@.len() <= i < self.spec_fft_size() ==>
                    #[trigger] ir.spec_source()[i] == [self.spec_silence(), self.spec_silence()]
            },
    {
        proof {
            use_type_invariant(self);
        }
        if samples.len() == 0 {
            return Err(SoundError::invalid_argument("Impulse response must not be empty"));
        }
        if samples.len() > self.fft_size {
            return Err(SoundError::invalid_argument("Impulse response length exceeds FFT size"));
        }
        let mut padded = silent_frames(self.silence, self.fft_size);
        let mut i: usize = 0;
        while i < samples.len()
            invariant
                i <= samples@.len(),
                samples@.len() <= padded@.len(),
                padded@.len() == self.fft_size,
                forall|k: int| 0 <= k < padded@.len() ==> #[trigger] padded@[k]
                    == if k < i { samples@[k] } else { [self.silence, self.silence] },
            decreases samples@.len() - i,
        {
            padded.set(i, samples[i]);
            i = i + 1;
        }
        assert(padded@ =~= padded_impulse_response(samples@, self.silence, self.fft_size as nat));
        match self.transform.transform_impulse_response(padded.as_slice()) {
            Ok(spectrum) => Ok(PartitionedImpulseResponse { spectrum, source: Ghost(padded@) }),
            Err(error) => Err(error),
        }
    }

    /// A silent tail and staging block for a voice of `impulse_response`.
    fn new_voice_convolution(
        &self,
        impulse_response: &PartitionedImpulseResponse<S, G::Spectrum>,
    ) -> (voice: VoiceConvolutionState<S, G::Spectrum>)
        ensures
            voice.spec_tail() == silent_frames_spec(self.spec_silence(), self.spec_tail_size() as nat),
            voice.spec_tail_position() == 0,
            voice.spec_complex() == silent_frames_spec(self.spec_silence(), self.spec_fft_size() as nat),
            voice.spec_impulse_response().spec_source() == impulse_response.spec_source(),
            cloned(impulse_response.spec_spectrum(), voice.spec_impulse_response().spec_spectrum()),
            voice.spec_input() == Seq::<S>::empty(),
    {
        let tail = silent_frames(self.silence, self.tail_size);
        let complex = silent_frames(self.silence, self.fft_size);
        assert(tail@ =~= silent_frames_spec(self.silence, self.tail_size as nat));
        assert(complex@ =~= silent_frames_spec(self.silence, self.fft_size as nat));
        VoiceConvolutionState {
            impulse_response: PartitionedImpulseResponse {
                spectrum: impulse_response.spectrum.clone(),
                source: impulse_response.source,
            },
            tail,
            tail_position: 0,
            complex,
            input: Ghost(Seq::empty()),
            staged: Ghost(Seq::empty()),
        }
    }

    /// Checks the block lengths and that the voice is not flushing, packs
    /// the dry block as complex samples, convolves it, adds the previous
    /// tail, keeps the new tail and writes the block in the output layout.
    fn process_block(
        &self,
        voice: &mut VoiceConvolutionState<S, G::Spectrum>,
        input_block: &[S],
        output_block: &mut [S],
    ) -> (result: SoundResult<()>)
        ensures
            ({
                let lengths_ok = input_block@.len() == self.spec_block_size()
                    && old(output_block)@.len() == self.spec_output_len();
                let before = *old(voice);
                let sized = before.spec_complex().len() == self.spec_fft_size()
                    && before.spec_tail().len() == self.spec_tail_size();
                &&& !lengths_ok ==> result is Err && result->Err_0@.code == ErrorCode::InvalidArgument
                    && *final(voice) == before && final(output_block)@ == old(output_block)@
                &&& lengths_ok && before.spec_tail_position() != 0 ==> result is Err
                    && result->Err_0@.code == ErrorCode::InvalidArgument
                    && *final(voice) == before && final(output_block)@ == old(output_block)@
                &&& lengths_ok && before.spec_tail_position() == 0 && !sized ==> result is Err
                    && result->Err_0@.code == ErrorCode::InvalidState
                    && *final(voice) == before && final(output_block)@ == old(output_block)@
                &&& lengths_ok && before.spec_tail_position() == 0 && sized ==> {
                    &&& final(voice).spec_staged() == packed_block(input_block@, self.spec_silence(), self.spec_fft_size() as nat)
                    &&& final(voice).spec_impulse_response() == before.spec_impulse_response()
                    &&& final(voice).spec_tail_position() == 0
                }
                &&& result is Ok ==> {
                    &&& lengths_ok && before.spec_tail_position() == 0 && sized
                    &&& final(voice).spec_input() == input_block@
                    &&& exists|convolved: Seq<[S; 2]>| #![trigger overlap_summed(self.spec_ops(), convolved, before.spec_tail())] {
                        let summed = overlap_summed(self.spec_ops(), convolved, before.spec_tail());
                        &&& convolved.len() == self.spec_fft_size()
                        &&& final(voice).spec_complex() == summed
                        &&& final(voice).spec_tail() == summed.subrange(self.spec_block_size() as int, self.spec_fft_size() as int)
                        &&& forall|i: int| 0 <= i < final(output_block)@.len() ==>
                            #[trigger] final(output_block)@[i] == copied_sample(summed, 0, self.spec_output_channels(), i)
                    }
                }
            }),
    {
        proof {
            use_type_invariant(self);
        }
        if input_block.len() != self.block_size {
            return Err(SoundError::invalid_argument("input_block length must equal block size"));
        }
        validate_block_lengths(input_block.len(), output_block.len(), self.block_size, self.output_channels, self.fft_size)?;
        validate_not_flushing(voice.tail_position)?;
        if voice.complex.len() != self.fft_size || voice.tail.len() != self.tail_size {
            return Err(SoundError::invalid_state("voice convolution state does not match the convolver"));
        }
        let mut i: usize = 0;
        while i < voice.complex.len()
            invariant
                voice.complex@.len() == self.fft_size,
                voice.tail@.len() == self.tail_size,
                voice.tail@ == old(voice).tail@,
                voice.tail_position == 0,
                voice.impulse_response == old(voice).impulse_response,
                self.tail_size == self.fft_size - self.block_size,
                input_block@.len() == self.block_size,
                self.block_size <= self.fft_size,
                i <= voice.complex@.len(),
                forall|k: int| 0 <= k < i ==> #[trigger] voice.complex@[k]
                    == if k < input_block@.len() { [input_block@[k], self.silence] } else { [self.silence, self.silence] },
            decreases voice.complex@.len() - i,
        {
            let value = if i < input_block.len() { input_block[i] } else { self.silence };
            voice.complex.set(i, [value, self.silence]);
            i = i + 1;
        }
        assert(voice.complex@ =~= packed_block(input_block@, self.silence, self.fft_size as nat));
        voice.staged = Ghost(voice.complex@);
        self.transform.convolve_in_place(&voice.impulse_response.spectrum, voice.complex.as_mut_slice())?;
        if voice.complex.len() != self.fft_size {
            return Err(SoundError::invalid_state("convolution changed the block length"));
        }
        let ghost convolved = voice.complex@;
        let ghost old_tail = voice.tail@;
        let ops = &self.ops;
        let mix = |a: S, b: S| -> (mixed: S)
            ensures
                mixed == ops.spec_mix(a, b),
            { ops.mix(a, b) };
        overlap_add(voice.complex.as_mut_slice(), voice.tail.as_mut_slice(), self.block_size, mix);
        proof {
            let summed = overlap_summed(self.ops, convolved, old_tail);
            assert forall|k: int| 0 <= k < voice.complex@.len() implies #[trigger] voice.complex@[k] == summed[k] by {
                if k < old_tail.len() {
                    assert(call_ensures(mix, (convolved[k][0], old_tail[k][0]), voice.complex@[k][0]));
                    assert(call_ensures(mix, (convolved[k][1], old_tail[k][1]), voice.complex@[k][1]));
                    assert(voice.complex@[k]@ =~= summed[k]@);
                }
            }
            assert(voice.complex@ =~= summed);
            assert(voice.tail@ =~= summed.subrange(self.block_size as int, self.fft_size as int));
            assert(self.block_size * self.output_channels.spec_count() == output_block@.len());
        }
        copy_samples(voice.complex.as_slice(), 0, self.block_size, output_block, self.output_channels);
        voice.input = Ghost(input_block@);
        proof {
            let summed = overlap_summed(self.spec_ops(), convolved, old(voice).spec_tail());
            assert(voice.complex@ == summed);
            assert(voice.tail@ == summed.subrange(self.block_size as int, self.fft_size as int));
            assert(convolved.len() == self.spec_fft_size());
            assert forall|i: int| 0 <= i < output_block@.len() implies
                #[trigger] output_block@[i] == copied_sample(summed, 0, self.spec_output_channels(), i) by {
            }
        }
        Ok(())
    }

    /// Drains the next block of the voice's overlap tail: the next
    /// `block_size` tail frames in the output layout (silence after the tail
    /// ends), advancing the read position by one block, saturating; once the
    /// tail is drained, `Ok(false)` with nothing changed. An output of the
    /// wrong length is rejected.
    fn flush_tail_block(
        &self,
        voice: &mut VoiceConvolutionState<S, G::Spectrum>,
        output_block: &mut [S],
    ) -> (result: SoundResult<bool>)
        ensures
            final(voice).spec_tail() == old(voice).spec_tail(),
            final(voice).spec_complex() == old(voice).spec_complex(),
            final(voice).spec_impulse_response() == old(voice).spec_impulse_response(),
            final(voice).spec_input() == old(voice).spec_input(),
            final(voice).spec_staged() == old(voice).spec_staged(),
            ({
                let tail = old(voice).spec_tail();
                let position = old(voice).spec_tail_position();
                let block = self.spec_block_size();
                let channels = self.spec_output_channels();
                if old(output_block)@.len() != self.spec_output_len() {
                    &&& result is Err
                    &&& result->Err_0@.code == ErrorCode::InvalidArgument
                    &&& final(voice).spec_tail_position() == position
                    &&& final(output_block)@ == old(output_block)@
                } else if tail_pending(tail.len(), position as nat) {
                    let copied = if block < tail.len() - position { block as int } else { tail.len() - position };
                    let copied_len = copied * channels.spec_count();
                    &&& result == Ok::<bool, SoundError>(true)
                    &&& final(voice).spec_tail_position() == if position + block > usize::MAX { usize::MAX as int } else { position + block }
                    &&& final(output_block)@.len() == old(output_block)@.len()
                    &&& forall|i: int| 0 <= i < copied_len ==>
                        #[trigger] final(output_block)@[i] == copied_sample(tail, position as int, channels, i)
                    &&& forall|i: int| copied_len <= i < final(output_block)@.len() ==>
                        #[trigger] final(output_block)@[i] == self.spec_silence()
                } else {
                    &&& result == Ok::<bool, SoundError>(false)
                    &&& final(voice).spec_tail_position() == position
                    &&& final(output_block)@ == old(output_block)@
                }
            }),
    {
        proof {
            use_type_invariant(self);
        }
        let result = crate::auralization::convolver::flush_tail_block(
            voice.tail.as_slice(),
            &mut voice.tail_position,
            self.block_size,
            self.output_channels,
            output_block,
            self.silence,
        );
        proof {
            if result == Ok::<bool, SoundError>(true) {
                assert(*voice == old(voice).spec_advanced(self.block_size));
                assert(output_block@ =~= self.spec_flush_block(*old(voice)));
            }
        }
        result
    }
}

/// Draining a flushing voice hands its overlap tail out block by block.
/// One flush yields, for each of the next `block_size` frames from the read
/// position and each output channel, that channel of the tail frame (the
/// left one for mono output), silence for frames past the tail's end, and
/// moves the read position on by exactly one block, saturating, changing
/// nothing else; so the next flush starts where this one ended.
pub proof fn law_flush_drains_next_block<S: Copy, O: SampleOps<S>, G: SpectralTransform<S>>(
    convolver: PartitionedConvolver<S, O, G>,
    voice: VoiceConvolutionState<S, G::Spectrum>,
)
    ensures
        ({
            let tail = voice.spec_tail();
            let position = voice.spec_tail_position();
            let block = convolver.spec_block_size();
            let count = convolver.spec_output_channels().spec_count();
            let flushed = convolver.spec_flushed(voice);
            let drained = convolver.spec_flush_block(voice);
            &&& position + block <= usize::MAX ==> flushed.spec_tail_position() == position + block
            &&& position + block > usize::MAX ==> flushed.spec_tail_position() == usize::MAX
            &&& flushed.spec_tail() == tail
            &&& flushed.spec_complex() == voice.spec_complex()
            &&& flushed.spec_impulse_response() == voice.spec_impulse_response()
            &&& flushed.spec_input() == voice.spec_input()
            &&& flushed.spec_staged() == voice.spec_staged()
            &&& drained.len() == block * count
            &&& forall|frame: int, channel: int| 0 <= frame < block && 0 <= channel < count ==>
                #[trigger] drained[frame * count + channel] == if position + frame < tail.len() {
                    tail[position + frame][channel]
                } else {
                    convolver.spec_silence()
                }
        }),
{
    let tail = voice.spec_tail();
    let position = voice.spec_tail_position() as int;
    let block = convolver.spec_block_size() as int;
    let channels = convolver.spec_output_channels();
    let count = channels.spec_count() as int;
    let drained = convolver.spec_flush_block(voice);
    assert forall|frame: int, channel: int| 0 <= frame < block && 0 <= channel < count implies
        #[trigger] drained[frame * count + channel] == if position + frame < tail.len() {
            tail[position + frame][channel]
        } else {
            convolver.spec_silence()
        } by {
        let copied = if block < tail.len() - position { block } else { tail.len() - position };
        let i = frame * count + channel;
        assert(0 <= i < block * count) by (nonlinear_arith)
            requires i == frame * count + channel, 0 <= frame < block, 0 <= channel < count, 1 <= count;
        assert((i < copied * count) == (frame < copied)) by (nonlinear_arith)
            requires i == frame * count + channel, 0 <= channel < count, 1 <= count;
        if count == 2 {
            assert(i / 2 == frame && i % 2 == channel);
        }
    }
}

} // verus!
