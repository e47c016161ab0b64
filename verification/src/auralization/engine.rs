use vstd::prelude::*;
use crate::sound_core::config::{AuralizationConfig, SoundConfig};
use crate::sound_core::error::{ErrorCode, SoundError, SoundResult};
use std::collections::HashMap;
use crate::auralization::assets::{SoundAsset, SoundBank, SoundId};
use crate::auralization::convolver::ConvolutionBackend;
use crate::auralization::voice::Voice;
use crate::sound_core::config::OutputChannels;

verus! {

/// Identifier for a currently playing voice.
pub type VoiceId = u64;

/// Identifier for an impulse response registered in the convolver.
pub type ImpulseResponseId = u64;

/// Whether the engine settings describe a renderable configuration.
pub open spec fn engine_config_ok(sound: SoundConfig, auralization: AuralizationConfig) -> bool {
    &&& sound.sample_rate > 0
    &&& sound.ir_num_samples > 0
    &&& auralization.block_size > 0
}

/// Checks the sample rate, IR length and block size of the engine.
pub fn validate_config(sound: SoundConfig, auralization: AuralizationConfig) -> (result: SoundResult<()>)
    ensures
        result is Ok <==> engine_config_ok(sound, auralization),
        result is Err ==> result->Err_0@.code == ErrorCode::InvalidArgument,
{
    if sound.sample_rate == 0 {
        return Err(SoundError::invalid_argument("sample_rate must be > 0"));
    }
    if sound.ir_num_samples == 0 {
        return Err(SoundError::invalid_argument("ir_num_samples must be > 0"));
    }
    if auralization.block_size == 0 {
        return Err(SoundError::invalid_argument("block_size must be > 0"));
    }
    Ok(())
}

/// High-level playback phase for an active voice.
#[derive(Debug, Clone, Copy, PartialEq, Eq, Structural)]
pub enum VoiceState {
    /// Dry samples are still being fed into the convolver.
    Playing,
    /// Dry samples are exhausted and only the convolution tail remains.
    FlushingTail,
}

/// Phase of a playing voice after a block was rendered: it starts flushing
/// its tail once the cursor reached the end of its asset.
pub fn state_after_block(cursor: usize, asset_len: usize) -> (state: VoiceState)
    ensures
        state == if cursor >= asset_len { VoiceState::FlushingTail } else { VoiceState::Playing },
{
    if cursor >= asset_len { VoiceState::FlushingTail } else { VoiceState::Playing }
}

/// Number of dry frames one block takes from an asset at `cursor`.
pub open spec fn frames_taken(asset_len: nat, cursor: nat, block_len: nat) -> nat {
    let available = if cursor <= asset_len { (asset_len - cursor) as nat } else { 0 };
    if block_len < available { block_len } else { available }
}

/// Renders the next dry block of an asset: the next frames from `cursor`
/// through `apply_gain`, then silence once the asset is exhausted (a cursor
/// past the end takes nothing); the cursor advances past the frames taken.
pub fn render_asset_samples<S: Copy, F: Fn(S) -> S>(
    asset: &SoundAsset<S>,
    cursor: &mut usize,
    out_mono: &mut [S],
    silence: S,
    apply_gain: F,
)
    requires
        forall|s: S| call_requires(apply_gain, (s,)),
    ensures
        final(out_mono)@.len() == old(out_mono)@.len(),
        ({
            let taken = frames_taken(asset.spec_samples().len(), *old(cursor) as nat, old(out_mono)@.len());
            &&& *final(cursor) == *old(cursor) + taken
            &&& forall|i: int| 0 <= i < taken ==>
                call_ensures(apply_gain, (asset.spec_samples()[*old(cursor) + i],), #[trigger] final(out_mono)@[i])
            &&& forall|i: int| taken <= i < final(out_mono)@.len() ==> #[trigger] final(out_mono)@[i] == silence
        }),
{
    let samples = asset.samples();
    let available = if *cursor <= samples.len() { samples.len() - *cursor } else { 0 };
    let frames_to_copy = if out_mono.len() < available { out_mono.len() } else { available };
    let start = *cursor;
    assert(samples.len() == samples@.len());
    let ghost n = out_mono@.len();
    let mut i: usize = 0;
    while i < out_mono.len()
        invariant
            n == out_mono@.len(),
            i <= n,
            samples@ == asset.spec_samples(),
            frames_to_copy > 0 ==> start + frames_to_copy <= samples@.len(),
            samples@.len() <= usize::MAX,
            frames_to_copy <= n,
            forall|s: S| call_requires(apply_gain, (s,)),
            forall|k: int| 0 <= k < i && k < frames_to_copy ==>
                call_ensures(apply_gain, (samples@[start + k],), #[trigger] out_mono@[k]),
            forall|k: int| frames_to_copy <= k < i ==> #[trigger] out_mono@[k] == silence,
        decreases n - i,
    {
        if i < frames_to_copy {
            let value = apply_gain(samples[start + i]);
            out_mono[i] = value;
        } else {
            out_mono[i] = silence;
        }
        i = i + 1;
    }
    *cursor = start + frames_to_copy;
}

/// Sample arithmetic the engine needs: applying a gain, mixing a wet
/// sample into the output, and telling a finite gain from an infinite or
/// undefined one.
pub trait SampleOps<S> {
    /// `sample` with `gain` applied.
    spec fn spec_scale(&self, sample: S, gain: S) -> S;

    /// `wet` mixed into `accumulated`.
    spec fn spec_mix(&self, accumulated: S, wet: S) -> S;

    /// Whether `value` is a finite gain.
    spec fn spec_is_finite(&self, value: S) -> bool;

    /// Applies `gain` to `sample`.
    fn scale(&self, sample: S, gain: S) -> (scaled: S)
        ensures
            scaled == self.spec_scale(sample, gain);

    /// Mixes `wet` into `accumulated`.
    fn mix(&self, accumulated: S, wet: S) -> (mixed: S)
        ensures
            mixed == self.spec_mix(accumulated, wet);

    /// Tells a finite gain from an infinite or undefined one.
    fn is_finite(&self, value: S) -> (finite: bool)
        ensures
            finite == self.spec_is_finite(value);
}

/// `v` clamped to the range of `i32`.
pub open spec fn saturate_i32(v: int) -> i32 {
    if v > i32::MAX { i32::MAX } else if v < i32::MIN { i32::MIN } else { v as i32 }
}

/// Integer PCM samples: gains multiply and mixes add, both saturating at the
/// range of `i32`; every integer gain is finite.
#[derive(Debug, Clone, Copy)]
pub struct SaturatingOps;

impl SampleOps<i32> for SaturatingOps {
    open spec fn spec_scale(&self, sample: i32, gain: i32) -> i32 {
        saturate_i32(sample * gain)
    }

    open spec fn spec_mix(&self, accumulated: i32, wet: i32) -> i32 {
        saturate_i32(accumulated + wet)
    }

    open spec fn spec_is_finite(&self, value: i32) -> bool {
        true
    }

    fn scale(&self, sample: i32, gain: i32) -> (scaled: i32) {
        let a: i64 = sample as i64;
        let b: i64 = gain as i64;
        assert(-0x8000_0000 <= a <= 0x7fff_ffff && -0x8000_0000 <= b <= 0x7fff_ffff);
        assert(-0x4000_0000_0000_0000 <= a * b <= 0x4000_0000_0000_0000) by (nonlinear_arith)
            requires
                -0x8000_0000 <= a <= 0x7fff_ffff,
                -0x8000_0000 <= b <= 0x7fff_ffff;
        let wide: i64 = a * b;
        if wide > i32::MAX as i64 {
            i32::MAX
        } else if wide < i32::MIN as i64 {
            i32::MIN
        } else {
            wide as i32
        }
    }

    fn mix(&self, accumulated: i32, wet: i32) -> (mixed: i32) {
        let wide: i64 = (accumulated as i64) + (wet as i64);
        if wide > i32::MAX as i64 {
            i32::MAX
        } else if wide < i32::MIN as i64 {
            i32::MIN
        } else {
            wide as i32
        }
    }

    fn is_finite(&self, value: i32) -> (finite: bool) {
        true
    }
}

/// Request used to start a dry sound through a registered impulse response.
#[derive(Debug, Clone, Copy)]
pub struct PlaySoundRequest<S> {
    /// Dry asset to render.
    pub sound_id: SoundId,
    /// Impulse response that spatializes the sound.
    pub impulse_response_id: ImpulseResponseId,
    /// Linear dry gain applied before convolution.
    pub gain: S,
}

impl<S> PlaySoundRequest<S> {
    /// Creates a play request with the given unit gain of the sample type.
    pub fn new(sound_id: SoundId, impulse_response_id: ImpulseResponseId, unit_gain: S) -> (request: Self)
        ensures
            request.sound_id == sound_id,
            request.impulse_response_id == impulse_response_id,
            request.gain == unit_gain,
    {
        PlaySoundRequest { sound_id, impulse_response_id, gain: unit_gain }
    }
}

/// What identifies a voice and its dry progress: id, asset, cursor, gain and phase.
pub open spec fn voice_header<S, V>(voice: Voice<S, V>) -> (VoiceId, SoundId, usize, S, VoiceState) {
    (voice.id, voice.sound_id, voice.cursor, voice.gain, voice.state)
}

/// Headers of a list of voices.
pub open spec fn voice_headers<S, V>(voices: Seq<Voice<S, V>>) -> Seq<(VoiceId, SoundId, usize, S, VoiceState)> {
    voices.map_values(|v: Voice<S, V>| voice_header(v))
}

/// Header of a voice after one rendered block: a playing voice takes the
/// next dry frames of its asset of `asset_len` frames and starts flushing
/// once they run out; a flushing voice keeps its dry progress.
pub open spec fn advanced_header<S, V>(voice: Voice<S, V>, asset_len: nat, block_size: nat) -> (VoiceId, SoundId, usize, S, VoiceState) {
    if voice.state == VoiceState::Playing {
        let cursor = voice.cursor + frames_taken(asset_len, voice.cursor as nat, block_size);
        (voice.id, voice.sound_id, cursor as usize, voice.gain,
            if cursor >= asset_len { VoiceState::FlushingTail } else { VoiceState::Playing })
    } else {
        voice_header(voice)
    }
}

/// The entries of `items` whose `keep` flag is set, in order.
pub open spec fn kept<T>(items: Seq<T>, keep: Seq<bool>) -> Seq<T>
    decreases items.len(),
{
    if items.len() == 0 || keep.len() == 0 {
        Seq::empty()
    } else {
        let rest = kept(items.drop_last(), keep.drop_last());
        if keep.last() { rest.push(items.last()) } else { rest }
    }
}

/// Ids of a list of voices.
pub open spec fn voice_ids<S, V>(voices: Seq<Voice<S, V>>) -> Seq<VoiceId> {
    voices.map_values(|v: Voice<S, V>| v.id)
}

/// The dry block a playing voice hands to the convolver: the next frames of
/// its asset from its cursor with its gain applied, then silence once the
/// asset is exhausted, `len` frames in all.
pub open spec fn voice_dry_block<S, V, O: SampleOps<S>>(
    ops: O,
    voice: Voice<S, V>,
    bank: SoundBank<SoundAsset<S>>,
    len: nat,
    silence: S,
) -> Seq<S> {
    let samples = bank.spec_assets()[voice.sound_id].spec_samples();
    let taken = frames_taken(samples.len(), voice.cursor as nat, len);
    Seq::new(len, |i: int| if i < taken { ops.spec_scale(samples[voice.cursor + i], voice.gain) } else { silence })
}

/// `wet` mixed into `output` sample by sample over the shorter of the
/// two; samples past the end of `wet` keep their value.
pub open spec fn mixed_block<S, O: SampleOps<S>>(ops: O, output: Seq<S>, wet: Seq<S>) -> Seq<S> {
    Seq::new(output.len(), |i: int| if i < wet.len() { ops.spec_mix(output[i], wet[i]) } else { output[i] })
}

/// `output` with every block of `wets` mixed in, in order.
pub open spec fn mixed_blocks<S, O: SampleOps<S>>(ops: O, output: Seq<S>, wets: Seq<Seq<S>>) -> Seq<S>
    decreases wets.len(),
{
    if wets.len() == 0 {
        output
    } else {
        mixed_block(ops, mixed_blocks(ops, output, wets.drop_last()), wets.last())
    }
}

/// Whether some voice of the list has id `id`.
pub open spec fn has_voice<S, V>(voices: Seq<Voice<S, V>>, id: VoiceId) -> bool {
    exists|k: int| 0 <= k < voices.len() && (#[trigger] voices[k]).id == id
}

/// Position of the voice with id `id` (meaningful when `has_voice` holds).
pub open spec fn voice_index<S, V>(voices: Seq<Voice<S, V>>, id: VoiceId) -> int {
    choose|k: int| 0 <= k < voices.len() && (#[trigger] voices[k]).id == id
}

/// The voices left after stopping `id`: the voice with that id is taken
/// out, the others keep their order.
pub open spec fn without_voice<S, V>(voices: Seq<Voice<S, V>>, id: VoiceId) -> Seq<Voice<S, V>> {
    if has_voice(voices, id) { voices.remove(voice_index(voices, id)) } else { voices }
}

/// Number of frames of the asset registered under `id`.
pub open spec fn asset_len<S>(bank: SoundBank<SoundAsset<S>>, id: SoundId) -> nat {
    bank.spec_assets()[id].spec_samples().len()
}

/// Headers of the voices after one rendered block of `block_size` frames.
pub open spec fn advanced_headers<S, V>(voices: Seq<Voice<S, V>>, bank: SoundBank<SoundAsset<S>>, block_size: nat)
    -> Seq<(VoiceId, SoundId, usize, S, VoiceState)> {
    voices.map_values(|v: Voice<S, V>| advanced_header(v, asset_len(bank, v.sound_id), block_size))
}

/// Every playing voice renders a sound that the bank holds.
pub open spec fn playing_sounds_present<S, V>(voices: Seq<Voice<S, V>>, bank: SoundBank<SoundAsset<S>>) -> bool {
    forall|i: int| 0 <= i < voices.len() && (#[trigger] voices[i]).state == VoiceState::Playing
        ==> bank.spec_assets().contains_key(voices[i].sound_id)
}

/// Whether a request names a registered, non-empty sound and a registered
/// impulse response.
pub open spec fn playable<S, R>(
    bank: SoundBank<SoundAsset<S>>,
    impulse_responses: Map<ImpulseResponseId, R>,
    request: PlaySoundRequest<S>,
) -> bool {
    &&& bank.spec_assets().contains_key(request.sound_id)
    &&& bank.spec_assets()[request.sound_id].spec_samples().len() > 0
    &&& impulse_responses.contains_key(request.impulse_response_id)
}

/// Block-based auralization engine for dry sound assets and acoustic IRs.
///
/// The engine owns decoded sound assets, registered impulse responses,
/// active voices (in the order they were started) and the convolver. It
/// performs no device I/O; callers request sounds and pull interleaved
/// output blocks.
pub struct AuralizationEngine<S, C: ConvolutionBackend<S>, O: SampleOps<S>> {
    sound: SoundConfig,
    auralization: AuralizationConfig,
    convolver: C,
    ops: O,
    silence: S,
    sound_bank: SoundBank<SoundAsset<S>>,
    impulse_responses: HashMap<ImpulseResponseId, C::ImpulseResponse>,
    /// Voices in the order they were started, ids distinct: a render pass
    /// walks them in this order, which fixes the order wet blocks are mixed.
    active_voices: Vec<Voice<S, C::VoiceConvolution>>,
    next_voice_id: VoiceId,
    dry_block: Vec<S>,
    wet_block: Vec<S>,
}

impl<S: Copy, C: ConvolutionBackend<S>, O: SampleOps<S>> AuralizationEngine<S, C, O> {
    /// Output layout, sample rate and IR length.
    pub closed spec fn spec_sound(&self) -> SoundConfig {
        self.sound
    }

    /// Frames rendered per block.
    pub closed spec fn spec_auralization(&self) -> AuralizationConfig {
        self.auralization
    }

    /// The dry assets the engine can play.
    pub closed spec fn spec_sound_bank(&self) -> SoundBank<SoundAsset<S>> {
        self.sound_bank
    }

    /// Registered impulse responses by id.
    pub closed spec fn spec_impulse_responses(&self) -> Map<ImpulseResponseId, C::ImpulseResponse> {
        self.impulse_responses@
    }

    /// Active and tail-flushing voices, in the order they were started.
    pub closed spec fn spec_voices(&self) -> Seq<Voice<S, C::VoiceConvolution>> {
        self.active_voices@
    }

    /// The id the next started voice receives.
    pub closed spec fn spec_next_voice_id(&self) -> VoiceId {
        self.next_voice_id
    }

    /// The sample arithmetic.
    pub closed spec fn spec_ops(&self) -> O {
        self.ops
    }

    /// The convolver.
    pub closed spec fn spec_convolver(&self) -> C {
        self.convolver
    }

    /// The sample value of silence that blocks are cleared to.
    pub closed spec fn spec_silence(&self) -> S {
        self.silence
    }

    /// Interleaved samples in one output block.
    pub open spec fn spec_block_len(&self) -> nat {
        (self.spec_auralization().block_size * self.spec_sound().output_channels.spec_count()) as nat
    }

    /// A valid configuration, a valid sound bank, voice ids that are distinct
    /// and below the next id (unless the id counter saturated), and a dry
    /// scratch block of one block.
    pub open spec fn wf(&self) -> bool {
        &&& engine_config_ok(self.spec_sound(), self.spec_auralization())
        &&& self.spec_auralization().block_size * 2 <= usize::MAX
        &&& self.spec_sound_bank().wf()
        &&& self.spec_next_voice_id() >= 1
        &&& forall|i: int, j: int| 0 <= i < j < self.spec_voices().len() ==>
            self.spec_voices()[i].id != self.spec_voices()[j].id
        &&& forall|i: int| 0 <= i < self.spec_voices().len() ==>
            (#[trigger] self.spec_voices()[i].id < self.spec_next_voice_id() || self.spec_next_voice_id() == u64::MAX)
        &&& self.buffers_ok()
    }

    /// The dry scratch block holds one block of mono frames.
    pub closed spec fn buffers_ok(&self) -> bool {
        self.dry_block@.len() == self.auralization.block_size
    }

    /// Creates an engine with an empty sound bank around a convolver.
    pub fn new(convolver: C, ops: O, sound: SoundConfig, auralization: AuralizationConfig, silence: S) -> (result: SoundResult<Self>)
        requires
            auralization.block_size * 2 <= usize::MAX,
        ensures
            result is Ok <==> engine_config_ok(sound, auralization),
            result is Err ==> result->Err_0@.code == ErrorCode::InvalidArgument,
            result matches Ok(engine) ==> {
                &&& engine.wf()
                &&& engine.spec_sound() == sound
                &&& engine.spec_auralization() == auralization
                &&& engine.spec_voices().len() == 0
                &&& engine.spec_next_voice_id() == 1
                &&& engine.spec_silence() == silence
                &&& engine.spec_impulse_responses() == Map::<ImpulseResponseId, C::ImpulseResponse>::empty()
                &&& engine.spec_sound_bank().spec_assets() == Map::<SoundId, SoundAsset<S>>::empty()
            },
    {
        validate_config(sound, auralization)?;
        let block_size = auralization.block_size;
        let output_channels = sound.output_channels.count();
        let dry_block = filled(silence, block_size);
        let wet_block = filled(silence, block_size * output_channels);
        let engine = AuralizationEngine {
            sound,
            auralization,
            convolver,
            ops,
            silence,
            sound_bank: SoundBank::new(),
            impulse_responses: HashMap::new(),
            active_voices: Vec::new(),
            next_voice_id: 1,
            dry_block,
            wet_block,
        };
        Ok(engine)
    }

    /// Returns the engine sample rate used for all loaded assets and IRs.
    pub fn sample_rate(&self) -> (rate: u32)
        ensures
            rate == self.spec_sound().sample_rate,
    {
        self.sound.sample_rate
    }

    /// Returns the number of frames rendered per block.
    pub fn block_size(&self) -> (size: usize)
        ensures
            size == self.spec_auralization().block_size,
    {
        self.auralization.block_size
    }

    /// Returns the number of interleaved output channels per frame.
    pub fn output_channels(&self) -> (channels: usize)
        ensures
            channels == self.spec_sound().output_channels.spec_count(),
    {
        self.sound.output_channels.count()
    }

    /// Returns an immutable view of the sound bank.
    pub fn sound_bank(&self) -> (bank: &SoundBank<SoundAsset<S>>)
        ensures
            *bank == self.spec_sound_bank(),
    {
        &self.sound_bank
    }

    /// Inserts a mono asset recorded at the engine sample rate.
    pub fn insert_sound(&mut self, asset: SoundAsset<S>) -> (result: SoundResult<SoundId>)
        requires
            old(self).wf(),
        ensures
            final(self).wf(),
            final(self).spec_next_voice_id() == old(self).spec_next_voice_id(),
            final(self).spec_voices() == old(self).spec_voices(),
            final(self).spec_impulse_responses() == old(self).spec_impulse_responses(),
            final(self).spec_sound() == old(self).spec_sound(),
            final(self).spec_auralization() == old(self).spec_auralization(),
            result is Ok <==> asset.spec_sample_rate() == old(self).spec_sound().sample_rate,
            result is Err ==> result->Err_0@.code == ErrorCode::InvalidArgument
                && final(self).spec_sound_bank() == old(self).spec_sound_bank(),
            result matches Ok(id) ==> {
                &&& id == old(self).spec_sound_bank().spec_next_id()
                &&& final(self).spec_sound_bank().spec_assets() == old(self).spec_sound_bank().spec_assets().insert(id, asset)
                &&& id < u64::MAX ==> final(self).spec_sound_bank().spec_assets().len()
                    == old(self).spec_sound_bank().spec_assets().len() + 1
            },
    {
        if asset.sample_rate() != self.sound.sample_rate {
            return Err(SoundError::invalid_argument("sound asset sample rate must match engine sample rate"));
        }
        Ok(self.sound_bank.insert(asset))
    }

    /// Registers an impulse response under `id`, replacing any earlier one.
    pub fn register_impulse_response(&mut self, id: ImpulseResponseId, samples: &[C::IrSample]) -> (result: SoundResult<()>)
        requires
            old(self).wf(),
        ensures
            final(self).wf(),
            final(self).spec_next_voice_id() == old(self).spec_next_voice_id(),
            final(self).spec_ops() == old(self).spec_ops(),
            final(self).spec_voices() == old(self).spec_voices(),
            final(self).spec_sound_bank() == old(self).spec_sound_bank(),
            final(self).spec_sound() == old(self).spec_sound(),
            final(self).spec_auralization() == old(self).spec_auralization(),
            result is Err ==> final(self).spec_impulse_responses() == old(self).spec_impulse_responses(),
            result is Err ==> *final(self) == *old(self),
            !old(self).spec_convolver().spec_ir_len_ok(samples@.len()) ==>
                result is Err && result->Err_0@.code == ErrorCode::InvalidArgument,
            result is Ok ==> exists|ir: C::ImpulseResponse| final(self).spec_impulse_responses()
                == #[trigger] old(self).spec_impulse_responses().insert(id, ir),
    {
        let impulse_response = self.convolver.create_impulse_response(samples)?;
        let ghost ir = impulse_response;
        self.impulse_responses.insert(id, impulse_response);
        assert(self.spec_impulse_responses() == old(self).spec_impulse_responses().insert(id, ir));
        Ok(())
    }

    /// Removes an impulse response from the registry; voices already using
    /// it keep their own convolution state.
    pub fn forget_impulse_response(&mut self, id: ImpulseResponseId)
        requires
            old(self).wf(),
        ensures
            final(self).wf(),
            final(self).spec_next_voice_id() == old(self).spec_next_voice_id(),
            final(self).spec_voices() == old(self).spec_voices(),
            final(self).spec_sound_bank() == old(self).spec_sound_bank(),
            final(self).spec_sound() == old(self).spec_sound(),
            final(self).spec_auralization() == old(self).spec_auralization(),
            final(self).spec_impulse_responses() == old(self).spec_impulse_responses().remove(id),
    {
        let _ = self.impulse_responses.remove(&id);
    }

    /// Starts playing a sound through a registered impulse response.
    ///
    /// Fails with `InvalidArgument` for a non-finite gain or an empty asset
    /// and `NotFound` for an unknown sound or impulse response. The new voice
    /// takes the next voice id; once the id counter has saturated, a voice
    /// already holding that id is replaced, as a keyed insert would.
    pub fn play_sound(&mut self, request: PlaySoundRequest<S>) -> (result: SoundResult<VoiceId>)
        requires
            old(self).wf(),
        ensures
            final(self).wf(),
            final(self).spec_sound_bank() == old(self).spec_sound_bank(),
            final(self).spec_impulse_responses() == old(self).spec_impulse_responses(),
            final(self).spec_sound() == old(self).spec_sound(),
            final(self).spec_auralization() == old(self).spec_auralization(),
            result is Err ==> *final(self) == *old(self),
            ({
                let assets = old(self).spec_sound_bank().spec_assets();
                let finite = old(self).spec_ops().spec_is_finite(request.gain);
                if !finite {
                    result is Err && result->Err_0@.code == ErrorCode::InvalidArgument
                } else if !assets.contains_key(request.sound_id) {
                    result is Err && result->Err_0@.code == ErrorCode::NotFound
                } else if assets[request.sound_id].spec_samples().len() == 0 {
                    result is Err && result->Err_0@.code == ErrorCode::InvalidArgument
                } else if !old(self).spec_impulse_responses().contains_key(request.impulse_response_id) {
                    result is Err && result->Err_0@.code == ErrorCode::NotFound
                } else {
                    result == Ok::<VoiceId, SoundError>(old(self).spec_next_voice_id())
                }
            }),
            result matches Ok(id) ==> {
                let old_voices = old(self).spec_voices();
                let voices = final(self).spec_voices();
                let header = (id, request.sound_id, 0usize, request.gain, VoiceState::Playing);
                &&& id == old(self).spec_next_voice_id()
                &&& final(self).spec_next_voice_id() == if id == u64::MAX { u64::MAX } else { (id + 1) as u64 }
                &&& if has_voice(old_voices, id) {
                    let k = voice_index(old_voices, id);
                    &&& voices.len() == old_voices.len()
                    &&& voices == old_voices.update(k, voices[k])
                    &&& voice_header(voices[k]) == header
                } else {
                    &&& voices.len() == old_voices.len() + 1
                    &&& voices.drop_last() == old_voices
                    &&& voice_header(voices.last()) == header
                }
            },
    {
        if !self.ops.is_finite(request.gain) {
            return Err(SoundError::invalid_argument("sound gain must be finite"));
        }
        let asset = self.sound_bank.get(request.sound_id)?;
        if asset.is_empty() {
            return Err(SoundError::invalid_argument("sound asset must not be empty"));
        }
        let impulse_response = match self.impulse_responses.get(&request.impulse_response_id) {
            Some(ir) => ir,
            None => return Err(SoundError::not_found("Unknown impulse response id")),
        };
        let voice_id = self.next_voice_id;
        let convolution = self.convolver.new_voice_convolution(impulse_response);
        let voice = Voice::new(voice_id, request.sound_id, request.gain, convolution);
        let found = find_voice(&self.active_voices, voice_id);
        self.next_voice_id = self.next_voice_id.saturating_add(1);
        match found {
            Some(k) => {
                proof {
                    assert(self.active_voices@[k as int].id == voice_id);
                    assert(voice_id == u64::MAX);
                    lemma_found_voice_is_indexed(old(self).spec_voices(), voice_id, k as int);
                }
                self.active_voices[k] = voice;
                proof {
                    assert forall|a: int, b: int| 0 <= a < b < self.active_voices@.len() implies
                        self.active_voices@[a].id != self.active_voices@[b].id by {
                        assert(old(self).spec_voices()[a].id != old(self).spec_voices()[b].id);
                    }
                }
            }
            None => {
                self.active_voices.push(voice);
                proof {
                    assert(self.active_voices@.drop_last() =~= old(self).active_voices@);
                    assert(!has_voice(old(self).spec_voices(), voice_id));
                    assert forall|a: int| 0 <= a < self.active_voices@.len() implies
                        (#[trigger] self.active_voices@[a].id < self.next_voice_id || self.next_voice_id == u64::MAX) by {
                        if a < old(self).active_voices@.len() {
                            assert(old(self).spec_voices()[a].id < old(self).spec_next_voice_id()
                                || old(self).spec_next_voice_id() == u64::MAX);
                        }
                    }
                    assert forall|a: int, b: int| 0 <= a < b < self.active_voices@.len() implies
                        self.active_voices@[a].id != self.active_voices@[b].id by {
                        if b == old(self).active_voices@.len() {
                            assert(old(self).spec_voices()[a].id != voice_id);
                        } else {
                            assert(old(self).spec_voices()[a].id != old(self).spec_voices()[b].id);
                        }
                    }
                }
            }
        }
        Ok(voice_id)
    }

    /// Stops a voice and releases its convolution state; an unknown id is ignored.
    pub fn stop_voice(&mut self, voice_id: VoiceId)
        requires
            old(self).wf(),
        ensures
            final(self).wf(),
            final(self).spec_sound_bank() == old(self).spec_sound_bank(),
            final(self).spec_impulse_responses() == old(self).spec_impulse_responses(),
            final(self).spec_sound() == old(self).spec_sound(),
            final(self).spec_auralization() == old(self).spec_auralization(),
            final(self).spec_next_voice_id() == old(self).spec_next_voice_id(),
            final(self).spec_voices() == without_voice(old(self).spec_voices(), voice_id),
    {
        match find_voice(&self.active_voices, voice_id) {
            Some(i) => {
                proof {
                    lemma_found_voice_is_indexed(old(self).spec_voices(), voice_id, i as int);
                }
                let _ = self.active_voices.remove(i);
                proof {
                    assert forall|a: int, b: int| 0 <= a < b < self.active_voices@.len() implies
                        self.active_voices@[a].id != self.active_voices@[b].id by {
                        let ia = if a < i { a } else { a + 1 };
                        let ib = if b < i { b } else { b + 1 };
                        assert(self.active_voices@[a] == old(self).active_voices@[ia]);
                        assert(self.active_voices@[b] == old(self).active_voices@[ib]);
                        assert(old(self).spec_voices()[ia].id != old(self).spec_voices()[ib].id);
                    }
                    assert forall|a: int| 0 <= a < self.active_voices@.len() implies
                        (#[trigger] self.active_voices@[a].id < self.next_voice_id || self.next_voice_id == u64::MAX) by {
                        let ia = if a < i { a } else { a + 1 };
                        assert(self.active_voices@[a] == old(self).active_voices@[ia]);
                        assert(old(self).spec_voices()[ia].id < old(self).spec_next_voice_id()
                            || old(self).spec_next_voice_id() == u64::MAX);
                    }
                }
            }
            None => {}
        }
    }

    /// Renders and mixes one output block from all voices.
    ///
    /// `output_block` must hold one block of interleaved frames, otherwise
    /// the call fails with `InvalidArgument` and changes nothing. The block
    /// is cleared to silence, then each voice in turn mixes in its wet
    /// block: a playing voice takes its next dry frames (an unknown sound
    /// fails with `NotFound`) and starts flushing once its asset is
    /// exhausted; a flushing voice drains its convolution tail and is
    /// dropped once the convolver reports nothing left. A convolver error
    /// stops the pass and is returned; voices are only dropped after a
    /// complete pass.
    pub fn render_block(&mut self, output_block: &mut [S]) -> (result: SoundResult<()>)
        requires
            old(self).wf(),
        ensures
            final(self).wf(),
            final(self).spec_sound_bank() == old(self).spec_sound_bank(),
            final(self).spec_impulse_responses() == old(self).spec_impulse_responses(),
            final(self).spec_sound() == old(self).spec_sound(),
            final(self).spec_auralization() == old(self).spec_auralization(),
            final(self).spec_next_voice_id() == old(self).spec_next_voice_id(),
            final(output_block)@.len() == old(output_block)@.len(),
            old(output_block)@.len() != old(self).spec_block_len() ==>
                result is Err && result->Err_0@.code == ErrorCode::InvalidArgument
                && *final(self) == *old(self) && final(output_block)@ == old(output_block)@,
            old(output_block)@.len() == old(self).spec_block_len() && old(self).spec_voices().len() == 0 ==>
                result is Ok && forall|i: int| 0 <= i < final(output_block)@.len()
                    ==> #[trigger] final(output_block)@[i] == old(self).spec_silence(),
            old(output_block)@.len() == old(self).spec_block_len()
                && !playing_sounds_present(old(self).spec_voices(), old(self).spec_sound_bank()) ==> result is Err,
            result is Err ==> voice_ids(final(self).spec_voices()) == voice_ids(old(self).spec_voices()),
            result is Ok ==> {
                &&& old(output_block)@.len() == old(self).spec_block_len()
                &&& playing_sounds_present(old(self).spec_voices(), old(self).spec_sound_bank())
                &&& exists|keep: Seq<bool>, wets: Seq<Seq<S>>, rendered: Seq<Voice<S, C::VoiceConvolution>>| {
                    &&& keep.len() == old(self).spec_voices().len()
                    &&& wets.len() == old(self).spec_voices().len()
                    &&& rendered.len() == old(self).spec_voices().len()
                    &&& final(self).spec_voices() == #[trigger] kept(rendered, keep)
                    &&& forall|i: int| 0 <= i < rendered.len() && old(self).spec_voices()[i].state == VoiceState::Playing ==>
                        old(self).spec_convolver().spec_last_input(#[trigger] rendered[i].convolution)
                            == voice_dry_block(old(self).spec_ops(), old(self).spec_voices()[i], old(self).spec_sound_bank(),
                                old(self).spec_auralization().block_size as nat, old(self).spec_silence())
                    &&& forall|i: int| 0 <= i < rendered.len() && old(self).spec_voices()[i].state == VoiceState::FlushingTail
                        && keep[i] ==> #[trigger] wets[i]
                            == old(self).spec_convolver().spec_flush_block(old(self).spec_voices()[i].convolution)
                    &&& forall|i: int| 0 <= i < rendered.len() && old(self).spec_voices()[i].state == VoiceState::FlushingTail
                        && keep[i] ==> (#[trigger] rendered[i]).convolution
                            == old(self).spec_convolver().spec_flushed(old(self).spec_voices()[i].convolution)
                    &&& forall|i: int| 0 <= i < keep.len() ==> #[trigger] keep[i]
                        == (old(self).spec_voices()[i].state == VoiceState::Playing
                            || old(self).spec_convolver().spec_tail_pending(old(self).spec_voices()[i].convolution))
                    &&& voice_headers(final(self).spec_voices()) == #[trigger] kept(
                        advanced_headers(old(self).spec_voices(), old(self).spec_sound_bank(),
                            old(self).spec_auralization().block_size as nat),
                        keep,
                    )
                    &&& final(output_block)@ == mixed_blocks(old(self).spec_ops(),
                        Seq::new(old(output_block)@.len(), |i: int| old(self).spec_silence()),
                        #[trigger] kept(wets, keep))
                }
            },
    {
        let output_channels = self.sound.output_channels.count();
        if output_block.len() != self.auralization.block_size * output_channels {
            return Err(SoundError::invalid_argument("output_block length must equal block size times channel count"));
        }
        fill_with(output_block, self.silence);
        let ghost silent = output_block@;
        assert(silent =~= Seq::new(old(output_block)@.len(), |i: int| self.silence));
        let mut voices: Vec<Voice<S, C::VoiceConvolution>> = Vec::new();
        std::mem::swap(&mut voices, &mut self.active_voices);
        let (voices, result) = render_voices(
            voices,
            &self.sound_bank,
            &self.convolver,
            &self.ops,
            self.silence,
            &mut self.dry_block,
            &mut self.wet_block,
            output_block,
        );
        self.active_voices = voices;
        proof {
            if result is Ok {
                let adv = advanced_headers(old(self).spec_voices(), self.sound_bank,
                    self.auralization.block_size as nat);
                let (keep, wets, rendered) = choose|keep: Seq<bool>, wets: Seq<Seq<S>>, rendered: Seq<Voice<S, C::VoiceConvolution>>| {
                    &&& keep.len() == old(self).spec_voices().len()
                    &&& wets.len() == old(self).spec_voices().len()
                    &&& rendered.len() == old(self).spec_voices().len()
                    &&& self.active_voices@ == #[trigger] kept(rendered, keep)
                    &&& forall|i: int| 0 <= i < rendered.len() && old(self).spec_voices()[i].state == VoiceState::Playing ==>
                        self.convolver.spec_last_input(#[trigger] rendered[i].convolution)
                            == voice_dry_block(self.ops, old(self).spec_voices()[i], self.sound_bank,
                                self.auralization.block_size as nat, self.silence)
                    &&& forall|i: int| 0 <= i < rendered.len() && old(self).spec_voices()[i].state == VoiceState::FlushingTail
                        && keep[i] ==> #[trigger] wets[i]
                            == self.convolver.spec_flush_block(old(self).spec_voices()[i].convolution)
                    &&& forall|i: int| 0 <= i < rendered.len() && old(self).spec_voices()[i].state == VoiceState::FlushingTail
                        && keep[i] ==> (#[trigger] rendered[i]).convolution
                            == self.convolver.spec_flushed(old(self).spec_voices()[i].convolution)
                    &&& forall|i: int| 0 <= i < keep.len() ==> #[trigger] keep[i]
                        == (old(self).spec_voices()[i].state == VoiceState::Playing
                            || self.convolver.spec_tail_pending(old(self).spec_voices()[i].convolution))
                    &&& voice_headers(self.active_voices@) == #[trigger] kept(adv, keep)
                    &&& output_block@ == mixed_blocks(self.ops, silent, #[trigger] kept(wets, keep))
                };
                let positions = lemma_kept_positions(adv, keep);
                assert forall|a: int| 0 <= a < self.active_voices@.len() implies
                    #[trigger] self.active_voices@[a].id == old(self).spec_voices()[positions[a]].id by {
                    assert(voice_headers(self.active_voices@)[a] == kept(adv, keep)[a]);
                }
                assert forall|a: int, b: int| 0 <= a < b < self.active_voices@.len() implies
                    self.active_voices@[a].id != self.active_voices@[b].id by {
                    assert(self.active_voices@[a].id == old(self).spec_voices()[positions[a]].id);
                    assert(self.active_voices@[b].id == old(self).spec_voices()[positions[b]].id);
                }
                assert forall|a: int| 0 <= a < self.active_voices@.len() implies
                    (#[trigger] self.active_voices@[a].id < self.next_voice_id || self.next_voice_id == u64::MAX) by {
                    assert(self.active_voices@[a].id == old(self).spec_voices()[positions[a]].id);
                    assert(old(self).spec_voices()[positions[a]].id < old(self).spec_next_voice_id()
                        || old(self).spec_next_voice_id() == u64::MAX);
                }
            } else {
                assert(self.active_voices@.len() == voice_ids(self.active_voices@).len());
                assert(old(self).spec_voices().len() == voice_ids(old(self).spec_voices()).len());
                assert forall|a: int| 0 <= a < self.active_voices@.len() implies
                    #[trigger] self.active_voices@[a].id == old(self).spec_voices()[a].id by {
                    assert(voice_ids(self.active_voices@)[a] == voice_ids(old(self).spec_voices())[a]);
                }
            }
        }
        result
    }

    /// Returns whether the engine currently has active or tail-flushing voices.
    pub fn has_active_voices(&self) -> (active: bool)
        ensures
            active == (self.spec_voices().len() > 0),
    {
        self.active_voices.len() > 0
    }

    /// Returns the number of active or tail-flushing voices.
    pub fn active_voice_count(&self) -> (count: usize)
        ensures
            count == self.spec_voices().len(),
    {
        self.active_voices.len()
    }
}

/// A vector of `len` copies of `value`.
fn filled<S: Copy>(value: S, len: usize) -> (v: Vec<S>)
    ensures
        v@.len() == len,
        forall|i: int| 0 <= i < len ==> #[trigger] v@[i] == value,
{
    let mut v: Vec<S> = Vec::new();
    let mut i: usize = 0;
    while i < len
        invariant
            i <= len,
            v@.len() == i,
            forall|k: int| 0 <= k < i ==> #[trigger] v@[k] == value,
        decreases len - i,
    {
        v.push(value);
        i = i + 1;
    }
    v
}

/// The id the engine hands to the next voice is not in use, as long as the
/// voice id counter has not saturated.
pub proof fn law_next_voice_id_is_fresh<S: Copy, C: ConvolutionBackend<S>, O: SampleOps<S>>(
    engine: AuralizationEngine<S, C, O>,
)
    requires
        engine.wf(),
        engine.spec_next_voice_id() < u64::MAX,
    ensures
        !has_voice(engine.spec_voices(), engine.spec_next_voice_id()),
{
    if has_voice(engine.spec_voices(), engine.spec_next_voice_id()) {
        let k = voice_index(engine.spec_voices(), engine.spec_next_voice_id());
        assert(engine.spec_voices()[k].id < engine.spec_next_voice_id());
    }
}

/// Stopping a voice leaves no voice with its id, and every voice with
/// another id stays.
pub proof fn law_stopped_voice_is_gone<S, V>(voices: Seq<Voice<S, V>>, id: VoiceId, other: VoiceId)
    requires
        forall|a: int, b: int| 0 <= a < b < voices.len() ==> voices[a].id != voices[b].id,
        other != id,
    ensures
        !has_voice(without_voice(voices, id), id),
        has_voice(without_voice(voices, id), other) == has_voice(voices, other),
{
    let rest = without_voice(voices, id);
    if has_voice(voices, id) {
        let k = voice_index(voices, id);
        if has_voice(rest, id) {
            let j = voice_index(rest, id);
            let source_index = if j < k { j } else { j + 1 };
            assert(rest[j] == voices[source_index]);
            if source_index < k {
                assert(voices[source_index].id != voices[k].id);
            } else {
                assert(voices[k].id != voices[source_index].id);
            }
        }
        if has_voice(voices, other) {
            let o = voice_index(voices, other);
            let j = if o < k { o } else { o - 1 };
            assert(rest[j] == voices[o]);
        }
        if has_voice(rest, other) {
            let j = voice_index(rest, other);
            let source_index = if j < k { j } else { j + 1 };
            assert(rest[j] == voices[source_index]);
        }
    }
}

/// Position of the voice with id `voice_id`, if any.
fn find_voice<S, V>(voices: &Vec<Voice<S, V>>, voice_id: VoiceId) -> (found: Option<usize>)
    ensures
        match found {
            Some(i) => i < voices@.len() && voices@[i as int].id == voice_id,
            None => !has_voice(voices@, voice_id),
        },
{
    let mut i: usize = 0;
    while i < voices.len()
        invariant
            i <= voices@.len(),
            forall|k: int| 0 <= k < i ==> (#[trigger] voices@[k]).id != voice_id,
        decreases voices@.len() - i,
    {
        if voices[i].id == voice_id {
            return Some(i);
        }
        i = i + 1;
    }
    None
}

/// With distinct ids, the voice found at `i` is the one `voice_index` names.
proof fn lemma_found_voice_is_indexed<S, V>(voices: Seq<Voice<S, V>>, voice_id: VoiceId, i: int)
    requires
        0 <= i < voices.len(),
        voices[i].id == voice_id,
        forall|a: int, b: int| 0 <= a < b < voices.len() ==> voices[a].id != voices[b].id,
    ensures
        has_voice(voices, voice_id),
        voice_index(voices, voice_id) == i,
{
    assert(has_voice(voices, voice_id));
    let c = voice_index(voices, voice_id);
    if c < i {
        assert(voices[c].id != voices[i].id);
    } else if i < c {
        assert(voices[i].id != voices[c].id);
    }
}

/// Positions in `items` of the entries that `kept` keeps, in increasing order.
proof fn lemma_kept_positions<T>(items: Seq<T>, keep: Seq<bool>) -> (positions: Seq<int>)
    requires
        keep.len() == items.len(),
    ensures
        positions.len() == kept(items, keep).len(),
        forall|a: int| 0 <= a < positions.len() ==>
            0 <= #[trigger] positions[a] < items.len() && kept(items, keep)[a] == items[positions[a]],
        forall|a: int, b: int| 0 <= a < b < positions.len() ==> positions[a] < positions[b],
    decreases items.len(),
{
    if items.len() == 0 {
        Seq::empty()
    } else {
        let rest = lemma_kept_positions(items.drop_last(), keep.drop_last());
        if keep.last() {
            let positions = rest.push(items.len() - 1);
            assert forall|a: int| 0 <= a < positions.len() implies
                0 <= #[trigger] positions[a] < items.len() && kept(items, keep)[a] == items[positions[a]] by {
                if a < rest.len() {
                    assert(positions[a] == rest[a]);
                    assert(items.drop_last()[rest[a]] == items[rest[a]]);
                }
            }
            positions
        } else {
            assert forall|a: int| 0 <= a < rest.len() implies
                0 <= #[trigger] rest[a] < items.len() && kept(items, keep)[a] == items[rest[a]] by {
                assert(items.drop_last()[rest[a]] == items[rest[a]]);
            }
            rest
        }
    }
}

/// Keeping one more entry extends the kept list by it; dropping it leaves
/// the kept list as it was.
proof fn lemma_kept_push<T>(items: Seq<T>, keep: Seq<bool>, item: T, flag: bool)
    requires
        keep.len() == items.len(),
    ensures
        kept(items.push(item), keep.push(flag)) == if flag { kept(items, keep).push(item) } else { kept(items, keep) },
{
    assert(items.push(item).drop_last() =~= items);
    assert(keep.push(flag).drop_last() =~= keep);
}

/// Sets every sample of `samples` to `value`.
fn fill_with<S: Copy>(samples: &mut [S], value: S)
    ensures
        final(samples)@.len() == old(samples)@.len(),
        forall|i: int| 0 <= i < final(samples)@.len() ==> #[trigger] final(samples)@[i] == value,
{
    let mut i: usize = 0;
    while i < samples.len()
        invariant
            samples@.len() == old(samples)@.len(),
            i <= samples@.len(),
            forall|k: int| 0 <= k < i ==> #[trigger] samples@[k] == value,
        decreases samples@.len() - i,
    {
        samples[i] = value;
        i = i + 1;
    }
}

/// Mixes `wet` into `output` sample by sample with `ops` over the shorter
/// of the two; samples past the end of `wet` are left as they were.
fn mix_into<S: Copy, O: SampleOps<S>>(ops: &O, output: &mut [S], wet: &[S])
    ensures
        final(output)@ == mixed_block(*ops, old(output)@, wet@),
{
    let mut i: usize = 0;
    while i < output.len() && i < wet.len()
        invariant
            output@.len() == old(output)@.len(),
            i <= output@.len(),
            i <= wet@.len(),
            forall|k: int| 0 <= k < i ==> #[trigger] output@[k] == ops.spec_mix(old(output)@[k], wet@[k]),
            forall|k: int| i <= k < old(output)@.len() ==> #[trigger] output@[k] == old(output)@[k],
        decreases output@.len() - i,
    {
        let mixed = ops.mix(output[i], wet[i]);
        output[i] = mixed;
        i = i + 1;
    }
    assert(output@ =~= mixed_block(*ops, old(output)@, wet@));
}

/// Renders one voice into `output`: a playing voice convolves its next dry
/// block, a flushing one drains its tail. Returns whether the voice stays.
fn render_voice<S: Copy, C: ConvolutionBackend<S>, O: SampleOps<S>>(
    voice: &mut Voice<S, C::VoiceConvolution>,
    bank: &SoundBank<SoundAsset<S>>,
    convolver: &C,
    ops: &O,
    silence: S,
    dry: &mut Vec<S>,
    wet: &mut Vec<S>,
    output: &mut [S],
) -> (result: SoundResult<bool>)
    ensures
        final(dry)@.len() == old(dry)@.len(),
        final(output)@.len() == old(output)@.len(),
        final(voice).id == old(voice).id,
        result is Ok ==> voice_header(*final(voice))
            == advanced_header(*old(voice), asset_len(*bank, old(voice).sound_id), old(dry)@.len()),
        result is Ok && old(voice).state == VoiceState::Playing ==>
            bank.spec_assets().contains_key(old(voice).sound_id) && result->Ok_0,
        old(voice).state == VoiceState::Playing && !bank.spec_assets().contains_key(old(voice).sound_id)
            ==> result is Err && *final(voice) == *old(voice),
        final(voice).sound_id == old(voice).sound_id,
        final(voice).gain == old(voice).gain,
        old(voice).state == VoiceState::Playing && bank.spec_assets().contains_key(old(voice).sound_id) ==> {
            &&& final(voice).cursor == old(voice).cursor
                + frames_taken(asset_len(*bank, old(voice).sound_id), old(voice).cursor as nat, old(dry)@.len())
            &&& result is Err ==> final(voice).state == VoiceState::Playing
        },
        old(voice).state == VoiceState::FlushingTail ==> voice_header(*final(voice)) == voice_header(*old(voice)),
        result is Err ==> final(output)@ == old(output)@,
        result matches Ok(false) ==> final(output)@ == old(output)@,
        result matches Ok(true) ==> final(output)@ == mixed_block(*ops, old(output)@, final(wet)@),
        result matches Ok(keep) ==> keep == (old(voice).state == VoiceState::Playing
            || convolver.spec_tail_pending(old(voice).convolution)),
        result is Ok && old(voice).state == VoiceState::Playing ==> convolver.spec_last_input(final(voice).convolution)
            == voice_dry_block(*ops, *old(voice), *bank, old(dry)@.len(), silence),
        result matches Ok(true) && old(voice).state == VoiceState::FlushingTail ==> {
            &&& final(voice).convolution == convolver.spec_flushed(old(voice).convolution)
            &&& final(wet)@ == convolver.spec_flush_block(old(voice).convolution)
        },
{
    fill_with(wet.as_mut_slice(), silence);
    match voice.state {
        VoiceState::Playing => {
            let asset = bank.get(voice.sound_id)?;
            let gain = voice.gain;
            let ghost start = *voice;
            let apply_gain = |sample: S| -> (scaled: S)
                ensures
                    scaled == ops.spec_scale(sample, gain),
                { ops.scale(sample, gain) };
            render_asset_samples(asset, &mut voice.cursor, dry.as_mut_slice(), silence, apply_gain);
            proof {
                let expected = voice_dry_block(*ops, start, *bank, old(dry)@.len(), silence);
                let samples = asset.spec_samples();
                let taken = frames_taken(samples.len(), start.cursor as nat, old(dry)@.len());
                assert forall|i: int| 0 <= i < dry@.len() implies #[trigger] dry@[i] == expected[i] by {
                    if i < taken {
                        assert(call_ensures(apply_gain, (samples[start.cursor + i],), dry@[i]));
                    }
                }
                assert(dry@ =~= expected);
            }
            convolver.process_block(&mut voice.convolution, dry.as_slice(), wet.as_mut_slice())?;
            voice.state = state_after_block(voice.cursor, asset.len());
            mix_into(ops, output, wet.as_slice());
            Ok(true)
        }
        VoiceState::FlushingTail => {
            let more = convolver.flush_tail_block(&mut voice.convolution, wet.as_mut_slice())?;
            if more {
                mix_into(ops, output, wet.as_slice());
            }
            Ok(more)
        }
    }
}

/// Renders every voice in order into `output`. On success returns the
/// voices that stay; on an error, every voice (those rendered so far
/// already advanced) with the error.
fn render_voices<S: Copy, C: ConvolutionBackend<S>, O: SampleOps<S>>(
    voices: Vec<Voice<S, C::VoiceConvolution>>,
    bank: &SoundBank<SoundAsset<S>>,
    convolver: &C,
    ops: &O,
    silence: S,
    dry: &mut Vec<S>,
    wet: &mut Vec<S>,
    output: &mut [S],
) -> (rendered: (Vec<Voice<S, C::VoiceConvolution>>, SoundResult<()>))
    ensures
        final(dry)@.len() == old(dry)@.len(),
        final(output)@.len() == old(output)@.len(),
        voices@.len() == 0 ==> rendered.1 is Ok && final(output)@ == old(output)@,
        !playing_sounds_present(voices@, *bank) ==> rendered.1 is Err,
        rendered.1 is Err ==> voice_ids(rendered.0@) == voice_ids(voices@),
        rendered.1 is Ok ==> {
            &&& playing_sounds_present(voices@, *bank)
            &&& exists|keep: Seq<bool>, wets: Seq<Seq<S>>, all: Seq<Voice<S, C::VoiceConvolution>>| {
                &&& keep.len() == voices@.len()
                &&& wets.len() == voices@.len()
                &&& all.len() == voices@.len()
                &&& forall|i: int| 0 <= i < keep.len() ==> #[trigger] keep[i]
                    == (voices@[i].state == VoiceState::Playing || convolver.spec_tail_pending(voices@[i].convolution))
                &&& voice_headers(rendered.0@) == #[trigger] kept(advanced_headers(voices@, *bank, old(dry)@.len()), keep)
                &&& final(output)@ == mixed_blocks(*ops, old(output)@, #[trigger] kept(wets, keep))
                &&& rendered.0@ == #[trigger] kept(all, keep)
                &&& forall|i: int| 0 <= i < all.len() && voices@[i].state == VoiceState::Playing ==>
                    convolver.spec_last_input(#[trigger] all[i].convolution)
                        == voice_dry_block(*ops, voices@[i], *bank, old(dry)@.len(), silence)
                &&& forall|i: int| 0 <= i < all.len() && voices@[i].state == VoiceState::FlushingTail && keep[i]
                    ==> #[trigger] wets[i] == convolver.spec_flush_block(voices@[i].convolution)
                &&& forall|i: int| 0 <= i < all.len() && voices@[i].state == VoiceState::FlushingTail && keep[i]
                    ==> (#[trigger] all[i]).convolution == convolver.spec_flushed(voices@[i].convolution)
            }
        },
{
    let ghost entry_voices = voices@;
    let ghost block_len = dry@.len();
    let mut pending = voices;
    let mut processed: Vec<Voice<S, C::VoiceConvolution>> = Vec::new();
    let mut keep_flags: Vec<bool> = Vec::new();
    let ghost mut wets: Seq<Seq<S>> = Seq::empty();
    while pending.len() > 0
        invariant
            processed@.len() == keep_flags@.len(),
            wets.len() == keep_flags@.len(),
            output@ == mixed_blocks(*ops, old(output)@, kept(wets, keep_flags@)),
            forall|k: int| 0 <= k < keep_flags@.len() ==> #[trigger] keep_flags@[k]
                == (entry_voices[k].state == VoiceState::Playing || convolver.spec_tail_pending(entry_voices[k].convolution)),
            processed@.len() + pending@.len() == entry_voices.len(),
            pending@ == entry_voices.subrange(processed@.len() as int, entry_voices.len() as int),
            voice_headers(processed@) == advanced_headers(entry_voices.take(processed@.len() as int), *bank, block_len),
            forall|k: int| 0 <= k < keep_flags@.len() && !keep_flags@[k]
                ==> #[trigger] entry_voices[k].state == VoiceState::FlushingTail,
            forall|k: int| 0 <= k < processed@.len() && (#[trigger] entry_voices[k]).state == VoiceState::Playing
                ==> bank.spec_assets().contains_key(entry_voices[k].sound_id),
            forall|k: int| 0 <= k < processed@.len() && entry_voices[k].state == VoiceState::Playing ==>
                convolver.spec_last_input(#[trigger] processed@[k].convolution)
                    == voice_dry_block(*ops, entry_voices[k], *bank, block_len, silence),
            forall|k: int| 0 <= k < processed@.len() && entry_voices[k].state == VoiceState::FlushingTail
                && keep_flags@[k] ==> #[trigger] wets[k] == convolver.spec_flush_block(entry_voices[k].convolution),
            forall|k: int| 0 <= k < processed@.len() && entry_voices[k].state == VoiceState::FlushingTail
                && keep_flags@[k] ==> (#[trigger] processed@[k]).convolution
                    == convolver.spec_flushed(entry_voices[k].convolution),
            dry@.len() == block_len,
            block_len == old(dry)@.len(),
            entry_voices == voices@,
            output@.len() == old(output)@.len(),
            entry_voices.len() == 0 ==> output@ == old(output)@,
        decreases pending@.len(),
    {
        let ghost done = processed@.len() as int;
        let mut voice = pending.remove(0);
        assert(voice == entry_voices[done]);
        let step = render_voice(&mut voice, bank, convolver, ops, silence, dry, wet, output);
        match step {
            Ok(keep) => {
                let ghost before = processed@;
                let ghost flags_before = keep_flags@;
                let ghost wets_before = wets;
                processed.push(voice);
                keep_flags.push(keep);
                proof {
                    wets = wets.push(wet@);
                    lemma_kept_push(wets_before, flags_before, wet@, keep);
                    assert(keep_flags@ =~= flags_before.push(keep));
                    if keep {
                        let before_kept = kept(wets_before, flags_before);
                        assert(before_kept.push(wet@).drop_last() =~= before_kept);
                    }
                    assert(entry_voices.take(done + 1) =~= entry_voices.take(done).push(entry_voices[done]));
                    assert(voice_headers(processed@) =~= voice_headers(before).push(voice_header(voice)));
                    assert(advanced_headers(entry_voices.take(done + 1), *bank, block_len) =~=
                        advanced_headers(entry_voices.take(done), *bank, block_len).push(
                            advanced_header(entry_voices[done], asset_len(*bank, entry_voices[done].sound_id), block_len)));
                    assert(pending@ =~= entry_voices.subrange(done + 1, entry_voices.len() as int));
                    assert forall|k: int| 0 <= k < processed@.len() && entry_voices[k].state == VoiceState::FlushingTail
                        && keep_flags@[k] implies #[trigger] wets[k] == convolver.spec_flush_block(entry_voices[k].convolution)
                        && processed@[k].convolution == convolver.spec_flushed(entry_voices[k].convolution) by {
                        if k < done {
                            assert(wets[k] == wets_before[k]);
                            assert(processed@[k] == before[k]);
                            assert(keep_flags@[k] == flags_before[k]);
                        }
                    }
                }
            }
            Err(e) => {
                let ghost before = processed@;
                processed.push(voice);
                processed.append(&mut pending);
                proof {
                    assert forall|a: int| 0 <= a < entry_voices.len() implies
                        #[trigger] voice_ids(processed@)[a] == voice_ids(entry_voices)[a] by {
                        if a < done {
                            assert(processed@[a] == before[a]);
                            assert(voice_headers(before)[a] == advanced_headers(entry_voices.take(done), *bank, block_len)[a]);
                        } else if a > done {
                            assert(processed@[a] == entry_voices[a]);
                        }
                    }
                    assert(voice_ids(processed@) =~= voice_ids(entry_voices));
                }
                return (processed, Err(e));
            }
        }
    }
    proof {
        assert(entry_voices.take(entry_voices.len() as int) =~= entry_voices);
    }
    let ghost all = processed@;
    let ghost flags = keep_flags@;
    let mut remaining = processed;
    let mut staying: Vec<Voice<S, C::VoiceConvolution>> = Vec::new();
    let mut j: usize = 0;
    while j < keep_flags.len()
        invariant
            all.len() == flags.len(),
            keep_flags@ == flags,
            j <= flags.len(),
            remaining@ == all.subrange(j as int, all.len() as int),
            voice_headers(staying@) == kept(voice_headers(all).take(j as int), flags.take(j as int)),
            staying@ == kept(all.take(j as int), flags.take(j as int)),
        decreases flags.len() - j,
    {
        let voice = remaining.remove(0);
        assert(voice == all[j as int]);
        let ghost before = staying@;
        proof {
            lemma_kept_push(all.take(j as int), flags.take(j as int), voice, flags[j as int]);
            assert(all.take(j + 1) =~= all.take(j as int).push(voice));
            lemma_kept_push(voice_headers(all).take(j as int), flags.take(j as int), voice_header(voice), flags[j as int]);
            assert(voice_headers(all).take(j + 1) =~= voice_headers(all).take(j as int).push(voice_header(voice)));
            assert(flags.take(j + 1) =~= flags.take(j as int).push(flags[j as int]));
        }
        if keep_flags[j] {
            staying.push(voice);
            assert(voice_headers(staying@) =~= voice_headers(before).push(voice_header(voice)));
        }
        proof {
            assert(remaining@ =~= all.subrange(j + 1, all.len() as int));
        }
        j = j + 1;
    }
    proof {
        assert(voice_headers(all).take(flags.len() as int) =~= voice_headers(all));
        assert(all.take(flags.len() as int) =~= all);
        assert(flags.take(flags.len() as int) =~= flags);
        assert(voice_headers(staying@) == kept(advanced_headers(entry_voices, *bank, block_len), flags));
        assert(output@ == mixed_blocks(*ops, old(output)@, kept(wets, flags)));
    }
    (staying, Ok(()))
}

} // verus!
