use vstd::prelude::*;
use std::collections::HashMap;
use crate::sound_core::error::{ErrorCode, SoundError, SoundResult};

verus! {

/// Identifier for a playable dry sound asset.
pub type SoundId = u64;

/// Checks that a sample rate is non-zero.
pub fn validate_sample_rate(sample_rate: u32) -> (result: SoundResult<()>)
    ensures
        result is Ok <==> sample_rate > 0,
        result is Err ==> result->Err_0@.code == ErrorCode::InvalidArgument,
{
    if sample_rate == 0 {
        return Err(SoundError::invalid_argument("sample_rate must be > 0"));
    }
    Ok(())
}

/// Whether interleaved input can be mixed down and resampled: both rates
/// non-zero, at least one channel, and whole frames only.
pub open spec fn interleaved_layout_ok(source_sample_rate: u32, channels: u16, sample_count: nat, target_sample_rate: u32) -> bool {
    &&& source_sample_rate > 0
    &&& target_sample_rate > 0
    &&& channels > 0
    &&& sample_count % (channels as nat) == 0
}

/// Checks interleaved input before it is mixed to mono and resampled.
pub fn validate_interleaved_layout(
    source_sample_rate: u32,
    channels: u16,
    sample_count: usize,
    target_sample_rate: u32,
) -> (result: SoundResult<()>)
    ensures
        result is Ok <==> interleaved_layout_ok(source_sample_rate, channels, sample_count as nat, target_sample_rate),
        result is Err ==> result->Err_0@.code == ErrorCode::InvalidArgument,
{
    validate_sample_rate(source_sample_rate)?;
    validate_sample_rate(target_sample_rate)?;
    if channels == 0 {
        return Err(SoundError::invalid_argument("channel count must be > 0"));
    }
    if sample_count % channels as usize != 0 {
        return Err(SoundError::invalid_argument(
            "interleaved sample count must be divisible by channel count",
        ));
    }
    Ok(())
}

/// Decoded mono sound data stored at the engine sample rate.
#[derive(Debug, Clone)]
pub struct SoundAsset<S> {
    sample_rate: u32,
    samples: Vec<S>,
}

impl<S> SoundAsset<S> {
    pub closed spec fn spec_sample_rate(&self) -> u32 {
        self.sample_rate
    }

    pub closed spec fn spec_samples(&self) -> Seq<S> {
        self.samples@
    }

    /// Creates an asset from mono samples at the engine sample rate.
    pub fn from_mono_samples(sample_rate: u32, samples: Vec<S>) -> (result: SoundResult<Self>)
        ensures
            result is Ok <==> sample_rate > 0,
            result is Err ==> result->Err_0@.code == ErrorCode::InvalidArgument,
            result matches Ok(asset) ==> asset.spec_sample_rate() == sample_rate && asset.spec_samples() == samples@,
    {
        validate_sample_rate(sample_rate)?;
        Ok(SoundAsset { sample_rate, samples })
    }

    /// Returns the asset sample rate in Hz.
    pub fn sample_rate(&self) -> (sample_rate: u32)
        ensures
            sample_rate == self.spec_sample_rate(),
    {
        self.sample_rate
    }

    /// Returns the mono sample data.
    pub fn samples(&self) -> (samples: &[S])
        ensures
            samples@ == self.spec_samples(),
    {
        self.samples.as_slice()
    }

    /// Returns the number of mono frames in the asset.
    pub fn len(&self) -> (len: usize)
        ensures
            len == self.spec_samples().len(),
    {
        self.samples.len()
    }

    /// Returns whether the asset contains no samples.
    pub fn is_empty(&self) -> (empty: bool)
        ensures
            empty == (self.spec_samples().len() == 0),
    {
        self.samples.len() == 0
    }
}

/// In-memory registry of dry sound assets.
///
/// Each inserted asset gets the next id, starting at 1; ids are never
/// reused while the counter has not saturated.
pub struct SoundBank<A> {
    next_id: SoundId,
    assets: HashMap<SoundId, A>,
}

impl<A> SoundBank<A> {
    /// The id that the next inserted asset receives.
    pub closed spec fn spec_next_id(&self) -> SoundId {
        self.next_id
    }

    /// The registered assets by id.
    pub closed spec fn spec_assets(&self) -> Map<SoundId, A> {
        self.assets@
    }

    /// Finitely many assets, every registered id below the next id, unless
    /// the counter saturated.
    pub open spec fn wf(&self) -> bool {
        &&& self.spec_next_id() >= 1
        &&& self.spec_assets().dom().finite()
        &&& forall|id: SoundId| #[trigger] self.spec_assets().contains_key(id)
            ==> (id < self.spec_next_id() || self.spec_next_id() == u64::MAX)
    }

    /// Creates an empty sound bank.
    pub fn new() -> (bank: Self)
        ensures
            bank.wf(),
            bank.spec_next_id() == 1,
            bank.spec_assets() == Map::<SoundId, A>::empty(),
    {
        SoundBank { next_id: 1, assets: HashMap::new() }
    }

    /// Inserts an already decoded asset and returns its generated id.
    pub fn insert(&mut self, asset: A) -> (id: SoundId)
        requires
            old(self).wf(),
        ensures
            final(self).wf(),
            id == old(self).spec_next_id(),
            final(self).spec_next_id() == if id == u64::MAX { u64::MAX } else { (id + 1) as u64 },
            final(self).spec_assets() == old(self).spec_assets().insert(id, asset),
            id < u64::MAX ==> final(self).spec_assets().len() == old(self).spec_assets().len() + 1,
    {
        let id = self.next_id;
        self.next_id = self.next_id.saturating_add(1);
        self.assets.insert(id, asset);
        assert forall|k: SoundId| #[trigger] self.assets@.contains_key(k)
            implies (k < self.next_id || self.next_id == u64::MAX) by {
            if k != id {
                assert(old(self).spec_assets().contains_key(k));
            }
        }
        id
    }

    /// Returns an asset by id, or `NotFound` for an unknown id.
    pub fn get(&self, id: SoundId) -> (result: SoundResult<&A>)
        ensures
            result is Ok <==> self.spec_assets().contains_key(id),
            result is Err ==> result->Err_0@.code == ErrorCode::NotFound,
            result matches Ok(asset) ==> *asset == self.spec_assets()[id],
    {
        match self.assets.get(&id) {
            Some(asset) => Ok(asset),
            None => Err(SoundError::not_found("Unknown sound id")),
        }
    }

    /// Removes an asset from the bank.
    pub fn remove(&mut self, id: SoundId) -> (removed: Option<A>)
        requires
            old(self).wf(),
        ensures
            final(self).wf(),
            final(self).spec_next_id() == old(self).spec_next_id(),
            final(self).spec_assets() == old(self).spec_assets().remove(id),
            match removed {
                Some(asset) => old(self).spec_assets().contains_key(id) && asset == old(self).spec_assets()[id],
                None => !old(self).spec_assets().contains_key(id),
            },
    {
        let removed = self.assets.remove(&id);
        assert forall|k: SoundId| #[trigger] self.assets@.contains_key(k)
            implies (k < self.next_id || self.next_id == u64::MAX) by {
            assert(old(self).spec_assets().contains_key(k));
        }
        removed
    }

    /// Returns the number of assets in the bank.
    pub fn len(&self) -> (len: usize)
        ensures
            len == self.spec_assets().len(),
    {
        self.assets.len()
    }

    /// Returns whether the bank contains no assets.
    pub fn is_empty(&self) -> (empty: bool)
        ensures
            empty == (self.spec_assets().len() == 0),
    {
        self.assets.is_empty()
    }
}

/// The id that the bank hands out next is not taken, as long as the id
/// counter has not saturated: inserted assets never replace one another.
pub proof fn law_next_sound_id_is_fresh<A>(bank: SoundBank<A>)
    requires
        bank.wf(),
        bank.spec_next_id() < u64::MAX,
    ensures
        !bank.spec_assets().contains_key(bank.spec_next_id()),
{
}

/// Sample encodings the WAV reader decodes.
#[derive(Debug, Clone, Copy, PartialEq, Eq, Structural)]
pub enum WavSampleKind {
    /// 32-bit float samples.
    Float32,
    /// 16-bit integer samples.
    Int16,
    /// 24-bit integer samples.
    Int24,
    /// 32-bit integer samples.
    Int32,
}

/// The encoding of a WAV file's samples from its sample format (float or
/// integer) and bit depth; other combinations are `UnsupportedFeature`.
pub fn wav_sample_kind(is_float: bool, bits_per_sample: u16) -> (result: SoundResult<WavSampleKind>)
    ensures
        result is Ok <==> (if is_float { bits_per_sample == 32 } else {
            bits_per_sample == 16 || bits_per_sample == 24 || bits_per_sample == 32 }),
        result is Err ==> result->Err_0@.code == ErrorCode::UnsupportedFeature,
        result matches Ok(kind) ==> kind == if is_float {
            WavSampleKind::Float32
        } else if bits_per_sample == 16 {
            WavSampleKind::Int16
        } else if bits_per_sample == 24 {
            WavSampleKind::Int24
        } else {
            WavSampleKind::Int32
        },
{
    if is_float {
        if bits_per_sample == 32 {
            return Ok(WavSampleKind::Float32);
        }
    } else if bits_per_sample == 16 {
        return Ok(WavSampleKind::Int16);
    } else if bits_per_sample == 24 {
        return Ok(WavSampleKind::Int24);
    } else if bits_per_sample == 32 {
        return Ok(WavSampleKind::Int32);
    }
    Err(SoundError::unsupported_feature("Unsupported WAV format"))
}

} // verus!
