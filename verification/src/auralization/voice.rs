use vstd::prelude::*;
use crate::auralization::assets::SoundId;
use crate::auralization::engine::{VoiceId, VoiceState};

verus! {

/// Runtime state for one active sound voice: its dry playback cursor, gain
/// and phase, and the convolver's per-voice state.
pub struct Voice<S, V> {
    /// Unique id assigned by the auralization engine.
    pub id: VoiceId,
    /// Dry sound asset rendered by this voice.
    pub sound_id: SoundId,
    /// Current dry sample cursor within the asset.
    pub cursor: usize,
    /// Linear dry gain applied before convolution.
    pub gain: S,
    /// High-level playback phase.
    pub state: VoiceState,
    /// Per-voice overlap and scratch state used by the convolver.
    pub convolution: V,
}

impl<S, V> Voice<S, V> {
    /// Creates a voice with playback starting at the beginning of the asset.
    pub fn new(id: VoiceId, sound_id: SoundId, gain: S, convolution: V) -> (voice: Self)
        ensures
            voice.id == id,
            voice.sound_id == sound_id,
            voice.cursor == 0,
            voice.gain == gain,
            voice.state == VoiceState::Playing,
            voice.convolution == convolution,
    {
        Voice { id, sound_id, cursor: 0, gain, state: VoiceState::Playing, convolution }
    }

    /// Returns the unique id assigned to this voice.
    pub fn id(&self) -> (id: VoiceId)
        ensures
            id == self.id,
    {
        self.id
    }
}

} // verus!
