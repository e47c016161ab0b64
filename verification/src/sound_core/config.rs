use vstd::prelude::*;

verus! {

/// Runtime configuration for sound generation and impulse response construction.
#[derive(Debug, Clone, Copy)]
pub struct SoundConfig {
    /// Channels used for output audio generation.
    pub output_channels: OutputChannels,
    /// Sample rate for sound generation and IR construction.
    pub sample_rate: u32,
    /// Number of samples in each generated impulse response.
    pub ir_num_samples: u32,
}

/// Output channel layout used by the auralization engine.
#[derive(Debug, Clone, Copy, PartialEq, Eq, Structural)]
pub enum OutputChannels {
    /// Mono output.
    Mono,
    /// Two-channel stereo output.
    Stereo,
    /// Two-channel binaural output.
    Binaural,
}

impl OutputChannels {
    /// Number of interleaved samples per frame for this layout.
    pub open spec fn spec_count(self) -> nat {
        match self {
            OutputChannels::Mono => 1,
            OutputChannels::Stereo => 2,
            OutputChannels::Binaural => 2,
        }
    }

    /// Returns the number of interleaved output channels.
    pub fn count(self) -> (count: usize)
        ensures
            count == self.spec_count(),
    {
        match self {
            OutputChannels::Mono => 1,
            OutputChannels::Stereo | OutputChannels::Binaural => 2,
        }
    }
}

/// Runtime configuration for the auralization engine.
#[derive(Debug, Clone, Copy)]
pub struct AuralizationConfig {
    /// Number of audio frames processed per callback block.
    pub block_size: usize,
}

} // verus!
