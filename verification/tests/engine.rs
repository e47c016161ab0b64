use sound_engine::auralization::assets::SoundAsset;
use sound_engine::auralization::convolver::ConvolutionBackend;
use sound_engine::auralization::engine::{AuralizationEngine, PlaySoundRequest, SampleOps, SaturatingOps};
use sound_engine::auralization::partitioned::{PartitionedConvolver, SpectralTransform};
use sound_engine::sound_core::config::{AuralizationConfig, OutputChannels, SoundConfig};
use sound_engine::engine::{play_with_impulse_response, SoundEngine, StartOutcome};
use sound_engine::sound_core::error::{ErrorCode, SoundError, SoundResult};

/// Plain `f32` arithmetic.
struct FloatOps;

impl SampleOps<f32> for FloatOps {
    fn spec_scale(&self, sample: f32, gain: f32) -> f32 {
        sample * gain
    }
    fn spec_mix(&self, accumulated: f32, wet: f32) -> f32 {
        accumulated + wet
    }
    fn spec_is_finite(&self, value: f32) -> bool {
        value.is_finite()
    }
    fn scale(&self, sample: f32, gain: f32) -> f32 {
        sample * gain
    }
    fn mix(&self, accumulated: f32, wet: f32) -> f32 {
        accumulated + wet
    }
    fn is_finite(&self, value: f32) -> bool {
        value.is_finite()
    }
}

type Engine = AuralizationEngine<f32, PartitionedConvolver<f32, FloatOps, DirectTransform>, FloatOps>;

/// An engine with stereo output whose impulse responses hold up to
/// `ir_num_samples` frames.
fn engine(block_size: usize, ir_num_samples: u32) -> Engine {
    let sound = SoundConfig { output_channels: OutputChannels::Stereo, sample_rate: 48_000, ir_num_samples };
    AuralizationEngine::new(partitioned(block_size, ir_num_samples), FloatOps, sound, AuralizationConfig { block_size }, 0.0)
        .unwrap()
}

#[test]
fn engine_rejects_zero_block_size() {
    let sound = SoundConfig { output_channels: OutputChannels::Stereo, sample_rate: 48_000, ir_num_samples: 1 };
    let result = AuralizationEngine::new(partitioned(2, 1), FloatOps, sound, AuralizationConfig { block_size: 0 }, 0.0);
    assert_eq!(result.err().unwrap().code(), ErrorCode::InvalidArgument);
}

#[test]
fn engine_reports_its_configuration() {
    let engine = engine(4, 1);
    assert_eq!(engine.sample_rate(), 48_000);
    assert_eq!(engine.block_size(), 4);
    assert_eq!(engine.output_channels(), 2);
    assert!(engine.sound_bank().is_empty());
    assert!(!engine.has_active_voices());
}

#[test]
fn inserted_sounds_must_match_the_engine_rate() {
    let mut engine = engine(4, 1);
    let wrong = SoundAsset::from_mono_samples(44_100, vec![1.0]).unwrap();
    assert_eq!(engine.insert_sound(wrong).unwrap_err().code(), ErrorCode::InvalidArgument);
    let right = SoundAsset::from_mono_samples(48_000, vec![1.0]).unwrap();
    assert_eq!(engine.insert_sound(right).unwrap(), 1);
    assert_eq!(engine.sound_bank().len(), 1);
}

#[test]
fn play_requests_are_checked() {
    let mut engine = engine(4, 1);
    let sound = engine.insert_sound(SoundAsset::from_mono_samples(48_000, vec![1.0]).unwrap()).unwrap();
    let empty = engine.insert_sound(SoundAsset::from_mono_samples(48_000, Vec::new()).unwrap()).unwrap();
    engine.register_impulse_response(7, &[[1.0, 1.0]]).unwrap();

    let unknown_sound = engine.play_sound(PlaySoundRequest::new(99, 7, 1.0)).unwrap_err();
    assert_eq!(unknown_sound.code(), ErrorCode::NotFound);
    let unknown_ir = engine.play_sound(PlaySoundRequest::new(sound, 8, 1.0)).unwrap_err();
    assert_eq!(unknown_ir.code(), ErrorCode::NotFound);
    let empty_asset = engine.play_sound(PlaySoundRequest::new(empty, 7, 1.0)).unwrap_err();
    assert_eq!(empty_asset.code(), ErrorCode::InvalidArgument);
    let bad_gain = engine.play_sound(PlaySoundRequest { sound_id: sound, impulse_response_id: 7, gain: f32::NAN }).unwrap_err();
    assert_eq!(bad_gain.code(), ErrorCode::InvalidArgument);
    assert_eq!(engine.active_voice_count(), 0);

    assert_eq!(engine.play_sound(PlaySoundRequest::new(sound, 7, 1.0)).unwrap(), 1);
    assert_eq!(engine.play_sound(PlaySoundRequest::new(sound, 7, 1.0)).unwrap(), 2);
    assert_eq!(engine.active_voice_count(), 2);
}

#[test]
fn impulse_response_registration_is_checked_and_forgettable() {
    let mut engine = engine(4, 1);
    let sound = engine.insert_sound(SoundAsset::from_mono_samples(48_000, vec![1.0]).unwrap()).unwrap();
    assert_eq!(engine.register_impulse_response(1, &[]).unwrap_err().code(), ErrorCode::InvalidArgument);
    engine.register_impulse_response(1, &[[0.5, 0.5]]).unwrap();
    let voice = engine.play_sound(PlaySoundRequest::new(sound, 1, 1.0)).unwrap();
    engine.forget_impulse_response(1);
    assert_eq!(engine.play_sound(PlaySoundRequest::new(sound, 1, 1.0)).unwrap_err().code(), ErrorCode::NotFound);

    // The voice keeps its own convolution state after the IR is forgotten.
    let mut output = vec![9.0; 8];
    engine.render_block(&mut output).unwrap();
    assert_eq!(output, vec![0.5, 0.5, 0.0, 0.0, 0.0, 0.0, 0.0, 0.0]);
    assert_eq!(voice, 1);
}

#[test]
fn render_block_checks_the_output_length() {
    let mut engine = engine(4, 1);
    let mut output = vec![1.0; 7];
    let error = engine.render_block(&mut output).unwrap_err();
    assert_eq!(error.code(), ErrorCode::InvalidArgument);
    assert_eq!(output, vec![1.0; 7]);
}

#[test]
fn render_block_without_voices_is_silent() {
    let mut engine = engine(2, 1);
    let mut output = vec![3.0; 4];
    engine.render_block(&mut output).unwrap();
    assert_eq!(output, vec![0.0; 4]);
}

#[test]
fn voice_plays_its_asset_then_drains_its_tail() {
    let mut engine = engine(2, 2);
    let sound = engine.insert_sound(SoundAsset::from_mono_samples(48_000, vec![2.0, 4.0]).unwrap()).unwrap();
    engine.register_impulse_response(5, &[[1.0, 1.0], [1.0, 1.0]]).unwrap();
    engine.play_sound(PlaySoundRequest::new(sound, 5, 0.5)).unwrap();
    let mut output = vec![0.0; 4];

    // The gain halves the dry block to [1, 2]; convolving with [1, 1] gives [1, 3, 2].
    engine.render_block(&mut output).unwrap();
    assert_eq!(output, vec![1.0, 1.0, 3.0, 3.0]);
    // Dry samples are exhausted: the overlap tail follows, then the voice ends.
    engine.render_block(&mut output).unwrap();
    assert_eq!(output, vec![2.0, 2.0, 0.0, 0.0]);
    assert!(engine.has_active_voices());
    engine.render_block(&mut output).unwrap();
    assert_eq!(output, vec![0.0; 4]);
    assert!(!engine.has_active_voices());
}

#[test]
fn voices_are_mixed_together() {
    let mut engine = engine(2, 1);
    let sound = engine.insert_sound(SoundAsset::from_mono_samples(48_000, vec![1.0, 1.0]).unwrap()).unwrap();
    engine.register_impulse_response(1, &[[1.0, 1.0]]).unwrap();
    engine.register_impulse_response(2, &[[3.0, 3.0]]).unwrap();
    engine.play_sound(PlaySoundRequest::new(sound, 1, 1.0)).unwrap();
    engine.play_sound(PlaySoundRequest::new(sound, 2, 1.0)).unwrap();
    let mut output = vec![0.0; 4];
    engine.render_block(&mut output).unwrap();
    assert_eq!(output, vec![4.0; 4]);
}

#[test]
fn stopped_voices_stop_rendering() {
    let mut engine = engine(2, 1);
    let sound = engine.insert_sound(SoundAsset::from_mono_samples(48_000, vec![1.0; 8]).unwrap()).unwrap();
    engine.register_impulse_response(1, &[[1.0, 1.0]]).unwrap();
    let first = engine.play_sound(PlaySoundRequest::new(sound, 1, 1.0)).unwrap();
    let second = engine.play_sound(PlaySoundRequest::new(sound, 1, 2.0)).unwrap();
    engine.stop_voice(first);
    engine.stop_voice(42);
    assert_eq!(engine.active_voice_count(), 1);
    let mut output = vec![0.0; 4];
    engine.render_block(&mut output).unwrap();
    assert_eq!(output, vec![2.0; 4]);
    engine.stop_voice(second);
    assert!(!engine.has_active_voices());
}

#[test]
fn spatial_play_registers_a_fresh_impulse_response() {
    let mut engine = engine(2, 1);
    let sound = engine.insert_sound(SoundAsset::from_mono_samples(48_000, vec![1.0, 1.0]).unwrap()).unwrap();
    let mut next_ir = 1u64;

    let voice = play_with_impulse_response(&mut engine, &mut next_ir, &[[0.5, 0.5]], sound, 2.0).unwrap();
    assert_eq!(voice, 1);
    assert_eq!(next_ir, 2);

    // A failed registration still uses up its id and starts nothing.
    let error = play_with_impulse_response(&mut engine, &mut next_ir, &[], sound, 1.0).unwrap_err();
    assert_eq!(error.code(), ErrorCode::InvalidArgument);
    assert_eq!(next_ir, 3);
    assert_eq!(engine.active_voice_count(), 1);

    let missing = play_with_impulse_response(&mut engine, &mut next_ir, &[[1.0, 1.0]], 77, 1.0).unwrap_err();
    assert_eq!(missing.code(), ErrorCode::NotFound);
    assert_eq!(next_ir, 4);

    let mut output = vec![0.0; 4];
    engine.render_block(&mut output).unwrap();
    assert_eq!(output, vec![1.0; 4]);
}

/// A direct core that counts how often it was handed to a player.
#[derive(Debug, PartialEq)]
struct Core(u32);

/// A background player holding the core.
struct Runtime(Core);

#[test]
fn player_starts_from_direct_mode_only() {
    let mut engine: SoundEngine<Core, Runtime> = SoundEngine::new(Core(0));
    assert!(!engine.is_sound_player_running());

    engine.start_sound_player(|core: Core| StartOutcome::Started(Runtime(Core(core.0 + 1)))).unwrap();
    assert!(engine.is_sound_player_running());

    let again = engine.start_sound_player(|core: Core| StartOutcome::Started(Runtime(core))).unwrap_err();
    assert_eq!(again.code(), ErrorCode::InvalidState);
    assert!(engine.is_sound_player_running());

    let mut returned = None;
    engine
        .stop_sound_player(|runtime: Runtime| {
            returned = Some(runtime.0 .0);
            (Some(runtime.0), Ok(()))
        })
        .unwrap();
    assert_eq!(returned, Some(1));
    assert!(!engine.is_sound_player_running());

    // Stopping in direct mode is a no-op.
    engine.stop_sound_player(|runtime: Runtime| (Some(runtime.0), Ok(()))).unwrap();
}

#[test]
fn failed_player_start_keeps_or_loses_the_core() {
    let mut engine: SoundEngine<Core, Runtime> = SoundEngine::new(Core(0));
    let error = engine
        .start_sound_player(|core: Core| StartOutcome::Recoverable(core, SoundError::backend_unavailable("no device")))
        .unwrap_err();
    assert_eq!(error.code(), ErrorCode::BackendUnavailable);
    assert!(!engine.is_sound_player_running());

    let fatal = engine
        .start_sound_player(|_core: Core| StartOutcome::Fatal(SoundError::external("worker lost")))
        .unwrap_err();
    assert_eq!(fatal.code(), ErrorCode::External);
    // Without a core every mode switch is refused.
    let next = engine.start_sound_player(|core: Core| StartOutcome::Started(Runtime(core))).unwrap_err();
    assert_eq!(next.code(), ErrorCode::InvalidState);
    let stop = engine.stop_sound_player(|runtime: Runtime| (Some(runtime.0), Ok(()))).unwrap_err();
    assert_eq!(stop.code(), ErrorCode::InvalidState);
}

#[test]
fn player_that_loses_the_core_on_stop_leaves_no_mode() {
    let mut engine: SoundEngine<Core, Runtime> = SoundEngine::new(Core(3));
    engine.start_sound_player(|core: Core| StartOutcome::Started(Runtime(core))).unwrap();
    let error = engine
        .stop_sound_player(|_runtime: Runtime| (None, Err(SoundError::poisoned_lock("worker panicked"))))
        .unwrap_err();
    assert_eq!(error.code(), ErrorCode::PoisonedLock);
    assert!(!engine.is_sound_player_running());
    let restart = engine.start_sound_player(|core: Core| StartOutcome::Started(Runtime(core))).unwrap_err();
    assert_eq!(restart.code(), ErrorCode::InvalidState);
}

#[test]
fn convolver_errors_stop_the_pass_and_keep_every_voice() {
    let mut engine = engine(2, 1);
    let sound = engine.insert_sound(SoundAsset::from_mono_samples(48_000, vec![1.0; 4]).unwrap()).unwrap();
    engine.register_impulse_response(1, &[[1.0, 1.0]]).unwrap();
    engine.register_impulse_response(2, &[[-1.0, -1.0]]).unwrap();
    engine.play_sound(PlaySoundRequest::new(sound, 1, 1.0)).unwrap();
    engine.play_sound(PlaySoundRequest::new(sound, 2, 1.0)).unwrap();
    let mut output = vec![0.0; 4];

    let error = engine.render_block(&mut output).unwrap_err();
    assert_eq!(error.code(), ErrorCode::External);
    assert_eq!(engine.active_voice_count(), 2);

    // Once the failing voice is stopped, the first voice continues where it left off.
    engine.stop_voice(2);
    engine.render_block(&mut output).unwrap();
    assert_eq!(output, vec![1.0; 4]);
    engine.render_block(&mut output).unwrap();
    assert_eq!(output, vec![0.0; 4]);
    assert!(!engine.has_active_voices());
}

/// Circular convolution computed directly in the time domain, standing in
/// for the GPU FFT.
struct DirectTransform;

impl SpectralTransform<f32> for DirectTransform {
    type Spectrum = Vec<[f32; 2]>;

    fn transform_impulse_response(&self, padded: &[[f32; 2]]) -> SoundResult<Vec<[f32; 2]>> {
        Ok(padded.to_vec())
    }

    fn convolve_in_place(&self, spectrum: &Vec<[f32; 2]>, signal: &mut [[f32; 2]]) -> SoundResult<()> {
        if spectrum[0][0] < 0.0 {
            return Err(SoundError::external("negative tap"));
        }
        let n = signal.len();
        let input: Vec<f32> = signal.iter().map(|s| s[0]).collect();
        for (out_index, out) in signal.iter_mut().enumerate() {
            let mut acc = [0.0f32, 0.0f32];
            for (k, x) in input.iter().enumerate() {
                let ir = spectrum[(out_index + n - k) % n];
                acc[0] += x * ir[0];
                acc[1] += x * ir[1];
            }
            *out = acc;
        }
        Ok(())
    }
}

fn partitioned(block_size: usize, ir_num_samples: u32) -> PartitionedConvolver<f32, FloatOps, DirectTransform> {
    PartitionedConvolver::new(DirectTransform, FloatOps, 0.0, block_size, ir_num_samples, OutputChannels::Stereo).unwrap()
}

#[test]
fn partitioned_convolver_sizes_its_fft() {
    let convolver = partitioned(2, 2);
    assert_eq!(convolver.fft_size(), 4);
    assert_eq!(convolver.tail_size(), 2);
    let error = PartitionedConvolver::new(DirectTransform, FloatOps, 0.0, 0, 2, OutputChannels::Stereo).err().unwrap();
    assert_eq!(error.code(), ErrorCode::InvalidArgument);
}

#[test]
fn partitioned_convolver_overlaps_blocks_and_drains_the_tail() {
    let convolver = partitioned(2, 2);
    let ir = convolver.create_impulse_response(&[[1.0, 0.5], [0.5, 0.25]]).unwrap();
    assert_eq!(convolver.create_impulse_response(&[]).err().unwrap().code(), ErrorCode::InvalidArgument);
    assert_eq!(convolver.create_impulse_response(&[[0.0, 0.0]; 5]).err().unwrap().code(), ErrorCode::InvalidArgument);
    let mut voice = convolver.new_voice_convolution(&ir);
    let mut output = vec![9.0; 4];

    convolver.process_block(&mut voice, &[1.0, 1.0], &mut output).unwrap();
    assert_eq!(output, vec![1.0, 0.5, 1.5, 0.75]);
    convolver.process_block(&mut voice, &[0.0, 0.0], &mut output).unwrap();
    assert_eq!(output, vec![0.5, 0.25, 0.0, 0.0]);
    assert_eq!(convolver.process_block(&mut voice, &[0.0], &mut output).unwrap_err().code(), ErrorCode::InvalidArgument);

    assert!(convolver.flush_tail_block(&mut voice, &mut output).unwrap());
    assert_eq!(output, vec![0.0; 4]);
    // A flushing voice takes no more input.
    assert_eq!(
        convolver.process_block(&mut voice, &[0.0, 0.0], &mut output).unwrap_err().code(),
        ErrorCode::InvalidArgument
    );
    output = vec![7.0; 4];
    assert!(!convolver.flush_tail_block(&mut voice, &mut output).unwrap());
    assert_eq!(output, vec![7.0; 4]);
}

#[test]
fn engine_renders_through_the_partitioned_convolver() {
    let sound = SoundConfig { output_channels: OutputChannels::Stereo, sample_rate: 48_000, ir_num_samples: 2 };
    let mut engine = AuralizationEngine::new(partitioned(2, 2), FloatOps, sound, AuralizationConfig { block_size: 2 }, 0.0)
        .unwrap();
    let id = engine.insert_sound(SoundAsset::from_mono_samples(48_000, vec![1.0, 1.0]).unwrap()).unwrap();
    engine.register_impulse_response(1, &[[1.0, 0.5], [0.5, 0.25]]).unwrap();
    engine.play_sound(PlaySoundRequest::new(id, 1, 1.0)).unwrap();
    let mut output = vec![0.0; 4];

    engine.render_block(&mut output).unwrap();
    assert_eq!(output, vec![1.0, 0.5, 1.5, 0.75]);
    // The asset is exhausted: the overlap tail plays out, then the voice ends.
    engine.render_block(&mut output).unwrap();
    assert_eq!(output, vec![0.5, 0.25, 0.0, 0.0]);
    assert!(engine.has_active_voices());
    engine.render_block(&mut output).unwrap();
    assert_eq!(output, vec![0.0; 4]);
    assert!(!engine.has_active_voices());
}

#[test]
fn saturating_ops_clamp_integer_samples() {
    let ops = SaturatingOps;
    assert_eq!(ops.scale(3, -4), -12);
    assert_eq!(ops.scale(i32::MAX, 2), i32::MAX);
    assert_eq!(ops.mix(i32::MIN, -1), i32::MIN);
    assert_eq!(ops.mix(5, 6), 11);
    assert!(ops.is_finite(i32::MAX));
}
