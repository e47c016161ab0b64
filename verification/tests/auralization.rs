use sound_engine::auralization::assets::{
    validate_interleaved_layout, validate_sample_rate, wav_sample_kind, SoundAsset, SoundBank, WavSampleKind,
};
use sound_engine::auralization::convolver::{
    convolution_sizes, copy_samples, flush_tail_block, next_power_of_two, overlap_add, validate_block_lengths,
    validate_not_flushing,
};
use sound_engine::auralization::engine::{render_asset_samples, state_after_block, validate_config, VoiceState};
use sound_engine::sound_core::config::{AuralizationConfig, OutputChannels, SoundConfig};
use sound_engine::sound_core::error::ErrorCode;

fn sound_config() -> SoundConfig {
    SoundConfig { output_channels: OutputChannels::Stereo, sample_rate: 48_000, ir_num_samples: 128 }
}

#[test]
fn rejects_zero_sample_rate() {
    let mut config = sound_config();
    config.sample_rate = 0;

    let error = validate_config(config, AuralizationConfig { block_size: 64 }).unwrap_err();

    assert_eq!(error.code(), ErrorCode::InvalidArgument);
}

#[test]
fn validates_ir_length_and_block_size() {
    assert!(validate_config(sound_config(), AuralizationConfig { block_size: 64 }).is_ok());
    let mut config = sound_config();
    config.ir_num_samples = 0;
    assert!(validate_config(config, AuralizationConfig { block_size: 64 }).is_err());
    assert!(validate_config(sound_config(), AuralizationConfig { block_size: 0 }).is_err());
}

#[test]
fn renders_asset_block_with_gain_and_padding() {
    let asset = SoundAsset::from_mono_samples(48_000, vec![0.5f32, -0.25]).unwrap();
    let mut cursor = 0;
    let mut block = vec![1.0f32; 4];

    render_asset_samples(&asset, &mut cursor, &mut block, 0.0, |sample: f32| sample * 2.0);

    assert_eq!(block, vec![1.0, -0.5, 0.0, 0.0]);
    assert_eq!(cursor, 2);
}

#[test]
fn rendering_continues_from_the_cursor() {
    let asset = SoundAsset::from_mono_samples(8, vec![1i32, 2, 3, 4, 5]).unwrap();
    let mut cursor = 0;
    let mut block = [0i32; 2];
    render_asset_samples(&asset, &mut cursor, &mut block, 0, |s: i32| s);
    assert_eq!((block, cursor), ([1, 2], 2));
    assert_eq!(state_after_block(cursor, asset.len()), VoiceState::Playing);
    render_asset_samples(&asset, &mut cursor, &mut block, 0, |s: i32| s);
    render_asset_samples(&asset, &mut cursor, &mut block, 0, |s: i32| s);
    assert_eq!((block, cursor), ([5, 0], 5));
    assert_eq!(state_after_block(cursor, asset.len()), VoiceState::FlushingTail);
}

#[test]
fn assets_and_bank() {
    assert_eq!(SoundAsset::<f32>::from_mono_samples(0, vec![]).unwrap_err().code(), ErrorCode::InvalidArgument);
    let asset = SoundAsset::from_mono_samples(44_100, vec![0.1f32, 0.2]).unwrap();
    assert_eq!(asset.sample_rate(), 44_100);
    assert_eq!(asset.samples(), &[0.1, 0.2]);
    assert_eq!(asset.len(), 2);
    assert!(!asset.is_empty());

    let mut bank = SoundBank::new();
    assert!(bank.is_empty());
    let first = bank.insert(asset.clone());
    let second = bank.insert(asset);
    assert_eq!((first, second), (1, 2));
    assert_eq!(bank.len(), 2);
    assert_eq!(bank.get(first).unwrap().len(), 2);
    assert_eq!(bank.get(9).unwrap_err().code(), ErrorCode::NotFound);
    assert!(bank.remove(first).is_some());
    assert!(bank.remove(first).is_none());
    assert_eq!(bank.len(), 1);
}

#[test]
fn interleaved_layout_checks() {
    assert!(validate_sample_rate(1).is_ok());
    assert!(validate_sample_rate(0).is_err());
    assert!(validate_interleaved_layout(48_000, 2, 4, 48_000).is_ok());
    assert!(validate_interleaved_layout(0, 2, 4, 48_000).is_err());
    assert!(validate_interleaved_layout(48_000, 2, 4, 0).is_err());
    assert!(validate_interleaved_layout(48_000, 0, 4, 48_000).is_err());
    assert!(validate_interleaved_layout(48_000, 2, 3, 48_000).is_err());
}

#[test]
fn fft_sizes_cover_block_and_ir() {
    assert_eq!(next_power_of_two(0), 1);
    assert_eq!(next_power_of_two(1), 1);
    assert_eq!(next_power_of_two(5), 8);
    assert_eq!(next_power_of_two(64), 64);
    let sizes = convolution_sizes(64, 128);
    assert_eq!(sizes.fft_size, 256);
    assert_eq!(sizes.tail_size, 192);
}

#[test]
fn stereo_frames_are_interleaved_or_mixed_to_left() {
    let frames = [[1, 2], [3, 4], [5, 6]];
    let mut stereo = [0; 6];
    copy_samples(&frames, 1, 2, &mut stereo, OutputChannels::Stereo);
    assert_eq!(stereo, [3, 4, 5, 6, 0, 0]);
    let mut mono = [9; 3];
    copy_samples(&frames, 0, 2, &mut mono, OutputChannels::Mono);
    assert_eq!(mono, [1, 3, 9]);
}

#[test]
fn overlap_add_carries_the_tail() {
    let mut output = [[1, 1], [2, 2], [3, 3], [4, 4]];
    let mut tail = [[10, 20], [30, 40]];
    overlap_add(&mut output, &mut tail, 2, |a: i32, b: i32| a + b);
    assert_eq!(output, [[11, 21], [32, 42], [3, 3], [4, 4]]);
    assert_eq!(tail, [[3, 3], [4, 4]]);
}

#[test]
fn tail_is_flushed_block_by_block() {
    let tail = [[1, 2], [3, 4], [5, 6]];
    let mut position = 0;
    let mut out = [7; 4];
    assert_eq!(flush_tail_block(&tail, &mut position, 2, OutputChannels::Stereo, &mut out, 0).unwrap(), true);
    assert_eq!((out, position), ([1, 2, 3, 4], 2));
    assert_eq!(flush_tail_block(&tail, &mut position, 2, OutputChannels::Stereo, &mut out, 0).unwrap(), true);
    assert_eq!((out, position), ([5, 6, 0, 0], 4));
    assert_eq!(flush_tail_block(&tail, &mut position, 2, OutputChannels::Stereo, &mut out, 0).unwrap(), false);
    let mut wrong = [0; 3];
    assert!(flush_tail_block(&tail, &mut position, 2, OutputChannels::Stereo, &mut wrong, 0).is_err());
    assert!(validate_not_flushing(0).is_ok());
    assert!(validate_not_flushing(position).is_err());
}

#[test]
fn block_lengths_are_validated() {
    assert!(validate_block_lengths(64, 128, 64, OutputChannels::Stereo, 256).is_ok());
    assert!(validate_block_lengths(63, 126, 64, OutputChannels::Stereo, 256).is_err());
    assert!(validate_block_lengths(64, 64, 64, OutputChannels::Stereo, 256).is_err());
    assert!(validate_block_lengths(64, 64, 64, OutputChannels::Mono, 32).is_err());
}

#[test]
fn wav_sample_kinds_are_recognised() {
    assert_eq!(wav_sample_kind(true, 32).unwrap(), WavSampleKind::Float32);
    assert_eq!(wav_sample_kind(false, 16).unwrap(), WavSampleKind::Int16);
    assert_eq!(wav_sample_kind(false, 24).unwrap(), WavSampleKind::Int24);
    assert_eq!(wav_sample_kind(false, 32).unwrap(), WavSampleKind::Int32);
    assert_eq!(wav_sample_kind(true, 64).unwrap_err().code(), ErrorCode::UnsupportedFeature);
    assert_eq!(wav_sample_kind(false, 8).unwrap_err().code(), ErrorCode::UnsupportedFeature);
}
