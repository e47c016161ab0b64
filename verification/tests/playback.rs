use sound_engine::playback::device::{
    validate_callback_sample_shape, validate_drained_sample_shape, validate_output_channels, write_output,
};
use sound_engine::playback::player::{validate_config, PlaybackConfig, SoundPlayer};
use sound_engine::playback::queue::{PushStatus, SampleQueue};
use sound_engine::playback::state::PlaybackState;
use sound_engine::sound_core::error::{ErrorCode, SoundResult};

fn clamp_unit(sample: f32) -> f32 {
    sample.clamp(-1.0, 1.0)
}

#[test]
fn queue_respects_capacity_and_stop() -> SoundResult<()> {
    let mut queue = SampleQueue::new(2);
    let mut stop_requested = false;

    assert!(queue.push_block(&[0.1, 0.2], stop_requested)? == PushStatus::Pushed);
    assert_eq!(queue.len(), 2);

    stop_requested = true;
    assert!(queue.push_block(&[0.3], stop_requested)? == PushStatus::Stopped);
    assert_eq!(queue.len(), 2);
    Ok(())
}

#[test]
fn queue_drains_batch_with_one_call() -> SoundResult<()> {
    let mut queue = SampleQueue::new(4);
    let stop_requested = false;
    assert!(queue.push_block(&[0.1, 0.2, 0.3], stop_requested)? == PushStatus::Pushed);

    let mut output = [0.0; 4];
    let drained = queue.pop_into(&mut output);

    assert_eq!(drained, 3);
    assert_eq!(output, [0.1, 0.2, 0.3, 0.0]);
    assert_eq!(queue.len(), 0);
    Ok(())
}

#[test]
fn write_output_maps_engine_channels_and_zeros_extra_device_channels() -> SoundResult<()> {
    let mut state = PlaybackState::new();
    let mut queue = state.prepare_queue(4);
    assert!(queue.push_block(&[2.0f32, -2.0, 0.25, -0.25], state.stop_requested())? == PushStatus::Pushed);
    let mut output = [1.0f32; 6];
    let mut scratch = Vec::new();

    write_output(&mut output, 3, 2, &mut queue, &mut state, &mut scratch, 0.0, clamp_unit);

    assert_eq!(output, [1.0, -1.0, 0.0, 0.25, -0.25, 0.0]);
    assert!(!state.is_playback_done());
    Ok(())
}

#[test]
fn write_output_marks_done_after_final_underflow() -> SoundResult<()> {
    let mut state = PlaybackState::new();
    let mut queue = state.prepare_queue(2);
    state.mark_producer_done();
    assert!(queue.push_block(&[0.5f32, -0.5], state.stop_requested())? == PushStatus::Pushed);
    let mut output = [0.0f32; 4];
    let mut scratch = Vec::new();

    write_output(&mut output, 2, 2, &mut queue, &mut state, &mut scratch, 0.0, clamp_unit);

    assert_eq!(output, [0.5, -0.5, 0.0, 0.0]);
    assert!(state.is_playback_done());
    Ok(())
}

#[test]
fn queue_rejects_block_longer_than_capacity() {
    let mut queue = SampleQueue::new(2);
    let error = queue.push_block(&[1u8, 2, 3], false).unwrap_err();
    assert_eq!(error.code(), ErrorCode::InvalidArgument);
    assert_eq!(queue.len(), 0);
}

#[test]
fn queue_reports_would_block_until_space_frees() {
    let mut queue = SampleQueue::new(3);
    assert_eq!(queue.push_block(&[1u8, 2], false).unwrap(), PushStatus::Pushed);
    assert_eq!(queue.push_block(&[3u8, 4], false).unwrap(), PushStatus::WouldBlock);
    assert_eq!(queue.free_space(), 1);
    let mut out = [0u8; 1];
    assert_eq!(queue.pop_into(&mut out), 1);
    assert_eq!(out, [1]);
    assert_eq!(queue.push_block(&[3u8, 4], false).unwrap(), PushStatus::Pushed);
    let mut drained = Vec::new();
    assert_eq!(queue.pop_into_vec(&mut drained, 10), 3);
    assert_eq!(drained, vec![2, 3, 4]);
}

#[test]
fn queue_stop_wins_over_free_space() {
    let mut queue = SampleQueue::new(8);
    assert_eq!(queue.push_block(&[1u8], true).unwrap(), PushStatus::Stopped);
    assert_eq!(queue.len(), 0);
}

#[test]
fn write_output_silences_and_stops_on_bad_shape() {
    let mut state = PlaybackState::new();
    let mut queue = state.prepare_queue(4);
    queue.push_block(&[0.5f32, 0.5], false).unwrap();
    let mut output = [1.0f32; 5];
    let mut scratch = Vec::new();

    write_output(&mut output, 2, 1, &mut queue, &mut state, &mut scratch, 0.0, clamp_unit);

    assert_eq!(output, [0.0; 5]);
    assert!(state.is_stop_requested());
    assert!(state.is_playback_done());
    assert_eq!(queue.len(), 2);
}

#[test]
fn write_output_underflow_without_finished_producer_keeps_playing() {
    let mut state = PlaybackState::new();
    let mut queue = state.prepare_queue(4);
    queue.push_block(&[0.25f32], false).unwrap();
    let mut output = [9.0f32; 3];
    let mut scratch = Vec::new();

    write_output(&mut output, 1, 1, &mut queue, &mut state, &mut scratch, 0.0, clamp_unit);

    assert_eq!(output, [0.25, 0.0, 0.0]);
    assert!(!state.is_playback_done());
}

#[test]
fn write_output_rejects_partial_engine_frames() {
    let mut state = PlaybackState::new();
    let mut queue = state.prepare_queue(4);
    queue.push_block(&[0.1f32, 0.2, 0.3], false).unwrap();
    let mut output = [7.0f32; 4];
    let mut scratch = Vec::new();

    write_output(&mut output, 2, 2, &mut queue, &mut state, &mut scratch, 0.0, clamp_unit);

    assert_eq!(output, [0.0; 4]);
    assert!(state.is_stop_requested());
    assert_eq!(queue.len(), 0);
}

#[test]
fn playback_state_lifecycle() {
    let mut state = PlaybackState::new();
    assert!(state.producer_done());
    assert!(state.is_playback_done());
    assert!(!state.is_stop_requested());
    let _queue: SampleQueue<f32> = state.prepare_queue(1);
    assert!(!state.producer_done());
    assert!(!state.is_playback_done());
    state.request_stop();
    assert!(state.is_stop_requested());
    assert!(state.is_playback_done());
}

#[test]
fn validates_device_and_callback_shapes() {
    assert!(validate_output_channels(2, 2).is_ok());
    assert_eq!(validate_output_channels(1, 2).unwrap_err().code(), ErrorCode::UnsupportedFeature);
    assert!(validate_callback_sample_shape(6, 3, 2).is_ok());
    assert_eq!(validate_callback_sample_shape(6, 0, 2).unwrap_err().code(), ErrorCode::InvalidArgument);
    assert_eq!(validate_callback_sample_shape(6, 3, 0).unwrap_err().code(), ErrorCode::InvalidArgument);
    assert_eq!(validate_callback_sample_shape(7, 3, 2).unwrap_err().code(), ErrorCode::InvalidArgument);
    assert!(validate_drained_sample_shape(4, 2).is_ok());
    assert_eq!(validate_drained_sample_shape(3, 2).unwrap_err().code(), ErrorCode::InvalidState);
}

#[test]
fn playback_config_policy() {
    let config = PlaybackConfig::default();
    assert_eq!(config.prefill_blocks, 8);
    assert_eq!(config.max_queued_blocks, 32);
    assert!(validate_config(config).is_ok());
    let empty = PlaybackConfig { prefill_blocks: 0, max_queued_blocks: 0 };
    assert_eq!(validate_config(empty).unwrap_err().code(), ErrorCode::InvalidArgument);
    let overfull = PlaybackConfig { prefill_blocks: 3, max_queued_blocks: 2 };
    assert_eq!(validate_config(overfull).unwrap_err().code(), ErrorCode::InvalidArgument);
}

#[test]
fn sound_player_checks_block_shape_and_capacity() {
    let config = PlaybackConfig { prefill_blocks: 1, max_queued_blocks: 2 };
    assert!(SoundPlayer::<f32>::new(0, 4, config).is_err());
    assert!(SoundPlayer::<f32>::new(2, 0, config).is_err());
    let mut player = SoundPlayer::<f32>::new(2, 2, config).unwrap();
    assert_eq!(player.block_samples(), 4);
    assert_eq!(player.push_block(&[0.0; 3]).unwrap_err().code(), ErrorCode::InvalidArgument);
    assert_eq!(player.push_block(&[0.0; 4]).unwrap(), PushStatus::Pushed);
    assert_eq!(player.push_block(&[0.0; 4]).unwrap(), PushStatus::Pushed);
    assert_eq!(player.push_block(&[0.0; 4]).unwrap(), PushStatus::WouldBlock);
    player.finish();
    let mut device = [1.0f32; 4];
    let mut scratch = Vec::new();
    player.write_device_output(&mut device, 2, 2, &mut scratch, 0.0, clamp_unit);
    assert!(!player.is_playback_done());
    player.stop();
    assert!(player.is_stop_requested());
    assert_eq!(player.push_block(&[0.0; 4]).unwrap(), PushStatus::Stopped);
}

#[test]
fn pushed_block_is_played_frame_by_frame() {
    let config = PlaybackConfig { prefill_blocks: 1, max_queued_blocks: 1 };
    let mut player = SoundPlayer::<f32>::new(2, 3, config).unwrap();
    assert_eq!(player.push_block(&[0.5, 0.25, -0.5, -0.25, 1.0, 0.125]).unwrap(), PushStatus::Pushed);

    let mut device = [9.0f32; 12];
    let mut scratch = Vec::new();
    player.write_device_output(&mut device, 4, 2, &mut scratch, 0.0, |sample: f32| sample * 2.0);

    assert_eq!(device, [1.0, 0.5, 0.0, 0.0, -1.0, -0.5, 0.0, 0.0, 2.0, 0.25, 0.0, 0.0]);
    assert!(!player.is_playback_done());
    // The queue is empty: the next callback underflows into silence.
    player.write_device_output(&mut device, 4, 2, &mut scratch, 0.0, |sample: f32| sample * 2.0);
    assert_eq!(device, [0.0; 12]);
}
