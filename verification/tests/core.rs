use sound_engine::add;
use sound_engine::sound_core::config::OutputChannels;
use sound_engine::sound_core::error::{ErrorCode, SoundError};

#[test]
fn it_works() {
    let result = add(2, 2);
    assert_eq!(result, 4);
}

#[test]
fn output_channel_counts() {
    assert_eq!(OutputChannels::Mono.count(), 1);
    assert_eq!(OutputChannels::Stereo.count(), 2);
    assert_eq!(OutputChannels::Binaural.count(), 2);
}

#[test]
fn error_constructors_set_their_category() {
    assert_eq!(SoundError::invalid_argument("a").code(), ErrorCode::InvalidArgument);
    assert_eq!(SoundError::invalid_state("a").code(), ErrorCode::InvalidState);
    assert_eq!(SoundError::not_found("a").code(), ErrorCode::NotFound);
    assert_eq!(SoundError::backend_unavailable("a").code(), ErrorCode::BackendUnavailable);
    assert_eq!(SoundError::unsupported_feature("a").code(), ErrorCode::UnsupportedFeature);
    assert_eq!(SoundError::resource_allocation_failed("a").code(), ErrorCode::ResourceAllocationFailed);
    assert_eq!(SoundError::shader_compile_failed("a").code(), ErrorCode::ShaderCompileFailed);
    assert_eq!(SoundError::io("a").code(), ErrorCode::Io);
    assert_eq!(SoundError::external("a").code(), ErrorCode::External);
    assert_eq!(SoundError::poisoned_lock("a").code(), ErrorCode::PoisonedLock);
}

#[test]
fn error_keeps_message_and_source() {
    let plain = SoundError::new(ErrorCode::Io, "disk gone");
    assert_eq!(plain.message(), "disk gone");
    assert_eq!(plain.source_message(), None);
    assert_eq!(plain.describe(), "Io: disk gone");
    let wrapped = SoundError::with_source(ErrorCode::External, "device failed", "timeout");
    assert_eq!(wrapped.code(), ErrorCode::External);
    assert_eq!(wrapped.source_message(), Some("timeout"));
    assert_eq!(wrapped.describe(), "External: device failed");
}
