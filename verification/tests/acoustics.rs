use sound_engine::engine::{runtime_next, CommandKind, LoopAction, LoopEvent};
use sound_engine::acoustics::cache::{GridCell, IrCache, IrCacheKey};
use sound_engine::acoustics::pipeline::{
    ir_buffer_size, output_channels_to_shader, ray_recursion_depth, rays_to_trace, validate_ir_dimensions,
};
use sound_engine::engine::{impulse_response_for, next_ir_id};
use sound_engine::sound_core::config::OutputChannels;
use sound_engine::acoustics::pipeline::acoustic_pipeline_plan;
use sound_engine::gpu::rt::RtDescriptorBindingSpec;
use sound_engine::gpu::shader::ShaderStage;
use sound_engine::sound_core::error::{ErrorCode, SoundError};

fn key(version: u64, x: i32) -> IrCacheKey {
    IrCacheKey {
        scene_version: version,
        query_id: 0,
        source_cell: GridCell { x, y: 0, z: 0 },
        listener_cell: GridCell { x: 0, y: 0, z: 0 },
    }
}

#[test]
fn cache_returns_inserted_snapshot() {
    let mut cache: IrCache<u32, Vec<u8>> = IrCache::new(2, true);
    cache.insert(key(1, 0), 7, vec![1, 2, 3]);
    assert_eq!(cache.get(key(1, 0), |query: &u32| *query == 7), Some(vec![1, 2, 3]));
    assert_eq!(cache.get(key(1, 0), |_: &u32| false), None);
    assert_eq!(cache.get(key(2, 0), |_: &u32| true), None);
    assert_eq!(cache.len(), 1);
}

#[test]
fn cache_evicts_least_recently_used() {
    let mut cache: IrCache<u32, u8> = IrCache::new(2, true);
    cache.insert(key(1, 0), 0, 10);
    cache.insert(key(1, 1), 0, 11);
    assert_eq!(cache.get(key(1, 0), |_: &u32| true), Some(10));
    cache.insert(key(1, 2), 0, 12);
    assert_eq!(cache.len(), 2);
    assert_eq!(cache.get(key(1, 1), |_: &u32| true), None);
    assert_eq!(cache.get(key(1, 0), |_: &u32| true), Some(10));
    assert_eq!(cache.get(key(1, 2), |_: &u32| true), Some(12));
}

#[test]
fn cache_replaces_existing_key_and_clears() {
    let mut cache: IrCache<u32, u8> = IrCache::new(4, true);
    cache.insert(key(1, 0), 0, 1);
    cache.insert(key(1, 0), 0, 2);
    assert_eq!(cache.len(), 1);
    assert_eq!(cache.get(key(1, 0), |_: &u32| true), Some(2));
    cache.clear();
    assert_eq!(cache.len(), 0);
}

#[test]
fn disabled_cache_stores_nothing() {
    let mut zero: IrCache<u32, u8> = IrCache::new(0, true);
    zero.insert(key(1, 0), 0, 1);
    assert_eq!(zero.len(), 0);
    assert!(!zero.is_enabled());
    let mut bad_policy: IrCache<u32, u8> = IrCache::new(4, false);
    bad_policy.insert(key(1, 0), 0, 1);
    assert_eq!(bad_policy.get(key(1, 0), |_: &u32| true), None);
    assert_eq!(bad_policy.len(), 0);
}

#[test]
fn impulse_response_is_built_once_then_reused() {
    let mut cache: IrCache<u32, Vec<u8>> = IrCache::new(4, true);
    let mut builds = 0;
    let first = impulse_response_for(&mut cache, key(3, 1), 5, |q: &u32| *q == 5, || {
        builds += 1;
        Ok(vec![9, 9])
    })
    .unwrap();
    assert_eq!(first, vec![9, 9]);
    let second = impulse_response_for(&mut cache, key(3, 1), 5, |q: &u32| *q == 5, || {
        builds += 1;
        Ok(vec![0])
    })
    .unwrap();
    assert_eq!(second, vec![9, 9]);
    assert_eq!(builds, 1);
    let failed = impulse_response_for(&mut cache, key(4, 1), 5, |_: &u32| true, || {
        Err(SoundError::external("trace failed"))
    });
    assert_eq!(failed.unwrap_err().code(), ErrorCode::External);
    assert_eq!(cache.len(), 1);
}

#[test]
fn impulse_response_ids_saturate() {
    let mut next = 1u64;
    assert_eq!(next_ir_id(&mut next), 1);
    assert_eq!(next_ir_id(&mut next), 2);
    let mut last = u64::MAX;
    assert_eq!(next_ir_id(&mut last), u64::MAX);
    assert_eq!(last, u64::MAX);
}

#[test]
fn ir_dimensions_and_shader_parameters() {
    assert!(validate_ir_dimensions(48_000, 128).is_ok());
    assert_eq!(validate_ir_dimensions(0, 128).unwrap_err().code(), ErrorCode::InvalidArgument);
    assert_eq!(validate_ir_dimensions(48_000, 0).unwrap_err().code(), ErrorCode::InvalidArgument);
    assert_eq!(ir_buffer_size(128), 1024);
    assert_eq!(output_channels_to_shader(OutputChannels::Mono), 0);
    assert_eq!(output_channels_to_shader(OutputChannels::Stereo), 1);
    assert_eq!(output_channels_to_shader(OutputChannels::Binaural), 2);
    assert_eq!(ray_recursion_depth(0), 1);
    assert_eq!(ray_recursion_depth(3), 4);
    assert_eq!(ray_recursion_depth(u32::MAX), u32::MAX);
    assert_eq!(rays_to_trace(0), 1);
    assert_eq!(rays_to_trace(64), 64);
}

#[test]
fn playback_worker_decisions() {
    assert_eq!(runtime_next(LoopEvent::IterationStart { has_active_voices: false }), LoopAction::WaitForCommand);
    assert_eq!(runtime_next(LoopEvent::IterationStart { has_active_voices: true }), LoopAction::PollCommand);
    assert_eq!(runtime_next(LoopEvent::Waited { command: None }), LoopAction::StopAndExit);
    assert_eq!(runtime_next(LoopEvent::Waited { command: Some(CommandKind::Shutdown) }), LoopAction::FinishAndExit);
    assert_eq!(runtime_next(LoopEvent::Waited { command: Some(CommandKind::Request) }), LoopAction::HandleCommand);
    assert_eq!(runtime_next(LoopEvent::CommandHandled), LoopAction::PollCommand);
    let polled = |command, has_active_voices, stop_requested| {
        runtime_next(LoopEvent::Polled { command, has_active_voices, stop_requested })
    };
    assert_eq!(polled(Some(CommandKind::Shutdown), true, false), LoopAction::StopAndExit);
    assert_eq!(polled(None, true, false), LoopAction::RenderAndPush);
    assert_eq!(polled(None, false, true), LoopAction::StopAndExit);
    assert_eq!(polled(None, false, false), LoopAction::NextIteration);
    assert_eq!(runtime_next(LoopEvent::RenderFailed), LoopAction::StopAndExitWithError);
    assert_eq!(runtime_next(LoopEvent::Pushed { accepted: true }), LoopAction::NextIteration);
    assert_eq!(runtime_next(LoopEvent::Pushed { accepted: false }), LoopAction::Exit);
    assert_eq!(runtime_next(LoopEvent::PushFailed), LoopAction::ExitWithError);
}

#[test]
fn acoustic_pipeline_is_planned() {
    let plan = acoustic_pipeline_plan(48_000, 1024, 3, 48).unwrap();
    assert_eq!(
        plan.stages,
        vec![
            ShaderStage::RayGeneration,
            ShaderStage::RayMiss,
            ShaderStage::RayClosestHit,
            ShaderStage::RayClosestHit,
            ShaderStage::RayIntersection,
        ]
    );
    assert_eq!(plan.bindings.len(), 4);
    assert!(matches!(plan.bindings[0], RtDescriptorBindingSpec::AccelerationStructure { binding: 0, .. }));
    assert!(matches!(plan.bindings[3], RtDescriptorBindingSpec::StorageBuffer { binding: 3, .. }));
    assert_eq!(plan.push_constant_range.size, 48);
    assert_eq!(plan.max_ray_recursion_depth, 4);
    assert_eq!(plan.ir_buffer_bytes, 8192);
    assert_eq!(acoustic_pipeline_plan(0, 1024, 3, 48).err().unwrap().code(), ErrorCode::InvalidArgument);
    assert_eq!(acoustic_pipeline_plan(48_000, 0, 3, 48).err().unwrap().code(), ErrorCode::InvalidArgument);
}
