use sound_engine::gpu::registry::HandleRegistry;
use sound_engine::gpu::backend::{device_queue_plan, required_device_extensions};
use sound_engine::gpu::compute::{
    compute_layout_bindings, dispatch_multiply_plan, register_compute_pipeline, BufferWrite, LayoutBinding,
    DESCRIPTOR_TYPE_STORAGE_BUFFER, SHADER_STAGE_COMPUTE, WHOLE_SIZE,
};
use sound_engine::gpu::rt::{RtPipelineId, TlasId};
use sound_engine::gpu::trace::{trace_plan, RtDescriptorWrite, RtTracePipeline, RtTraceSpec, TraceCommand};
use sound_engine::gpu::compute::{CommandBufferPool, SubmissionTracker};
use sound_engine::gpu::compute::{aggregate_pool_sizes, pool_sizes_for_sets, DescriptorPoolSize};
use sound_engine::gpu::backend::{
    find_queue_family, score_physical_device, select_best_device, type_score, MemoryHeapInfo,
    DEVICE_TYPE_CPU, DEVICE_TYPE_DISCRETE_GPU, DEVICE_TYPE_INTEGRATED_GPU,
};
use sound_engine::gpu::compute::{validate_compute_stage, workgroups_for, DescriptorBindingSpec, PipelineId, PushConstantSpec};
use sound_engine::gpu::memory::{staging_size_for, typed_download_size, validate_download, validate_transfer_size};
use sound_engine::gpu::rt::{
    align_up, pack_group_handles, push_constants_fit_pipeline, region_for, sbt_layout, validate_groups,
    validate_rt_pipeline, validate_trace_dimensions, RtDescriptorBindingSpec, RtGroupKind, RtPushConstantSpec,
    RtShaderGroupSpec, RtShaderStageSpec, SbtRegion, DEFAULT_RT_STAGE_FLAGS,
};
use sound_engine::gpu::backend::{first_missing_name, validate_device_extensions, validate_ray_tracing_features};
use sound_engine::gpu::rt::{blas_triangle_count, common_aabb_opacity, validate_mesh_upload, validate_tlas_instances};
use sound_engine::gpu::shader::{spirv_words_from_bytes, validate_spirv_words, ShaderId, ShaderStage};
use sound_engine::sound_core::error::ErrorCode;

#[test]
fn align_up_keeps_aligned_values() {
    assert_eq!(align_up(64, 32), 64);
}

#[test]
fn align_up_rounds_to_next_boundary() {
    assert_eq!(align_up(65, 32), 96);
}

#[test]
fn align_up_handles_zero_and_unit_alignment() {
    assert_eq!(align_up(0, 16), 0);
    assert_eq!(align_up(7, 1), 7);
    assert_eq!(align_up(1, 64), 64);
    assert_eq!(align_up(usize::MAX - 31, 32), usize::MAX - 31);
}

#[test]
fn glslang_suffixes_match_stages() {
    assert_eq!(ShaderStage::Compute.glslang_suffix(), "comp");
    assert_eq!(ShaderStage::RayGeneration.glslang_suffix(), "rgen");
    assert_eq!(ShaderStage::RayMiss.glslang_suffix(), "rmiss");
    assert_eq!(ShaderStage::RayClosestHit.glslang_suffix(), "rchit");
    assert_eq!(ShaderStage::RayAnyHit.glslang_suffix(), "rahit");
    assert_eq!(ShaderStage::RayIntersection.glslang_suffix(), "rint");
    assert_eq!(ShaderStage::RayCallable.glslang_suffix(), "rcall");
}

#[test]
fn spirv_bytes_become_little_endian_words() {
    let words = spirv_words_from_bytes(&[0x03, 0x02, 0x23, 0x07, 0xff, 0x00, 0x00, 0x01]).unwrap();
    assert_eq!(words, vec![0x0723_0203, 0x0100_00ff]);
    let error = spirv_words_from_bytes(&[1, 2, 3]).unwrap_err();
    assert_eq!(error.code(), ErrorCode::ShaderCompileFailed);
    assert_eq!(validate_spirv_words(&[]).unwrap_err().code(), ErrorCode::ShaderCompileFailed);
    assert!(validate_spirv_words(&words).is_ok());
}

fn acoustic_groups() -> Vec<RtShaderGroupSpec> {
    vec![
        RtShaderGroupSpec::Raygen { shader: 0 },
        RtShaderGroupSpec::Miss { shader: 1 },
        RtShaderGroupSpec::TrianglesHit { closest_hit_shader: 2 },
        RtShaderGroupSpec::TrianglesHit { closest_hit_shader: 2 },
    ]
}

fn acoustic_stages() -> Vec<ShaderStage> {
    vec![ShaderStage::RayGeneration, ShaderStage::RayMiss, ShaderStage::RayClosestHit]
}

#[test]
fn validates_rt_shader_groups() {
    assert!(validate_groups(&acoustic_stages(), &acoustic_groups()).is_ok());
    let wrong_stage = [RtShaderGroupSpec::Miss { shader: 0 }];
    assert_eq!(validate_groups(&acoustic_stages(), &wrong_stage).unwrap_err().code(), ErrorCode::InvalidArgument);
    let out_of_range = [RtShaderGroupSpec::Callable { shader: 9 }];
    assert_eq!(validate_groups(&acoustic_stages(), &out_of_range).unwrap_err().code(), ErrorCode::InvalidArgument);
    assert!(validate_rt_pipeline(&acoustic_stages(), &acoustic_groups()).is_ok());
    assert!(validate_rt_pipeline(&[], &acoustic_groups()).is_err());
    assert!(validate_rt_pipeline(&acoustic_stages(), &[]).is_err());
    assert!(validate_rt_pipeline(&[ShaderStage::Compute], &[RtShaderGroupSpec::Raygen { shader: 0 }]).is_err());
    assert_eq!(RtShaderGroupSpec::Callable { shader: 0 }.kind(), RtGroupKind::Callable);
    assert_eq!(RtShaderStageSpec::new(ShaderId(4)).shader_id, ShaderId(4));
}

#[test]
fn sbt_regions_cover_contiguous_group_runs() {
    let groups = acoustic_groups();
    let layout = sbt_layout(32, 32, 64, groups.len());
    assert_eq!(layout.record_stride, 32);
    assert_eq!(layout.region_size, 64);
    assert_eq!(layout.total_size, 256);
    let hit = region_for(&groups, 1000, layout.record_stride, layout.region_size, RtGroupKind::Hit);
    assert_eq!(hit, SbtRegion { device_address: 1128, stride: 32, size: 64 });
    let raygen = region_for(&groups, 1000, layout.record_stride, layout.region_size, RtGroupKind::Raygen);
    assert_eq!(raygen, SbtRegion { device_address: 1000, stride: 32, size: 32 });
    let callable = region_for(&groups, 1000, layout.record_stride, layout.region_size, RtGroupKind::Callable);
    assert_eq!(callable, SbtRegion { device_address: 0, stride: 0, size: 0 });
}

#[test]
fn group_handles_are_packed_into_aligned_slots() {
    let handles = [1u8, 2, 3, 4, 5, 6];
    let sbt = pack_group_handles(&handles, 2, 4, 3);
    assert_eq!(sbt, vec![1, 2, 0, 0, 3, 4, 0, 0, 5, 6, 0, 0]);
    assert!(pack_group_handles(&[], 0, 0, 0).is_empty());
}

#[test]
fn push_constants_must_fit_a_range() {
    let ranges = [RtPushConstantSpec::new(0, 16)];
    assert_eq!(ranges[0].stage_flags, DEFAULT_RT_STAGE_FLAGS);
    assert!(push_constants_fit_pipeline(0, 16, &ranges));
    assert!(push_constants_fit_pipeline(4, 8, &ranges));
    assert!(!push_constants_fit_pipeline(8, 16, &ranges));
    assert!(push_constants_fit_pipeline(100, 0, &ranges));
    assert!(!push_constants_fit_pipeline(u32::MAX, 2, &[RtPushConstantSpec::new(0, u32::MAX)]));
    assert!(validate_trace_dimensions([1, 1, 1]).is_ok());
    assert_eq!(validate_trace_dimensions([4, 0, 1]).unwrap_err().code(), ErrorCode::InvalidArgument);
}

#[test]
fn descriptor_specs_default_to_single_descriptors() {
    assert_eq!(
        DescriptorBindingSpec::storage_buffer(3),
        DescriptorBindingSpec::StorageBuffer { binding: 3, descriptor_count: 1 }
    );
    assert_eq!(
        DescriptorBindingSpec::storage_buffer_array(1, 5),
        DescriptorBindingSpec::StorageBuffer { binding: 1, descriptor_count: 5 }
    );
    assert_eq!(PushConstantSpec::new(4, 8), PushConstantSpec { offset: 4, size: 8 });
    match RtDescriptorBindingSpec::storage_buffer(2) {
        RtDescriptorBindingSpec::StorageBuffer { binding, descriptor_count, .. } => {
            assert_eq!((binding, descriptor_count), (2, 1));
        }
        _ => panic!("expected a storage buffer binding"),
    }
    assert_eq!(PipelineId::from_index(7).index(), 7);
    assert_eq!(workgroups_for(0), 0);
    assert_eq!(workgroups_for(256), 1);
    assert_eq!(workgroups_for(257), 2);
}

#[test]
fn transfers_are_size_checked() {
    assert_eq!(staging_size_for(16, 8), 16);
    assert_eq!(staging_size_for(16, 20), 32);
    assert_eq!(staging_size_for(16, 100), 100);
    assert!(validate_transfer_size(8, 8).is_ok());
    assert_eq!(validate_transfer_size(9, 8).unwrap_err().code(), ErrorCode::InvalidArgument);
    assert!(validate_download(4, 8, 4).is_ok());
    assert!(validate_download(4, 8, 3).is_err());
    assert_eq!(typed_download_size(3, 4, 8).unwrap(), 24);
    assert!(typed_download_size(5, 4, 8).is_err());
    assert!(typed_download_size(usize::MAX, usize::MAX, 2).is_err());
}

#[test]
fn physical_devices_are_scored_and_selected() {
    assert_eq!(type_score(DEVICE_TYPE_DISCRETE_GPU), 5_000_000);
    assert_eq!(type_score(DEVICE_TYPE_INTEGRATED_GPU), 4_000_000);
    assert_eq!(type_score(DEVICE_TYPE_CPU), 2_000_000);
    assert_eq!(type_score(0), 1_000_000);
    let heaps = [
        MemoryHeapInfo { size: 8 * 1024 * 1024, device_local: true },
        MemoryHeapInfo { size: 64 * 1024 * 1024, device_local: false },
        MemoryHeapInfo { size: 3 * 1024 * 1024 + 5, device_local: true },
    ];
    assert_eq!(score_physical_device(DEVICE_TYPE_DISCRETE_GPU, &heaps), 5_000_011);
    assert_eq!(select_best_device(&[3, 9, 9, 1]), Some(2));
    assert_eq!(select_best_device(&[]), None);
    assert_eq!(find_queue_family(&[0b001, 0b110, 0b111], 0b010), Some(1));
    assert_eq!(find_queue_family(&[0b001], 0b010), None);
}

#[test]
fn handles_are_dense_and_found_again() {
    let mut shaders = HandleRegistry::new();
    assert_eq!(shaders.register("raygen"), 0);
    assert_eq!(shaders.register("miss"), 1);
    assert_eq!(shaders.len(), 2);
    assert_eq!(*shaders.get(1).unwrap(), "miss");
    assert_eq!(shaders.get(2).unwrap_err().code(), ErrorCode::NotFound);
    shaders.clear();
    assert_eq!(shaders.len(), 0);
}

#[test]
fn submissions_are_waited_once() {
    let mut tracker = SubmissionTracker::new();
    let first = tracker.track("fence-a");
    let second = tracker.track("fence-b");
    assert_eq!((first.0, second.0), (1, 2));
    assert_eq!(tracker.take(first).unwrap(), "fence-a");
    assert_eq!(tracker.take(first).unwrap_err().code(), ErrorCode::NotFound);
    assert_eq!(tracker.len(), 1);
    assert_eq!(tracker.take_all(), vec![(2, "fence-b")]);
    assert_eq!(tracker.len(), 0);

    let mut pool = CommandBufferPool::new(vec![10, 11]);
    assert_eq!(pool.acquire(), Some(11));
    pool.release(12);
    assert_eq!(pool.acquire(), Some(12));
    assert_eq!(pool.acquire(), Some(10));
    assert_eq!(pool.acquire(), None);
}

#[test]
fn descriptor_counts_are_aggregated_by_type() {
    let bindings = [
        DescriptorPoolSize { ty: 7, descriptor_count: 1 },
        DescriptorPoolSize { ty: 1000150000, descriptor_count: 1 },
        DescriptorPoolSize { ty: 7, descriptor_count: 2 },
    ];
    let pools = aggregate_pool_sizes(&bindings);
    assert_eq!(
        pools,
        vec![
            DescriptorPoolSize { ty: 7, descriptor_count: 3 },
            DescriptorPoolSize { ty: 1000150000, descriptor_count: 1 },
        ]
    );
    assert!(aggregate_pool_sizes(&[]).is_empty());
    let scaled = pool_sizes_for_sets(&pools, 64);
    assert_eq!(scaled[0], DescriptorPoolSize { ty: 7, descriptor_count: 192 });
    assert_eq!(scaled[1], DescriptorPoolSize { ty: 1000150000, descriptor_count: 64 });
}

#[test]
fn device_extensions_are_matched_by_name() {
    let required = vec![b"VK_KHR_acceleration_structure".to_vec(), b"VK_KHR_ray_tracing_pipeline".to_vec()];
    let available = vec![
        b"VK_KHR_swapchain".to_vec(),
        b"VK_KHR_ray_tracing_pipeline".to_vec(),
        b"VK_KHR_acceleration_structure".to_vec(),
    ];
    assert_eq!(first_missing_name(&required, &available), None);
    assert!(validate_device_extensions(&required, &available).is_ok());

    let partial = vec![b"VK_KHR_acceleration_structure".to_vec(), b"VK_KHR_ray_tracing".to_vec()];
    assert_eq!(first_missing_name(&required, &partial), Some(1));
    let error = validate_device_extensions(&required, &partial).unwrap_err();
    assert_eq!(error.code(), ErrorCode::UnsupportedFeature);
    assert_eq!(first_missing_name(&required, &[]), Some(0));
    assert_eq!(first_missing_name(&[], &[]), None);
}

#[test]
fn ray_tracing_features_must_all_be_present() {
    assert!(validate_ray_tracing_features(true, true, true).is_ok());
    for (a, b, c) in [(false, true, true), (true, false, true), (true, true, false)] {
        let error = validate_ray_tracing_features(a, b, c).unwrap_err();
        assert_eq!(error.code(), ErrorCode::UnsupportedFeature);
    }
}

#[test]
fn blas_counts_whole_triangles() {
    assert_eq!(blas_triangle_count(9, None).unwrap(), 3);
    assert_eq!(blas_triangle_count(4, Some(7)).unwrap(), 2);
    assert_eq!(blas_triangle_count(8, None).unwrap(), 2);
    assert_eq!(blas_triangle_count(100, Some(2)).unwrap_err().code(), ErrorCode::InvalidArgument);
    assert_eq!(blas_triangle_count(2, None).unwrap_err().code(), ErrorCode::InvalidArgument);
}

#[test]
fn mesh_and_instance_inputs_are_checked() {
    assert!(validate_mesh_upload(3, None).is_ok());
    assert!(validate_mesh_upload(3, Some(3)).is_ok());
    assert_eq!(validate_mesh_upload(0, None).unwrap_err().code(), ErrorCode::InvalidArgument);
    assert_eq!(validate_mesh_upload(3, Some(0)).unwrap_err().code(), ErrorCode::InvalidArgument);
    assert!(validate_tlas_instances(1).is_ok());
    assert_eq!(validate_tlas_instances(0).unwrap_err().code(), ErrorCode::InvalidArgument);
}

#[test]
fn aabb_uploads_share_one_opaque_flag() {
    assert_eq!(common_aabb_opacity(&[true, true]).unwrap(), true);
    assert_eq!(common_aabb_opacity(&[false]).unwrap(), false);
    assert_eq!(common_aabb_opacity(&[true, false]).unwrap_err().code(), ErrorCode::InvalidArgument);
    assert_eq!(common_aabb_opacity(&[]).unwrap_err().code(), ErrorCode::InvalidArgument);
}

#[test]
fn compute_pipelines_need_compute_shaders() {
    assert!(validate_compute_stage(ShaderStage::Compute).is_ok());
    let error = validate_compute_stage(ShaderStage::RayGeneration).unwrap_err();
    assert_eq!(error.code(), ErrorCode::InvalidArgument);
}

#[test]
fn transfer_queue_prefers_a_transfer_family() {
    let plan = device_queue_plan(&[0x2, 0x4 | 0x1, 0x4], 0);
    assert_eq!(plan.compute_family, 0);
    assert_eq!(plan.transfer_family, 1);
    assert_eq!(plan.queue_families, vec![0, 1]);
    let shared = device_queue_plan(&[0x2 | 0x4], 0);
    assert_eq!(shared.transfer_family, 0);
    assert_eq!(shared.queue_families, vec![0]);
    let none = device_queue_plan(&[0x2, 0x1], 1);
    assert_eq!(none.transfer_family, 1);
    assert_eq!(none.queue_families, vec![1]);
}

#[test]
fn compute_pipelines_are_registered_in_order() {
    let mut registry: HandleRegistry<&str> = HandleRegistry::new();
    let error = register_compute_pipeline(&mut registry, ShaderStage::RayMiss, "miss").unwrap_err();
    assert_eq!(error.code(), ErrorCode::InvalidArgument);
    assert_eq!(registry.len(), 0);
    let first = register_compute_pipeline(&mut registry, ShaderStage::Compute, "multiply").unwrap();
    let second = register_compute_pipeline(&mut registry, ShaderStage::Compute, "scale").unwrap();
    assert_eq!((first.index(), second.index()), (0, 1));
    assert_eq!(*registry.get(1).unwrap(), "scale");

    let bindings = compute_layout_bindings(&[
        DescriptorBindingSpec::storage_buffer(0),
        DescriptorBindingSpec::storage_buffer_array(1, 3),
    ]);
    assert_eq!(
        bindings,
        vec![
            LayoutBinding { binding: 0, descriptor_type: DESCRIPTOR_TYPE_STORAGE_BUFFER, descriptor_count: 1, stage_flags: SHADER_STAGE_COMPUTE },
            LayoutBinding { binding: 1, descriptor_type: DESCRIPTOR_TYPE_STORAGE_BUFFER, descriptor_count: 3, stage_flags: SHADER_STAGE_COMPUTE },
        ]
    );
}

#[test]
fn multiply_dispatch_is_planned() {
    let mut registry: HandleRegistry<&str> = HandleRegistry::new();
    let id = register_compute_pipeline(&mut registry, ShaderStage::Compute, "multiply").unwrap();
    let plan = dispatch_multiply_plan(&registry, id, 10, 20, 257).unwrap();
    assert_eq!(*plan.pipeline, "multiply");
    assert_eq!(plan.pool_size, DescriptorPoolSize { ty: DESCRIPTOR_TYPE_STORAGE_BUFFER, descriptor_count: 2 });
    assert_eq!(plan.max_sets, 1);
    assert_eq!(plan.writes[0], BufferWrite { binding: 0, buffer: 10, range: WHOLE_SIZE });
    assert_eq!(plan.writes[1], BufferWrite { binding: 1, buffer: 20, range: WHOLE_SIZE });
    assert_eq!(plan.push_constant, 257);
    assert_eq!(plan.groups, [2, 1, 1]);
    let missing = dispatch_multiply_plan(&registry, PipelineId::from_index(5), 10, 20, 1).err().unwrap();
    assert_eq!(missing.code(), ErrorCode::NotFound);
}

fn region(address: u64) -> SbtRegion {
    SbtRegion { device_address: address, stride: 32, size: 32 }
}

#[test]
fn trace_recording_is_planned_in_order() {
    let mut pipelines: HandleRegistry<RtTracePipeline> = HandleRegistry::new();
    pipelines.register(RtTracePipeline {
        push_constant_ranges: vec![RtPushConstantSpec::new(0, 16)],
        raygen_region: region(1),
        miss_region: region(2),
        hit_region: region(3),
        callable_region: region(4),
    });
    let mut tlas: HandleRegistry<u64> = HandleRegistry::new();
    tlas.register(0xabc);
    let spec = RtTraceSpec {
        pipeline_id: RtPipelineId(0),
        descriptor_writes: vec![
            RtDescriptorWrite::acceleration_structure(0, TlasId(0)),
            RtDescriptorWrite::storage_buffer(1, 77),
        ],
        push_constant_len: 8,
        push_constant_offset: 4,
        dimensions: [64, 2, 1],
        barrier_after_trace: true,
    };
    let commands = trace_plan(&pipelines, &tlas, &spec).unwrap();
    assert_eq!(commands.len(), 7);
    assert!(matches!(commands[0], TraceCommand::WriteAccelerationStructure { binding: 0, handle: 0xabc }));
    assert!(matches!(commands[1], TraceCommand::WriteStorageBuffer { binding: 1, buffer: 77, offset: 0, range: WHOLE_SIZE }));
    assert!(matches!(commands[2], TraceCommand::BindPipeline));
    assert!(matches!(commands[3], TraceCommand::BindDescriptorSet));
    assert!(matches!(commands[4], TraceCommand::PushConstants { offset: 4, len: 8, stages: DEFAULT_RT_STAGE_FLAGS }));
    assert!(matches!(commands[5], TraceCommand::TraceRays { width: 64, height: 2, depth: 1, .. }));
    assert!(matches!(commands[6], TraceCommand::HostReadBarrier));

    let quiet = RtTraceSpec { descriptor_writes: Vec::new(), push_constant_len: 0, barrier_after_trace: false, ..spec };
    assert_eq!(trace_plan(&pipelines, &tlas, &quiet).unwrap().len(), 3);
    let flat = RtTraceSpec { dimensions: [64, 0, 1], descriptor_writes: Vec::new(), ..quiet };
    assert_eq!(trace_plan(&pipelines, &tlas, &flat).unwrap_err().code(), ErrorCode::InvalidArgument);
    let unknown = RtTraceSpec { pipeline_id: RtPipelineId(3), dimensions: [1, 1, 1], descriptor_writes: Vec::new(), ..flat };
    assert_eq!(trace_plan(&pipelines, &tlas, &unknown).unwrap_err().code(), ErrorCode::NotFound);
    let too_long = RtTraceSpec { pipeline_id: RtPipelineId(0), push_constant_len: 32, descriptor_writes: Vec::new(), ..unknown };
    assert_eq!(trace_plan(&pipelines, &tlas, &too_long).unwrap_err().code(), ErrorCode::InvalidArgument);
    let missing_tlas = RtTraceSpec {
        push_constant_len: 0,
        descriptor_writes: vec![RtDescriptorWrite::acceleration_structure(0, TlasId(9))],
        ..too_long
    };
    assert_eq!(trace_plan(&pipelines, &tlas, &missing_tlas).unwrap_err().code(), ErrorCode::NotFound);
}

#[test]
fn required_extensions_are_the_ray_tracing_set() {
    assert_eq!(
        required_device_extensions(),
        [
            "VK_KHR_acceleration_structure",
            "VK_KHR_ray_tracing_pipeline",
            "VK_KHR_deferred_host_operations",
            "VK_KHR_buffer_device_address",
        ]
    );
}
