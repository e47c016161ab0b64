use vstd::prelude::*;
use crate::sound_core::config::OutputChannels;
use crate::gpu::shader::ShaderStage;
use crate::gpu::rt::{RtDescriptorBindingSpec, RtPushConstantSpec};
use crate::sound_core::error::{ErrorCode, SoundError, SoundResult};

verus! {

/// Byte size of one accumulated IR sample on the GPU: two 32-bit
/// fixed-point channel values.
pub const GPU_IR_SAMPLE_BYTES: usize = 8;

/// Checks that an impulse response has a sample rate and a length.
pub fn validate_ir_dimensions(sample_rate: u32, num_samples: u32) -> (result: SoundResult<()>)
    ensures
        result is Ok <==> (sample_rate > 0 && num_samples > 0),
        result is Err ==> result->Err_0@.code == ErrorCode::InvalidArgument,
{
    if sample_rate == 0 {
        return Err(SoundError::invalid_argument("IR sample_rate must be > 0"));
    }
    if num_samples == 0 {
        return Err(SoundError::invalid_argument("IR length must be > 0"));
    }
    Ok(())
}

/// Byte size of the GPU buffer that accumulates `sample_count` IR samples.
pub fn ir_buffer_size(sample_count: u32) -> (size: usize)
    requires
        sample_count * GPU_IR_SAMPLE_BYTES <= usize::MAX,
    ensures
        size == sample_count * GPU_IR_SAMPLE_BYTES,
{
    sample_count as usize * GPU_IR_SAMPLE_BYTES
}

/// Channel-layout code that the IR shaders read.
pub open spec fn spec_output_channels_code(output_channels: OutputChannels) -> u32 {
    match output_channels {
        OutputChannels::Mono => 0,
        OutputChannels::Stereo => 1,
        OutputChannels::Binaural => 2,
    }
}

/// Encodes the output layout for the IR shaders.
pub fn output_channels_to_shader(output_channels: OutputChannels) -> (code: u32)
    ensures
        code == spec_output_channels_code(output_channels),
{
    match output_channels {
        OutputChannels::Mono => 0,
        OutputChannels::Stereo => 1,
        OutputChannels::Binaural => 2,
    }
}

/// Ray recursion depth requested from the RT pipeline: one level per bounce
/// plus the primary ray, saturating, and never zero.
pub fn ray_recursion_depth(max_bounces: u32) -> (depth: u32)
    ensures
        depth == if max_bounces == u32::MAX { u32::MAX as int } else { max_bounces + 1 },
        depth >= 1,
{
    let depth = max_bounces.saturating_add(1);
    if depth < 1 { 1 } else { depth }
}

/// Number of rays traced per query: the configured budget, at least one.
pub fn rays_to_trace(rays_per_query: u32) -> (rays: u32)
    ensures
        rays == if rays_per_query == 0 { 1 } else { rays_per_query },
{
    if rays_per_query < 1 { 1 } else { rays_per_query }
}

/// What the acoustic pipeline is built from: its shader stages (ray
/// generation, miss, scene closest hit, listener closest hit, listener
/// intersection), descriptor bindings (the scene TLAS, then three storage
/// buffers), push-constant range, ray recursion depth and the byte size of
/// the IR accumulation buffer.
pub struct AcousticPipelinePlan {
    pub stages: Vec<ShaderStage>,
    pub bindings: Vec<RtDescriptorBindingSpec>,
    pub push_constant_range: RtPushConstantSpec,
    pub max_ray_recursion_depth: u32,
    pub ir_buffer_bytes: usize,
}

/// Plans the acoustic pipeline for impulse responses of `num_samples`
/// samples at `sample_rate`, rays of up to `max_bounces` bounces and push
/// constants of `push_constant_size` bytes.
pub fn acoustic_pipeline_plan(
    sample_rate: u32,
    num_samples: u32,
    max_bounces: u32,
    push_constant_size: u32,
) -> (result: SoundResult<AcousticPipelinePlan>)
    requires
        num_samples * GPU_IR_SAMPLE_BYTES <= usize::MAX,
    ensures
        result is Ok <==> (sample_rate > 0 && num_samples > 0),
        result is Err ==> result->Err_0@.code == ErrorCode::InvalidArgument,
        result matches Ok(plan) ==> {
            &&& plan.stages@ == seq![ShaderStage::RayGeneration, ShaderStage::RayMiss, ShaderStage::RayClosestHit,
                ShaderStage::RayClosestHit, ShaderStage::RayIntersection]
            &&& plan.bindings@.len() == 4
            &&& plan.bindings@[0] == (RtDescriptorBindingSpec::AccelerationStructure {
                binding: 0, descriptor_count: 1, stage_flags: crate::gpu::rt::DEFAULT_RT_STAGE_FLAGS })
            &&& forall|b: int| 1 <= b < 4 ==> #[trigger] plan.bindings@[b] == (RtDescriptorBindingSpec::StorageBuffer {
                binding: b as u32, descriptor_count: 1, stage_flags: crate::gpu::rt::DEFAULT_RT_STAGE_FLAGS })
            &&& plan.push_constant_range == (RtPushConstantSpec {
                offset: 0, size: push_constant_size, stage_flags: crate::gpu::rt::DEFAULT_RT_STAGE_FLAGS })
            &&& plan.max_ray_recursion_depth == if max_bounces == u32::MAX { u32::MAX as int } else { max_bounces + 1 }
            &&& plan.ir_buffer_bytes == num_samples * GPU_IR_SAMPLE_BYTES
        },
{
    validate_ir_dimensions(sample_rate, num_samples)?;
    let mut stages: Vec<ShaderStage> = Vec::new();
    stages.push(ShaderStage::RayGeneration);
    stages.push(ShaderStage::RayMiss);
    stages.push(ShaderStage::RayClosestHit);
    stages.push(ShaderStage::RayClosestHit);
    stages.push(ShaderStage::RayIntersection);
    let mut bindings: Vec<RtDescriptorBindingSpec> = Vec::new();
    bindings.push(RtDescriptorBindingSpec::acceleration_structure(0));
    bindings.push(RtDescriptorBindingSpec::storage_buffer(1));
    bindings.push(RtDescriptorBindingSpec::storage_buffer(2));
    bindings.push(RtDescriptorBindingSpec::storage_buffer(3));
    assert(stages@ =~= seq![ShaderStage::RayGeneration, ShaderStage::RayMiss, ShaderStage::RayClosestHit,
        ShaderStage::RayClosestHit, ShaderStage::RayIntersection]);
    Ok(AcousticPipelinePlan {
        stages,
        bindings,
        push_constant_range: RtPushConstantSpec::new(0, push_constant_size),
        max_ray_recursion_depth: ray_recursion_depth(max_bounces),
        ir_buffer_bytes: ir_buffer_size(num_samples),
    })
}

} // verus!
