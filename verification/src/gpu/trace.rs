use vstd::prelude::*;
use crate::gpu::registry::HandleRegistry;
use crate::gpu::rt::{
    push_constants_fit, push_constants_fit_pipeline, validate_trace_dimensions, RtPipelineId, RtPushConstantSpec,
    SbtRegion, TlasId, DEFAULT_RT_STAGE_FLAGS,
};
use crate::sound_core::error::{ErrorCode, SoundError, SoundResult};

verus! {

/// What recording a trace needs of a built RT pipeline: its push-constant
/// ranges and its shader binding table regions.
pub struct RtTracePipeline {
    pub push_constant_ranges: Vec<RtPushConstantSpec>,
    pub raygen_region: SbtRegion,
    pub miss_region: SbtRegion,
    pub hit_region: SbtRegion,
    pub callable_region: SbtRegion,
}

/// Descriptor write of one RT trace dispatch.
#[derive(Debug, Clone, Copy, PartialEq, Eq, Structural)]
pub enum RtDescriptorWrite {
    /// Binds a TLAS at `binding`.
    AccelerationStructure { binding: u32, tlas_id: TlasId },
    /// Binds `range` bytes of `buffer` from `offset` at `binding`.
    StorageBuffer { binding: u32, buffer: u64, offset: u64, range: u64 },
}

impl RtDescriptorWrite {
    /// An acceleration-structure descriptor write.
    pub fn acceleration_structure(binding: u32, tlas_id: TlasId) -> (write: Self)
        ensures
            write == (RtDescriptorWrite::AccelerationStructure { binding, tlas_id }),
    {
        RtDescriptorWrite::AccelerationStructure { binding, tlas_id }
    }

    /// A storage-buffer descriptor write covering the whole buffer.
    pub fn storage_buffer(binding: u32, buffer: u64) -> (write: Self)
        ensures
            write == (RtDescriptorWrite::StorageBuffer { binding, buffer, offset: 0, range: 0xffff_ffff_ffff_ffff }),
    {
        RtDescriptorWrite::StorageBuffer { binding, buffer, offset: 0, range: 0xffff_ffff_ffff_ffff }
    }
}

/// One ray tracing dispatch to record.
pub struct RtTraceSpec {
    /// Pipeline to bind.
    pub pipeline_id: RtPipelineId,
    /// Descriptor writes of this trace.
    pub descriptor_writes: Vec<RtDescriptorWrite>,
    /// Number of push-constant bytes to upload.
    pub push_constant_len: usize,
    /// Offset where the push constants are written.
    pub push_constant_offset: u32,
    /// Trace dimensions.
    pub dimensions: [u32; 3],
    /// Whether a shader-write to host-read barrier follows the trace.
    pub barrier_after_trace: bool,
}

/// One step of recording a trace.
#[derive(Debug, Clone, Copy, PartialEq, Eq, Structural)]
pub enum TraceCommand {
    /// Writes the TLAS with device handle `handle` at `binding`.
    WriteAccelerationStructure { binding: u32, handle: u64 },
    /// Writes a storage-buffer descriptor.
    WriteStorageBuffer { binding: u32, buffer: u64, offset: u64, range: u64 },
    /// Binds the pipeline.
    BindPipeline,
    /// Binds the trace's descriptor set as set 0.
    BindDescriptorSet,
    /// Uploads `len` push-constant bytes at `offset` for the `stages`.
    PushConstants { offset: u32, len: usize, stages: u32 },
    /// Traces `width` by `height` by `depth` rays through the four binding
    /// table regions.
    TraceRays { raygen: SbtRegion, miss: SbtRegion, hit: SbtRegion, callable: SbtRegion, width: u32, height: u32, depth: u32 },
    /// Makes shader writes visible to host reads.
    HostReadBarrier,
}

/// Whether every TLAS that the writes name is registered.
pub open spec fn writes_resolve(writes: Seq<RtDescriptorWrite>, tlas: Map<u32, u64>) -> bool {
    forall|i: int| 0 <= i < writes.len() ==> match #[trigger] writes[i] {
        RtDescriptorWrite::AccelerationStructure { tlas_id, .. } => tlas.contains_key(tlas_id.0),
        _ => true,
    }
}

/// The descriptor command of one write.
pub open spec fn write_command(write: RtDescriptorWrite, tlas: Map<u32, u64>) -> TraceCommand {
    match write {
        RtDescriptorWrite::AccelerationStructure { binding, tlas_id } =>
            TraceCommand::WriteAccelerationStructure { binding, handle: tlas[tlas_id.0] },
        RtDescriptorWrite::StorageBuffer { binding, buffer, offset, range } =>
            TraceCommand::WriteStorageBuffer { binding, buffer, offset, range },
    }
}

/// The commands that record a trace: the descriptor writes in order, the
/// pipeline and set bindings, the push constants when there are any, the
/// trace itself and the barrier when asked for.
pub open spec fn trace_commands(pipeline: RtTracePipeline, spec: RtTraceSpec, tlas: Map<u32, u64>) -> Seq<TraceCommand> {
    let writes = spec.descriptor_writes@.map_values(|w: RtDescriptorWrite| write_command(w, tlas));
    let push = if spec.push_constant_len > 0 {
        seq![TraceCommand::PushConstants {
            offset: spec.push_constant_offset,
            len: spec.push_constant_len,
            stages: DEFAULT_RT_STAGE_FLAGS,
        }]
    } else {
        Seq::empty()
    };
    let trace = TraceCommand::TraceRays {
        raygen: pipeline.raygen_region,
        miss: pipeline.miss_region,
        hit: pipeline.hit_region,
        callable: pipeline.callable_region,
        width: spec.dimensions[0],
        height: spec.dimensions[1],
        depth: spec.dimensions[2],
    };
    let barrier = if spec.barrier_after_trace { seq![TraceCommand::HostReadBarrier] } else { Seq::empty() };
    writes + seq![TraceCommand::BindPipeline, TraceCommand::BindDescriptorSet] + push + seq![trace] + barrier
}

/// Position of the trace command among the commands of a recording: after
/// the descriptor writes, the two bindings and the push constants if any.
pub open spec fn trace_position(spec: RtTraceSpec) -> int {
    spec.descriptor_writes@.len() + 2 + if spec.push_constant_len > 0 { 1int } else { 0int }
}

/// Whether the commands hold exactly one trace command, at its position, and
/// it traces the requested dimensions through the pipeline's raygen, miss,
/// hit and callable regions, each in its own place.
pub open spec fn traces_through_pipeline(commands: Seq<TraceCommand>, pipeline: RtTracePipeline, spec: RtTraceSpec) -> bool {
    let at = trace_position(spec);
    &&& 0 <= at < commands.len()
    &&& commands[at] matches TraceCommand::TraceRays { raygen, miss, hit, callable, width, height, depth }
    &&& raygen == pipeline.raygen_region
    &&& miss == pipeline.miss_region
    &&& hit == pipeline.hit_region
    &&& callable == pipeline.callable_region
    &&& width == spec.dimensions[0]
    &&& height == spec.dimensions[1]
    &&& depth == spec.dimensions[2]
    &&& forall|k: int| 0 <= k < commands.len() && k != at ==> !(#[trigger] commands[k] is TraceRays)
}

/// A recorded trace sends its rays through the pipeline's own shader binding
/// table: raygen through the raygen region, misses through the miss region,
/// hits through the hit region and callables through the callable region,
/// over the requested width, height and depth, in one trace command placed
/// after the writes, the bindings and the push constants.
pub proof fn law_trace_uses_pipeline_regions(pipeline: RtTracePipeline, spec: RtTraceSpec, tlas: Map<u32, u64>)
    ensures
        traces_through_pipeline(trace_commands(pipeline, spec, tlas), pipeline, spec),
{
    let commands = trace_commands(pipeline, spec, tlas);
    let n = spec.descriptor_writes@.len();
    assert forall|k: int| 0 <= k < commands.len() && k != trace_position(spec)
        implies !(#[trigger] commands[k] is TraceRays) by {
        if k < n {
            let w = spec.descriptor_writes@[k];
            assert(commands[k] == write_command(w, tlas));
        }
    }
}

/// Plans the recording of a trace.
///
/// Fails with `InvalidArgument` for a zero dimension, `NotFound` for an
/// unknown pipeline, `InvalidArgument` for push constants outside the
/// pipeline's ranges and `NotFound` for a write naming an unknown TLAS, in
/// that order; otherwise returns the commands in recording order.
pub fn trace_plan(
    pipelines: &HandleRegistry<RtTracePipeline>,
    tlas: &HandleRegistry<u64>,
    spec: &RtTraceSpec,
) -> (result: SoundResult<Vec<TraceCommand>>)
    ensures
        ({
            let dims_ok = spec.dimensions[0] > 0 && spec.dimensions[1] > 0 && spec.dimensions[2] > 0;
            let pipelines_map = pipelines.spec_entries();
            let id = spec.pipeline_id.0;
            if !dims_ok {
                result is Err && result->Err_0@.code == ErrorCode::InvalidArgument
            } else if !pipelines_map.contains_key(id) {
                result is Err && result->Err_0@.code == ErrorCode::NotFound
            } else if !push_constants_fit(spec.push_constant_offset, spec.push_constant_len,
                pipelines_map[id].push_constant_ranges@) {
                result is Err && result->Err_0@.code == ErrorCode::InvalidArgument
            } else if !writes_resolve(spec.descriptor_writes@, tlas.spec_entries()) {
                result is Err && result->Err_0@.code == ErrorCode::NotFound
            } else {
                result matches Ok(commands) && commands@ == trace_commands(pipelines_map[id], *spec, tlas.spec_entries())
                    && traces_through_pipeline(commands@, pipelines_map[id], *spec)
            }
        }),
{
    validate_trace_dimensions(spec.dimensions)?;
    let pipeline = pipelines.get(spec.pipeline_id.0)?;
    if !push_constants_fit_pipeline(spec.push_constant_offset, spec.push_constant_len,
        pipeline.push_constant_ranges.as_slice()) {
        return Err(SoundError::invalid_argument("RT push constants do not fit the pipeline's ranges"));
    }
    let writes = &spec.descriptor_writes;
    let ghost tlas_map = tlas.spec_entries();
    let mut commands: Vec<TraceCommand> = Vec::new();
    let mut i: usize = 0;
    while i < writes.len()
        invariant
            i <= writes@.len(),
            tlas_map == tlas.spec_entries(),
            spec.dimensions[0] > 0 && spec.dimensions[1] > 0 && spec.dimensions[2] > 0,
            pipelines.spec_entries().contains_key(spec.pipeline_id.0),
            *pipeline == pipelines.spec_entries()[spec.pipeline_id.0],
            push_constants_fit(spec.push_constant_offset, spec.push_constant_len, pipeline.push_constant_ranges@),
            writes == &spec.descriptor_writes,
            commands@ == writes@.subrange(0, i as int).map_values(|w: RtDescriptorWrite| write_command(w, tlas_map)),
            forall|k: int| 0 <= k < i ==> match #[trigger] writes@[k] {
                RtDescriptorWrite::AccelerationStructure { tlas_id, .. } => tlas_map.contains_key(tlas_id.0),
                _ => true,
            },
        decreases writes@.len() - i,
    {
        let command = match writes[i] {
            RtDescriptorWrite::AccelerationStructure { binding, tlas_id } => {
                let handle = match tlas.get(tlas_id.0) {
                    Ok(handle) => *handle,
                    Err(error) => {
                        proof {
                            assert(!writes_resolve(writes@, tlas_map)) by {
                                assert(match writes@[i as int] {
                                    RtDescriptorWrite::AccelerationStructure { tlas_id, .. } => !tlas_map.contains_key(tlas_id.0),
                                    _ => false,
                                });
                            }
                        }
                        return Err(error);
                    },
                };
                TraceCommand::WriteAccelerationStructure { binding, handle }
            },
            RtDescriptorWrite::StorageBuffer { binding, buffer, offset, range } =>
                TraceCommand::WriteStorageBuffer { binding, buffer, offset, range },
        };
        let ghost before = commands@;
        commands.push(command);
        proof {
            assert(writes@.subrange(0, i + 1) =~= writes@.subrange(0, i as int).push(writes@[i as int]));
            assert(commands@ =~= writes@.subrange(0, i + 1).map_values(|w: RtDescriptorWrite| write_command(w, tlas_map)));
        }
        i = i + 1;
    }
    proof {
        assert(writes@.subrange(0, writes@.len() as int) =~= writes@);
    }
    commands.push(TraceCommand::BindPipeline);
    commands.push(TraceCommand::BindDescriptorSet);
    if spec.push_constant_len > 0 {
        commands.push(TraceCommand::PushConstants {
            offset: spec.push_constant_offset,
            len: spec.push_constant_len,
            stages: DEFAULT_RT_STAGE_FLAGS,
        });
    }
    commands.push(TraceCommand::TraceRays {
        raygen: pipeline.raygen_region,
        miss: pipeline.miss_region,
        hit: pipeline.hit_region,
        callable: pipeline.callable_region,
        width: spec.dimensions[0],
        height: spec.dimensions[1],
        depth: spec.dimensions[2],
    });
    if spec.barrier_after_trace {
        commands.push(TraceCommand::HostReadBarrier);
    }
    assert(commands@ =~= trace_commands(*pipeline, *spec, tlas_map));
    proof {
        law_trace_uses_pipeline_regions(*pipeline, *spec, tlas_map);
    }
    Ok(commands)
}

} // verus!
