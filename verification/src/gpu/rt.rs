use vstd::prelude::*;
use vstd::arithmetic::div_mod::lemma_fundamental_div_mod_converse;
use crate::sound_core::error::{ErrorCode, SoundError, SoundResult};
use crate::gpu::shader::{ShaderId, ShaderStage};

verus! {

/// Whether `value` is a power of two.
pub open spec fn is_power_of_two(value: usize) -> bool {
    value > 0 && value & ((value - 1) as usize) == 0
}

/// Whether `value` is a multiple of the power-of-two `alignment`.
pub open spec fn is_aligned(value: usize, alignment: usize) -> bool {
    value & ((alignment - 1) as usize) == 0
}

proof fn lemma_align_up_bits(value: usize, alignment: usize)
    by (bit_vector)
    requires
        alignment > 0,
        alignment & ((alignment - 1) as usize) == 0,
        ((value + alignment - 1) as usize) == value + alignment - 1,
    ensures
        (((value + alignment - 1) as usize) & !((alignment - 1) as usize)) >= value,
        (((value + alignment - 1) as usize) & !((alignment - 1) as usize)) < value + alignment,
        (((value + alignment - 1) as usize) & !((alignment - 1) as usize)) & ((alignment - 1) as usize) == 0,
{
}

/// Rounds `value` up to the next multiple of the power-of-two `alignment`.
pub fn align_up(value: usize, alignment: usize) -> (aligned: usize)
    requires
        is_power_of_two(alignment),
        value + alignment - 1 <= usize::MAX,
    ensures
        value <= aligned < value + alignment,
        is_aligned(aligned, alignment),
{
    proof {
        lemma_align_up_bits(value, alignment);
    }
    (value + (alignment - 1)) & !(alignment - 1)
}


/// Stable handle to a bottom-level acceleration structure.
#[derive(Debug, Clone, Copy, PartialEq, Eq, Hash, Structural)]
pub struct BlasId(pub u32);

/// Stable handle to a top-level acceleration structure.
#[derive(Debug, Clone, Copy, PartialEq, Eq, Hash, Structural)]
pub struct TlasId(pub u32);

/// Stable handle to a ray tracing pipeline.
#[derive(Debug, Clone, Copy, PartialEq, Eq, Hash, Structural)]
pub struct RtPipelineId(pub u32);

/// One shader stage in an RT pipeline.
#[derive(Debug, Clone, Copy)]
pub struct RtShaderStageSpec {
    /// Shader module ID previously loaded through the shader library.
    pub shader_id: ShaderId,
}

impl RtShaderStageSpec {
    /// Creates a shader stage spec from an existing shader ID.
    pub fn new(shader_id: ShaderId) -> (spec: Self)
        ensures
            spec.shader_id == shader_id,
    {
        RtShaderStageSpec { shader_id }
    }
}

/// Shader group entry used to build the RT pipeline and SBT regions.
#[derive(Debug, Clone, Copy, PartialEq, Eq, Structural)]
pub enum RtShaderGroupSpec {
    /// Ray-generation group referencing a general shader stage index.
    Raygen { shader: u32 },
    /// Miss group referencing a general shader stage index.
    Miss { shader: u32 },
    /// Triangle hit group referencing a closest-hit shader stage index.
    TrianglesHit { closest_hit_shader: u32 },
    /// Callable group referencing a general shader stage index.
    Callable { shader: u32 },
}

/// SBT region that a shader group belongs to.
#[derive(Debug, Clone, Copy, PartialEq, Eq, Structural)]
pub enum RtGroupKind {
    Raygen,
    Miss,
    Hit,
    Callable,
}

impl RtShaderGroupSpec {
    pub open spec fn spec_kind(self) -> RtGroupKind {
        match self {
            RtShaderGroupSpec::Raygen { .. } => RtGroupKind::Raygen,
            RtShaderGroupSpec::Miss { .. } => RtGroupKind::Miss,
            RtShaderGroupSpec::TrianglesHit { .. } => RtGroupKind::Hit,
            RtShaderGroupSpec::Callable { .. } => RtGroupKind::Callable,
        }
    }

    /// Index of the shader stage the group references.
    pub open spec fn spec_shader_index(self) -> u32 {
        match self {
            RtShaderGroupSpec::Raygen { shader } => shader,
            RtShaderGroupSpec::Miss { shader } => shader,
            RtShaderGroupSpec::TrianglesHit { closest_hit_shader } => closest_hit_shader,
            RtShaderGroupSpec::Callable { shader } => shader,
        }
    }

    /// Stage that the referenced shader must have.
    pub open spec fn spec_expected_stage(self) -> ShaderStage {
        match self {
            RtShaderGroupSpec::Raygen { .. } => ShaderStage::RayGeneration,
            RtShaderGroupSpec::Miss { .. } => ShaderStage::RayMiss,
            RtShaderGroupSpec::TrianglesHit { .. } => ShaderStage::RayClosestHit,
            RtShaderGroupSpec::Callable { .. } => ShaderStage::RayCallable,
        }
    }

    /// Returns the SBT region of this group.
    pub fn kind(self) -> (kind: RtGroupKind)
        ensures
            kind == self.spec_kind(),
    {
        match self {
            RtShaderGroupSpec::Raygen { .. } => RtGroupKind::Raygen,
            RtShaderGroupSpec::Miss { .. } => RtGroupKind::Miss,
            RtShaderGroupSpec::TrianglesHit { .. } => RtGroupKind::Hit,
            RtShaderGroupSpec::Callable { .. } => RtGroupKind::Callable,
        }
    }
}

/// Whether a group references an existing shader of the stage it needs.
pub open spec fn group_ok(stages: Seq<ShaderStage>, group: RtShaderGroupSpec) -> bool {
    &&& (group.spec_shader_index() as int) < stages.len()
    &&& stages[group.spec_shader_index() as int] == group.spec_expected_stage()
}

/// Checks that shader `index` exists and has the `expected` stage.
pub fn validate_group_stage(stages: &[ShaderStage], index: u32, expected: ShaderStage) -> (result: SoundResult<()>)
    ensures
        result is Ok <==> ((index as int) < stages@.len() && stages@[index as int] == expected),
        result is Err ==> result->Err_0@.code == ErrorCode::InvalidArgument,
{
    if index as usize >= stages.len() {
        return Err(SoundError::invalid_argument("RT shader group references invalid shader index"));
    }
    if stages[index as usize] != expected {
        return Err(SoundError::invalid_argument("RT shader group references a shader of the wrong stage"));
    }
    Ok(())
}

/// Checks every shader group against the pipeline's shader stages.
pub fn validate_groups(stages: &[ShaderStage], groups: &[RtShaderGroupSpec]) -> (result: SoundResult<()>)
    ensures
        result is Ok <==> forall|g: int| 0 <= g < groups@.len() ==> #[trigger] group_ok(stages@, groups@[g]),
        result is Err ==> result->Err_0@.code == ErrorCode::InvalidArgument,
{
    let mut i: usize = 0;
    while i < groups.len()
        invariant
            i <= groups@.len(),
            forall|g: int| 0 <= g < i ==> #[trigger] group_ok(stages@, groups@[g]),
        decreases groups@.len() - i,
    {
        let group = groups[i];
        let checked = match group {
            RtShaderGroupSpec::Raygen { shader } => validate_group_stage(stages, shader, ShaderStage::RayGeneration),
            RtShaderGroupSpec::Miss { shader } => validate_group_stage(stages, shader, ShaderStage::RayMiss),
            RtShaderGroupSpec::Callable { shader } => validate_group_stage(stages, shader, ShaderStage::RayCallable),
            RtShaderGroupSpec::TrianglesHit { closest_hit_shader } =>
                validate_group_stage(stages, closest_hit_shader, ShaderStage::RayClosestHit),
        };
        if checked.is_err() {
            assert(!group_ok(stages@, groups@[i as int]));
            return checked;
        }
        i = i + 1;
    }
    Ok(())
}

/// Whether a shader stage can be part of a ray tracing pipeline.
pub open spec fn is_rt_stage(stage: ShaderStage) -> bool {
    stage != ShaderStage::Compute
}

/// Rejects a compute shader as an RT pipeline stage.
pub fn validate_rt_stage(stage: ShaderStage) -> (result: SoundResult<()>)
    ensures
        result is Ok <==> is_rt_stage(stage),
        result is Err ==> result->Err_0@.code == ErrorCode::InvalidArgument,
{
    match stage {
        ShaderStage::Compute => Err(SoundError::invalid_argument("Compute shader cannot be used in an RT pipeline")),
        _ => Ok(()),
    }
}

/// Whether shaders and groups describe a buildable RT pipeline.
pub open spec fn rt_pipeline_ok(stages: Seq<ShaderStage>, groups: Seq<RtShaderGroupSpec>) -> bool {
    &&& stages.len() > 0
    &&& groups.len() > 0
    &&& forall|s: int| 0 <= s < stages.len() ==> #[trigger] is_rt_stage(stages[s])
    &&& forall|g: int| 0 <= g < groups.len() ==> #[trigger] group_ok(stages, groups[g])
}

/// Checks an RT pipeline description before any Vulkan object is created:
/// at least one shader and one group, only RT stages, and groups that
/// reference existing shaders of the right stage.
pub fn validate_rt_pipeline(stages: &[ShaderStage], groups: &[RtShaderGroupSpec]) -> (result: SoundResult<()>)
    ensures
        result is Ok <==> rt_pipeline_ok(stages@, groups@),
        result is Err ==> result->Err_0@.code == ErrorCode::InvalidArgument,
{
    if stages.len() == 0 {
        return Err(SoundError::invalid_argument("RT pipeline requires at least one shader"));
    }
    if groups.len() == 0 {
        return Err(SoundError::invalid_argument("RT pipeline requires at least one shader group"));
    }
    let mut i: usize = 0;
    while i < stages.len()
        invariant
            i <= stages@.len(),
            forall|s: int| 0 <= s < i ==> #[trigger] is_rt_stage(stages@[s]),
        decreases stages@.len() - i,
    {
        let checked = validate_rt_stage(stages[i]);
        if checked.is_err() {
            return checked;
        }
        i = i + 1;
    }
    validate_groups(stages, groups)
}

/// A strided region of the shader binding table.
#[derive(Debug, Clone, Copy, PartialEq, Eq, Structural)]
pub struct SbtRegion {
    pub device_address: u64,
    pub stride: u64,
    pub size: u64,
}

/// Index of the first group of `kind`, if any.
pub open spec fn first_of_kind(groups: Seq<RtShaderGroupSpec>, kind: RtGroupKind) -> Option<int> {
    if exists|i: int| 0 <= i < groups.len() && groups[i].spec_kind() == kind {
        Some(choose|i: int| 0 <= i < groups.len() && groups[i].spec_kind() == kind
            && forall|j: int| 0 <= j < i ==> groups[j].spec_kind() != kind)
    } else {
        None
    }
}

/// Length of the run of `kind` groups that starts at `start`.
pub open spec fn run_length(groups: Seq<RtShaderGroupSpec>, start: int, kind: RtGroupKind) -> nat
    decreases groups.len() - start,
{
    if 0 <= start < groups.len() && groups[start].spec_kind() == kind {
        1 + run_length(groups, start + 1, kind)
    } else {
        0
    }
}

/// SBT region of the groups of `kind`: records start at the first such group
/// and the region spans the contiguous run of them.
pub open spec fn spec_region_for(
    groups: Seq<RtShaderGroupSpec>,
    base_address: u64,
    record_stride: nat,
    region_size: nat,
    kind: RtGroupKind,
) -> SbtRegion {
    match first_of_kind(groups, kind) {
        None => SbtRegion { device_address: 0, stride: 0, size: 0 },
        Some(start) => SbtRegion {
            device_address: (base_address + start * region_size) as u64,
            stride: record_stride as u64,
            size: (run_length(groups, start, kind) * record_stride) as u64,
        },
    }
}

proof fn lemma_run_length_bound(groups: Seq<RtShaderGroupSpec>, start: int, kind: RtGroupKind)
    requires
        0 <= start <= groups.len(),
    ensures
        start + run_length(groups, start, kind) <= groups.len(),
    decreases groups.len() - start,
{
    if start < groups.len() && groups[start].spec_kind() == kind {
        lemma_run_length_bound(groups, start + 1, kind);
    }
}

/// Computes the SBT region of the groups of `kind`.
pub fn region_for(
    groups: &[RtShaderGroupSpec],
    base_address: u64,
    record_stride: usize,
    region_size: usize,
    kind: RtGroupKind,
) -> (region: SbtRegion)
    requires
        base_address + groups@.len() * region_size <= u64::MAX,
        groups@.len() * region_size <= usize::MAX,
        groups@.len() * record_stride <= u64::MAX,
        groups@.len() * record_stride <= usize::MAX,
    ensures
        region == spec_region_for(groups@, base_address, record_stride as nat, region_size as nat, kind),
{
    let mut start: usize = 0;
    while start < groups.len() && groups[start].kind() != kind
        invariant
            start <= groups@.len(),
            forall|j: int| 0 <= j < start ==> groups@[j].spec_kind() != kind,
        decreases groups@.len() - start,
    {
        start = start + 1;
    }
    if start == groups.len() {
        assert(!(exists|i: int| 0 <= i < groups@.len() && groups@[i].spec_kind() == kind));
        return SbtRegion { device_address: 0, stride: 0, size: 0 };
    }
    proof {
        let c = choose|i: int| 0 <= i < groups@.len() && groups@[i].spec_kind() == kind
            && forall|j: int| 0 <= j < i ==> groups@[j].spec_kind() != kind;
        assert(0 <= start < groups@.len() && groups@[start as int].spec_kind() == kind
            && forall|j: int| 0 <= j < start ==> groups@[j].spec_kind() != kind);
        if c < start as int {
            assert(groups@[c].spec_kind() != kind);
        } else if c > start as int {
            assert(groups@[start as int].spec_kind() != kind);
        }
        assert(first_of_kind(groups@, kind) == Some(start as int));
    }
    let mut count: usize = 0;
    while start + count < groups.len() && groups[start + count].kind() == kind
        invariant
            groups@.len() <= usize::MAX,
            start < groups@.len(),
            start + count <= groups@.len(),
            run_length(groups@, start as int, kind) == count + run_length(groups@, start + count, kind),
        decreases groups@.len() - start - count,
    {
        count = count + 1;
    }
    proof {
        lemma_run_length_bound(groups@, start as int, kind);
        assert(count * record_stride <= groups@.len() * record_stride) by (nonlinear_arith)
            requires count <= groups@.len();
        assert(start * region_size <= groups@.len() * region_size) by (nonlinear_arith)
            requires start <= groups@.len();
    }
    SbtRegion {
        device_address: base_address + (start * region_size) as u64,
        stride: record_stride as u64,
        size: (count * record_stride) as u64,
    }
}

/// Layout of the shader binding table: each group handle is placed in its
/// own `region_size` slot, itself a multiple of the base alignment, with a
/// record stride that respects the handle alignment.
#[derive(Debug, Clone, Copy)]
pub struct SbtLayout {
    pub record_stride: usize,
    pub region_size: usize,
    pub total_size: usize,
}

/// Computes the SBT layout for `group_count` handles of `handle_size` bytes.
pub fn sbt_layout(handle_size: usize, handle_alignment: usize, base_alignment: usize, group_count: usize) -> (layout: SbtLayout)
    requires
        is_power_of_two(handle_alignment),
        is_power_of_two(base_alignment),
        handle_size + handle_alignment + base_alignment <= usize::MAX,
        (handle_size + handle_alignment + base_alignment) * group_count <= usize::MAX,
    ensures
        handle_size <= layout.record_stride < handle_size + handle_alignment,
        is_aligned(layout.record_stride, handle_alignment),
        layout.record_stride <= layout.region_size < layout.record_stride + base_alignment,
        is_aligned(layout.region_size, base_alignment),
        layout.total_size == layout.region_size * group_count,
{
    let record_stride = align_up(handle_size, handle_alignment);
    let region_size = align_up(record_stride, base_alignment);
    proof {
        assert(region_size * group_count <= (handle_size + handle_alignment + base_alignment) * group_count)
            by (nonlinear_arith)
            requires region_size <= handle_size + handle_alignment + base_alignment;
    }
    SbtLayout { record_stride, region_size, total_size: region_size * group_count }
}

/// Byte of the SBT at `index`: inside each group's slot the group's handle
/// comes first and the rest of the slot is zero.
pub open spec fn sbt_byte(handles: Seq<u8>, handle_size: nat, region_size: nat, index: int) -> u8 {
    let group = index / (region_size as int);
    let offset = index % (region_size as int);
    if offset < handle_size {
        handles[group * handle_size + offset]
    } else {
        0
    }
}

/// Copies each group handle into its base-aligned SBT slot.
pub fn pack_group_handles(handles: &[u8], handle_size: usize, region_size: usize, group_count: usize) -> (sbt: Vec<u8>)
    requires
        handles@.len() == handle_size * group_count,
        handle_size <= region_size,
        region_size * group_count <= usize::MAX,
    ensures
        sbt@.len() == region_size * group_count,
        forall|i: int| 0 <= i < sbt@.len() ==> #[trigger] sbt@[i] == sbt_byte(handles@, handle_size as nat, region_size as nat, i),
{
    let total = region_size * group_count;
    let mut sbt: Vec<u8> = Vec::new();
    if region_size == 0 {
        return sbt;
    }
    proof {
        if group_count == 0 {
            assert(region_size * group_count == 0);
        }
    }
    let handles_len = handles.len();
    assert(handles_len == handles@.len());
    let ghost rs = region_size as int;
    let ghost hs = handle_size as int;
    let mut group: usize = 0;
    let mut offset: usize = 0;
    let mut source_base: usize = 0;
    while sbt.len() < total
        invariant
            rs == region_size as int,
            hs == handle_size as int,
            0 < rs,
            hs <= rs,
            total == region_size * group_count,
            handles@.len() == handle_size * group_count,
            handles@.len() <= usize::MAX,
            sbt@.len() <= total,
            sbt@.len() == group * rs + offset,
            offset < rs,
            source_base == group * hs,
            sbt@.len() < total ==> group < group_count,
            forall|k: int| 0 <= k < sbt@.len() ==> #[trigger] sbt@[k] == sbt_byte(handles@, handle_size as nat, region_size as nat, k),
        decreases total - sbt@.len(),
    {
        proof {
            lemma_fundamental_div_mod_converse(sbt@.len() as int, rs, group as int, offset as int);
            if offset < handle_size {
                assert((group + 1) * hs <= group_count * hs) by (nonlinear_arith)
                    requires group + 1 <= group_count, hs >= 0;
                assert((group + 1) * hs == group * hs + hs) by (nonlinear_arith);
            }
        }
        let ghost before = sbt@;
        assert(group < group_count);
        if offset < handle_size {
            sbt.push(handles[source_base + offset]);
        } else {
            sbt.push(0);
        }
        proof {
            assert forall|k: int| 0 <= k < sbt@.len() implies #[trigger] sbt@[k] == sbt_byte(handles@, handle_size as nat, region_size as nat, k) by {
                if k < before.len() {
                    assert(sbt@[k] == before[k]);
                }
            }
        }
        if offset + 1 < region_size {
            offset = offset + 1;
        } else {
            proof {
                assert((group + 1) * rs == group * rs + rs) by (nonlinear_arith);
                assert((group + 1) * hs == group * hs + hs) by (nonlinear_arith);
                if sbt@.len() < total {
                    assert(group + 1 < group_count) by (nonlinear_arith)
                        requires (group + 1) * rs < rs * group_count, rs > 0;
                }
                assert((group + 1) * hs <= group_count * hs) by (nonlinear_arith)
                    requires group + 1 <= group_count, hs >= 0;
            }
            group = group + 1;
            offset = 0;
            source_base = source_base + handle_size;
        }
    }
    sbt
}

/// Raw Vulkan stage bits of every ray tracing shader stage: ray generation,
/// miss, closest hit, any hit, intersection and callable.
pub const DEFAULT_RT_STAGE_FLAGS: u32 = 0x3f00;

/// Descriptor binding kinds supported by RT pipelines.
#[derive(Debug, Clone, Copy, PartialEq, Eq, Structural)]
pub enum RtDescriptorBindingSpec {
    /// Acceleration-structure descriptor binding.
    AccelerationStructure { binding: u32, descriptor_count: u32, stage_flags: u32 },
    /// Storage-buffer descriptor binding.
    StorageBuffer { binding: u32, descriptor_count: u32, stage_flags: u32 },
}

impl RtDescriptorBindingSpec {
    /// Creates a single acceleration-structure binding visible to RT stages.
    pub fn acceleration_structure(binding: u32) -> (spec: Self)
        ensures
            spec == (RtDescriptorBindingSpec::AccelerationStructure {
                binding,
                descriptor_count: 1,
                stage_flags: DEFAULT_RT_STAGE_FLAGS,
            }),
    {
        RtDescriptorBindingSpec::AccelerationStructure { binding, descriptor_count: 1, stage_flags: DEFAULT_RT_STAGE_FLAGS }
    }

    /// Creates a single storage-buffer binding visible to RT stages.
    pub fn storage_buffer(binding: u32) -> (spec: Self)
        ensures
            spec == (RtDescriptorBindingSpec::StorageBuffer {
                binding,
                descriptor_count: 1,
                stage_flags: DEFAULT_RT_STAGE_FLAGS,
            }),
    {
        RtDescriptorBindingSpec::StorageBuffer { binding, descriptor_count: 1, stage_flags: DEFAULT_RT_STAGE_FLAGS }
    }
}

/// Push-constant byte range for an RT pipeline.
#[derive(Debug, Clone, Copy, PartialEq, Eq, Structural)]
pub struct RtPushConstantSpec {
    /// Byte offset within the pipeline layout.
    pub offset: u32,
    /// Byte size of the range.
    pub size: u32,
    /// Raw Vulkan stage bits allowed to read the range.
    pub stage_flags: u32,
}

impl RtPushConstantSpec {
    /// Creates a push-constant range visible to all RT shader stages.
    pub fn new(offset: u32, size: u32) -> (spec: Self)
        ensures
            spec == (RtPushConstantSpec { offset, size, stage_flags: DEFAULT_RT_STAGE_FLAGS }),
    {
        RtPushConstantSpec { offset, size, stage_flags: DEFAULT_RT_STAGE_FLAGS }
    }
}

/// Whether `push_len` push-constant bytes written at `push_offset` lie
/// inside one of the pipeline's ranges (a range's end saturates at `u32::MAX`).
/// The byte count is taken modulo 2^32, as the trace recording does.
pub open spec fn push_constants_fit(push_offset: u32, push_len: usize, ranges: Seq<RtPushConstantSpec>) -> bool {
    let len = push_len as u32;
    push_len == 0 || {
        &&& push_offset + len <= u32::MAX
        &&& exists|r: int| #![trigger ranges[r]] 0 <= r < ranges.len() && {
            let range_end = if ranges[r].offset + ranges[r].size > u32::MAX { u32::MAX as int } else { ranges[r].offset + ranges[r].size };
            push_offset >= ranges[r].offset && push_offset + len <= range_end
        }
    }
}

/// Checks that a trace's push constants fit one of the pipeline's ranges.
pub fn push_constants_fit_pipeline(push_offset: u32, push_len: usize, ranges: &[RtPushConstantSpec]) -> (fits: bool)
    ensures
        fits == push_constants_fit(push_offset, push_len, ranges@),
{
    if push_len == 0 {
        return true;
    }
    let len = push_len as u32;
    let end = match push_offset.checked_add(len) {
        Some(end) => end,
        None => return false,
    };
    let mut i: usize = 0;
    while i < ranges.len()
        invariant
            i <= ranges@.len(),
            end == push_offset + (push_len as u32),
            push_len != 0,
            forall|r: int| #![trigger ranges@[r]] 0 <= r < i ==> !({
                let range_end = if ranges@[r].offset + ranges@[r].size > u32::MAX { u32::MAX as int } else { ranges@[r].offset + ranges@[r].size };
                push_offset >= ranges@[r].offset && push_offset + (push_len as u32) <= range_end
            }),
        decreases ranges@.len() - i,
    {
        let range = ranges[i];
        let range_end = range.offset.saturating_add(range.size);
        if push_offset >= range.offset && end <= range_end {
            return true;
        }
        i = i + 1;
    }
    false
}

/// Checks that every trace dimension is non-zero.
pub fn validate_trace_dimensions(dimensions: [u32; 3]) -> (result: SoundResult<()>)
    ensures
        result is Ok <==> (dimensions[0] > 0 && dimensions[1] > 0 && dimensions[2] > 0),
        result is Err ==> result->Err_0@.code == ErrorCode::InvalidArgument,
{
    if dimensions[0] == 0 || dimensions[1] == 0 || dimensions[2] == 0 {
        return Err(SoundError::invalid_argument("RT trace dimensions must all be non-zero"));
    }
    Ok(())
}

/// Number of triangles a BLAS is built from: three indices per triangle for
/// an indexed mesh, three vertices otherwise.
pub open spec fn spec_triangle_count(vertex_count: u32, index_count: Option<u32>) -> u32 {
    match index_count {
        Some(indices) => indices / 3,
        None => vertex_count / 3,
    }
}

/// Counts the triangles of a BLAS mesh; a mesh without a whole triangle is
/// rejected.
pub fn blas_triangle_count(vertex_count: u32, index_count: Option<u32>) -> (result: SoundResult<u32>)
    ensures
        result is Ok <==> spec_triangle_count(vertex_count, index_count) > 0,
        result matches Ok(count) ==> count == spec_triangle_count(vertex_count, index_count),
        result is Err ==> result->Err_0@.code == ErrorCode::InvalidArgument,
{
    let count = match index_count {
        Some(indices) => indices / 3,
        None => vertex_count / 3,
    };
    if count == 0 {
        return Err(SoundError::invalid_argument("RT BLAS must contain at least one triangle"));
    }
    Ok(count)
}

/// Checks a triangle mesh before upload: at least one vertex, and a
/// non-empty index list when indices are given.
pub fn validate_mesh_upload(vertex_count: usize, index_count: Option<usize>) -> (result: SoundResult<()>)
    ensures
        result is Ok <==> (vertex_count > 0 && (index_count matches Some(n) ==> n > 0)),
        result is Err ==> result->Err_0@.code == ErrorCode::InvalidArgument,
{
    if vertex_count == 0 {
        return Err(SoundError::invalid_argument("RT mesh must contain at least one vertex"));
    }
    match index_count {
        Some(0) => Err(SoundError::invalid_argument("RT mesh index slice must not be empty")),
        _ => Ok(()),
    }
}

/// The opaque flag shared by all procedural AABB primitives of one upload;
/// an empty upload or one that mixes flags is rejected.
pub fn common_aabb_opacity(opaque: &[bool]) -> (result: SoundResult<bool>)
    ensures
        result is Ok <==> (opaque@.len() > 0 && forall|i: int| 0 <= i < opaque@.len() ==> #[trigger] opaque@[i] == opaque@[0]),
        result matches Ok(flag) ==> flag == opaque@[0],
        result is Err ==> result->Err_0@.code == ErrorCode::InvalidArgument,
{
    if opaque.len() == 0 {
        return Err(SoundError::invalid_argument("RT AABB build input must not be empty"));
    }
    let flag = opaque[0];
    let mut i: usize = 1;
    while i < opaque.len()
        invariant
            1 <= i <= opaque@.len(),
            flag == opaque@[0],
            forall|k: int| 0 <= k < i ==> #[trigger] opaque@[k] == flag,
        decreases opaque@.len() - i,
    {
        if opaque[i] != flag {
            return Err(SoundError::invalid_argument("RT AABB upload requires a single opaque flag for all primitives"));
        }
        i = i + 1;
    }
    Ok(flag)
}

/// Checks a TLAS build input: at least one instance.
pub fn validate_tlas_instances(instance_count: usize) -> (result: SoundResult<()>)
    ensures
        result is Ok <==> instance_count > 0,
        result is Err ==> result->Err_0@.code == ErrorCode::InvalidArgument,
{
    if instance_count == 0 {
        return Err(SoundError::invalid_argument("RT TLAS must contain at least one instance"));
    }
    Ok(())
}

} // verus!
