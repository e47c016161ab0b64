use vstd::prelude::*;
use crate::gpu::shader::{ShaderId, ShaderStage};
use crate::gpu::registry::HandleRegistry;
use crate::sound_core::error::{ErrorCode, SoundError, SoundResult};

verus! {

/// Token returned for an asynchronous compute submission.
#[derive(Debug, Clone, Copy, PartialEq, Eq, Hash, Structural)]
pub struct FrameToken(pub u64);

/// Stable handle to a compute pipeline stored in the compute context.
#[derive(Debug, Clone, Copy, PartialEq, Eq, Hash, Structural)]
pub struct PipelineId(u32);

impl PipelineId {
    /// Index of the pipeline in creation order.
    pub closed spec fn spec_index(self) -> u32 {
        self.0
    }

    /// Handle of the pipeline created `index`-th.
    pub fn from_index(index: u32) -> (id: Self)
        ensures
            id.spec_index() == index,
    {
        PipelineId(index)
    }

    /// Returns the pipeline's creation index.
    pub fn index(self) -> (index: u32)
        ensures
            index == self.spec_index(),
    {
        self.0
    }
}

/// Description used to create a compute pipeline.
pub struct ComputePipelineSpec {
    pub shader_id: ShaderId,
    pub descriptor_bindings: Vec<DescriptorBindingSpec>,
    pub push_constant_ranges: Vec<PushConstantSpec>,
}

/// Descriptor binding kinds supported by compute pipelines.
#[derive(Debug, Clone, Copy, PartialEq, Eq, Structural)]
pub enum DescriptorBindingSpec {
    StorageBuffer { binding: u32, descriptor_count: u32 },
}

impl DescriptorBindingSpec {
    /// A single storage-buffer descriptor at `binding`.
    pub fn storage_buffer(binding: u32) -> (spec: Self)
        ensures
            spec == (DescriptorBindingSpec::StorageBuffer { binding, descriptor_count: 1 }),
    {
        DescriptorBindingSpec::StorageBuffer { binding, descriptor_count: 1 }
    }

    /// An array of `descriptor_count` storage-buffer descriptors at `binding`.
    pub fn storage_buffer_array(binding: u32, descriptor_count: u32) -> (spec: Self)
        ensures
            spec == (DescriptorBindingSpec::StorageBuffer { binding, descriptor_count }),
    {
        DescriptorBindingSpec::StorageBuffer { binding, descriptor_count }
    }
}

/// Push-constant byte range for a compute pipeline.
#[derive(Debug, Clone, Copy, PartialEq, Eq, Structural)]
pub struct PushConstantSpec {
    pub offset: u32,
    pub size: u32,
}

impl PushConstantSpec {
    pub fn new(offset: u32, size: u32) -> (spec: Self)
        ensures
            spec == (PushConstantSpec { offset, size }),
    {
        PushConstantSpec { offset, size }
    }
}

/// Checks that a compute pipeline is built from a compute shader.
pub fn validate_compute_stage(stage: ShaderStage) -> (result: SoundResult<()>)
    ensures
        result is Ok <==> stage == ShaderStage::Compute,
        result is Err ==> result->Err_0@.code == ErrorCode::InvalidArgument,
{
    match stage {
        ShaderStage::Compute => Ok(()),
        _ => Err(SoundError::invalid_argument("create_pipeline requires a compute shader")),
    }
}

/// Number of 256-invocation workgroups that cover `count` elements.
pub fn workgroups_for(count: u32) -> (groups: u32)
    ensures
        groups == (count as int + 255) / 256,
{
    count / 256 + if count % 256 == 0 { 0 } else { 1 }
}

/// Descriptor count needed for one descriptor type (raw Vulkan type code).
#[derive(Debug, Clone, Copy, PartialEq, Eq, Structural)]
pub struct DescriptorPoolSize {
    pub ty: i32,
    pub descriptor_count: u32,
}

/// Total count that the bindings ask for `ty`.
pub open spec fn type_total(bindings: Seq<DescriptorPoolSize>, ty: i32) -> nat
    decreases bindings.len(),
{
    if bindings.len() == 0 {
        0
    } else {
        type_total(bindings.drop_last(), ty)
            + if bindings.last().ty == ty { bindings.last().descriptor_count as nat } else { 0 }
    }
}

/// Index of the first binding of `ty`, or -1 when there is none.
pub open spec fn first_index(bindings: Seq<DescriptorPoolSize>, ty: i32) -> int
    decreases bindings.len(),
{
    if bindings.len() == 0 {
        -1
    } else {
        let before = first_index(bindings.drop_last(), ty);
        if before >= 0 {
            before
        } else if bindings.last().ty == ty {
            bindings.len() - 1
        } else {
            -1
        }
    }
}

proof fn lemma_first_index_bounds(bindings: Seq<DescriptorPoolSize>, ty: i32)
    ensures
        -1 <= first_index(bindings, ty) < bindings.len(),
        first_index(bindings, ty) >= 0 ==> bindings[first_index(bindings, ty)].ty == ty,
    decreases bindings.len(),
{
    if bindings.len() > 0 {
        lemma_first_index_bounds(bindings.drop_last(), ty);
    }
}

proof fn lemma_total_prefix(bindings: Seq<DescriptorPoolSize>, n: int, ty: i32)
    requires
        0 <= n <= bindings.len(),
    ensures
        type_total(bindings.subrange(0, n), ty) <= type_total(bindings, ty),
    decreases bindings.len() - n,
{
    if n < bindings.len() {
        lemma_total_prefix(bindings, n + 1, ty);
        assert(bindings.subrange(0, n + 1).drop_last() =~= bindings.subrange(0, n));
    } else {
        assert(bindings.subrange(0, n) =~= bindings);
    }
}

/// Whether `pools` aggregates `bindings`: one entry per descriptor type,
/// in the order the types first appear, each with the type's total count.
pub open spec fn aggregates(pools: Seq<DescriptorPoolSize>, bindings: Seq<DescriptorPoolSize>) -> bool {
    &&& forall|i: int, j: int| 0 <= i < j < pools.len() ==> pools[i].ty != pools[j].ty
    &&& forall|i: int| #![trigger pools[i]] 0 <= i < pools.len() ==>
        pools[i].descriptor_count == type_total(bindings, pools[i].ty) && first_index(bindings, pools[i].ty) >= 0
    &&& forall|t: i32| first_index(bindings, t) >= 0 ==> exists|i: int| 0 <= i < pools.len() && #[trigger] pools[i].ty == t
    &&& forall|i: int, j: int| 0 <= i < j < pools.len() ==>
        first_index(bindings, pools[i].ty) < first_index(bindings, pools[j].ty)
}

/// Sums descriptor counts by type for descriptor-pool creation.
pub fn aggregate_pool_sizes(bindings: &[DescriptorPoolSize]) -> (pools: Vec<DescriptorPoolSize>)
    requires
        forall|k: int| 0 <= k < bindings@.len() ==> type_total(bindings@, #[trigger] bindings@[k].ty) <= u32::MAX,
    ensures
        aggregates(pools@, bindings@),
{
    let mut pools: Vec<DescriptorPoolSize> = Vec::new();
    let mut i: usize = 0;
    assert(bindings@.subrange(0, 0) =~= Seq::<DescriptorPoolSize>::empty());
    while i < bindings.len()
        invariant
            i <= bindings@.len(),
            forall|k: int| 0 <= k < bindings@.len() ==> type_total(bindings@, #[trigger] bindings@[k].ty) <= u32::MAX,
            aggregates(pools@, bindings@.subrange(0, i as int)),
        decreases bindings@.len() - i,
    {
        let binding = bindings[i];
        let ghost prefix = bindings@.subrange(0, i as int);
        let ghost next = bindings@.subrange(0, i + 1);
        proof {
            assert(next.drop_last() =~= prefix);
            assert(next.last() == binding);
            lemma_total_prefix(bindings@, i + 1, binding.ty);
            lemma_first_index_bounds(prefix, binding.ty);
            assert forall|t: i32| t != binding.ty implies
                type_total(next, t) == type_total(prefix, t) && first_index(next, t) == first_index(prefix, t) by {}
        }
        let mut j: usize = 0;
        while j < pools.len() && pools[j].ty != binding.ty
            invariant
                j <= pools@.len(),
                forall|k: int| 0 <= k < j ==> pools@[k].ty != binding.ty,
            decreases pools@.len() - j,
        {
            j = j + 1;
        }
        let ghost old_pools = pools@;
        if j < pools.len() {
            let existing = pools[j];
            proof {
                assert(existing.descriptor_count == type_total(prefix, binding.ty));
                assert(type_total(next, binding.ty) == type_total(prefix, binding.ty) + binding.descriptor_count);
                assert(type_total(next, binding.ty) <= u32::MAX) by {
                    assert(type_total(bindings@, bindings@[i as int].ty) <= u32::MAX);
                }
            }
            pools.set(j, DescriptorPoolSize { ty: existing.ty, descriptor_count: existing.descriptor_count + binding.descriptor_count });
            proof {
                assert forall|a: int| #![trigger pools@[a]] 0 <= a < pools@.len() implies
                    pools@[a].descriptor_count == type_total(next, pools@[a].ty) && first_index(next, pools@[a].ty) >= 0 by {
                    if a != j as int {
                        assert(pools@[a] == old_pools[a]);
                        assert(old_pools[a].ty != binding.ty);
                    }
                }
                assert forall|t: i32| first_index(next, t) >= 0 implies exists|a: int| 0 <= a < pools@.len() && #[trigger] pools@[a].ty == t by {
                    if t == binding.ty {
                        assert(pools@[j as int].ty == t);
                    } else {
                        let a = choose|a: int| 0 <= a < old_pools.len() && #[trigger] old_pools[a].ty == t;
                        assert(pools@[a].ty == t);
                    }
                }
                assert forall|a: int, b: int| 0 <= a < b < pools@.len() implies
                    first_index(next, pools@[a].ty) < first_index(next, pools@[b].ty) by {
                    assert(first_index(next, pools@[a].ty) == first_index(prefix, old_pools[a].ty));
                    assert(first_index(next, pools@[b].ty) == first_index(prefix, old_pools[b].ty));
                }
            }
        } else {
            proof {
                if first_index(prefix, binding.ty) >= 0 {
                    let a = choose|a: int| 0 <= a < old_pools.len() && #[trigger] old_pools[a].ty == binding.ty;
                    assert(old_pools[a].ty != binding.ty);
                }
                assert(first_index(next, binding.ty) == i as int);
                assert(type_total(prefix, binding.ty) == 0) by {
                    lemma_absent_total(prefix, binding.ty);
                }
                assert(type_total(next, binding.ty) == binding.descriptor_count);
            }
            pools.push(DescriptorPoolSize { ty: binding.ty, descriptor_count: binding.descriptor_count });
            proof {
                let last = old_pools.len() as int;
                assert forall|a: int| #![trigger pools@[a]] 0 <= a < pools@.len() implies
                    pools@[a].descriptor_count == type_total(next, pools@[a].ty) && first_index(next, pools@[a].ty) >= 0 by {
                    if a < last {
                        assert(pools@[a] == old_pools[a]);
                        assert(old_pools[a].ty != binding.ty);
                    }
                }
                assert forall|t: i32| first_index(next, t) >= 0 implies exists|a: int| 0 <= a < pools@.len() && #[trigger] pools@[a].ty == t by {
                    if t == binding.ty {
                        assert(pools@[last].ty == t);
                    } else {
                        let a = choose|a: int| 0 <= a < old_pools.len() && #[trigger] old_pools[a].ty == t;
                        assert(pools@[a].ty == t);
                    }
                }
                assert forall|a: int, b: int| 0 <= a < b < pools@.len() implies pools@[a].ty != pools@[b].ty by {
                    if b == last {
                        assert(pools@[a] == old_pools[a]);
                    }
                }
                assert forall|a: int, b: int| 0 <= a < b < pools@.len() implies
                    first_index(next, pools@[a].ty) < first_index(next, pools@[b].ty) by {
                    assert(pools@[a] == old_pools[a]);
                    assert(old_pools[a].ty != binding.ty);
                    lemma_first_index_bounds(prefix, old_pools[a].ty);
                    if b < last {
                        assert(pools@[b] == old_pools[b]);
                    }
                }
            }
        }
        i = i + 1;
    }
    assert(bindings@.subrange(0, bindings@.len() as int) =~= bindings@);
    pools
}

proof fn lemma_absent_total(bindings: Seq<DescriptorPoolSize>, ty: i32)
    requires
        first_index(bindings, ty) < 0,
    ensures
        type_total(bindings, ty) == 0,
    decreases bindings.len(),
{
    if bindings.len() > 0 {
        lemma_absent_total(bindings.drop_last(), ty);
    }
}

/// Whether no token occurs twice among the in-flight submissions.
pub open spec fn tokens_distinct<S>(entries: Seq<(u64, S)>) -> bool {
    forall|i: int, j: int| 0 <= i < entries.len() && 0 <= j < entries.len() && i != j ==> entries[i].0 != entries[j].0
}

/// Whether a submission with `token` is in flight.
pub open spec fn in_flight<S>(entries: Seq<(u64, S)>, token: u64) -> bool {
    exists|i: int| 0 <= i < entries.len() && entries[i].0 == token
}

/// Position of the submission with `token` (meaningful when in flight).
pub open spec fn token_position<S>(entries: Seq<(u64, S)>, token: u64) -> int {
    choose|i: int| 0 <= i < entries.len() && entries[i].0 == token
}

/// Submitted GPU work that has not been waited for yet, by frame token.
///
/// Tokens are handed out in increasing order, wrapping at `u64::MAX`; a
/// submission whose token is still in flight replaces the older one.
pub struct SubmissionTracker<S> {
    next_token: u64,
    in_flight: Vec<(u64, S)>,
}

impl<S> SubmissionTracker<S> {
    pub closed spec fn spec_next_token(&self) -> u64 {
        self.next_token
    }

    /// In-flight submissions with their tokens, oldest first.
    pub closed spec fn spec_in_flight(&self) -> Seq<(u64, S)> {
        self.in_flight@
    }

    pub open spec fn wf(&self) -> bool {
        tokens_distinct(self.spec_in_flight())
    }

    /// Creates a tracker whose first token is 1.
    pub fn new() -> (tracker: Self)
        ensures
            tracker.wf(),
            tracker.spec_next_token() == 1,
            tracker.spec_in_flight() == Seq::<(u64, S)>::empty(),
    {
        SubmissionTracker { next_token: 1, in_flight: Vec::new() }
    }

    fn find(&self, token: u64) -> (position: Option<usize>)
        requires
            self.wf(),
        ensures
            match position {
                Some(i) => i < self.spec_in_flight().len() && self.spec_in_flight()[i as int].0 == token
                    && in_flight(self.spec_in_flight(), token) && token_position(self.spec_in_flight(), token) == i,
                None => !in_flight(self.spec_in_flight(), token),
            },
    {
        let mut i: usize = 0;
        while i < self.in_flight.len()
            invariant
                i <= self.in_flight@.len(),
                tokens_distinct(self.in_flight@),
                forall|k: int| 0 <= k < i ==> self.in_flight@[k].0 != token,
            decreases self.in_flight@.len() - i,
        {
            if self.in_flight[i].0 == token {
                proof {
                    let j = token_position(self.in_flight@, token);
                    if j != i as int {
                        assert(self.in_flight@[j].0 != self.in_flight@[i as int].0);
                    }
                }
                return Some(i);
            }
            i = i + 1;
        }
        None
    }

    /// Records a submission and returns its token.
    pub fn track(&mut self, submission: S) -> (token: FrameToken)
        requires
            old(self).wf(),
        ensures
            final(self).wf(),
            token.0 == old(self).spec_next_token(),
            final(self).spec_next_token() == if token.0 == u64::MAX { 0 } else { (token.0 + 1) as u64 },
            in_flight(old(self).spec_in_flight(), token.0) ==> final(self).spec_in_flight()
                == old(self).spec_in_flight().update(token_position(old(self).spec_in_flight(), token.0), (token.0, submission)),
            !in_flight(old(self).spec_in_flight(), token.0) ==> final(self).spec_in_flight()
                == old(self).spec_in_flight().push((token.0, submission)),
    {
        let token = self.next_token;
        self.next_token = self.next_token.wrapping_add(1);
        match self.find(token) {
            Some(i) => {
                self.in_flight.set(i, (token, submission));
                proof {
                    assert forall|a: int, b: int| 0 <= a < self.in_flight@.len() && 0 <= b < self.in_flight@.len() && a != b
                        implies self.in_flight@[a].0 != self.in_flight@[b].0 by {
                        assert(old(self).in_flight@[a].0 != old(self).in_flight@[b].0);
                    }
                }
            },
            None => {
                self.in_flight.push((token, submission));
                proof {
                    assert forall|a: int, b: int| 0 <= a < self.in_flight@.len() && 0 <= b < self.in_flight@.len() && a != b
                        implies self.in_flight@[a].0 != self.in_flight@[b].0 by {
                        let n = old(self).in_flight@.len() as int;
                        if a < n && b < n {
                            assert(old(self).in_flight@[a].0 != old(self).in_flight@[b].0);
                        } else if a < n {
                            assert(self.in_flight@[a] == old(self).in_flight@[a]);
                        } else {
                            assert(self.in_flight@[b] == old(self).in_flight@[b]);
                        }
                    }
                }
            },
        }
        FrameToken(token)
    }

    /// Takes the submission of `token` out of the in-flight set; an unknown
    /// token is `NotFound`.
    pub fn take(&mut self, token: FrameToken) -> (result: SoundResult<S>)
        requires
            old(self).wf(),
        ensures
            final(self).wf(),
            final(self).spec_next_token() == old(self).spec_next_token(),
            result is Ok <==> in_flight(old(self).spec_in_flight(), token.0),
            result is Err ==> result->Err_0@.code == ErrorCode::NotFound
                && final(self).spec_in_flight() == old(self).spec_in_flight(),
            result matches Ok(submission) ==> {
                let i = token_position(old(self).spec_in_flight(), token.0);
                &&& submission == old(self).spec_in_flight()[i].1
                &&& final(self).spec_in_flight() == old(self).spec_in_flight().remove(i)
                &&& !in_flight(final(self).spec_in_flight(), token.0)
            },
    {
        match self.find(token.0) {
            Some(i) => {
                let (_, submission) = self.in_flight.remove(i);
                proof {
                    assert forall|a: int, b: int| 0 <= a < self.in_flight@.len() && 0 <= b < self.in_flight@.len() && a != b
                        implies self.in_flight@[a].0 != self.in_flight@[b].0 by {
                        let ia = if a < i { a } else { a + 1 };
                        let ib = if b < i { b } else { b + 1 };
                        assert(self.in_flight@[a] == old(self).in_flight@[ia]);
                        assert(self.in_flight@[b] == old(self).in_flight@[ib]);
                    }
                    if in_flight(self.in_flight@, token.0) {
                        let a = choose|a: int| 0 <= a < self.in_flight@.len() && self.in_flight@[a].0 == token.0;
                        let ia = if a < i { a } else { a + 1 };
                        assert(self.in_flight@[a] == old(self).in_flight@[ia]);
                        assert(old(self).in_flight@[ia].0 != old(self).in_flight@[i as int].0);
                    }
                }
                Ok(submission)
            },
            None => Err(SoundError::not_found("Unknown frame token")),
        }
    }

    /// Takes every in-flight submission, oldest first.
    pub fn take_all(&mut self) -> (submissions: Vec<(u64, S)>)
        requires
            old(self).wf(),
        ensures
            final(self).wf(),
            final(self).spec_next_token() == old(self).spec_next_token(),
            submissions@ == old(self).spec_in_flight(),
            final(self).spec_in_flight() == Seq::<(u64, S)>::empty(),
    {
        let mut taken: Vec<(u64, S)> = Vec::new();
        std::mem::swap(&mut taken, &mut self.in_flight);
        taken
    }

    /// Returns the number of in-flight submissions.
    pub fn len(&self) -> (len: usize)
        ensures
            len == self.spec_in_flight().len(),
    {
        self.in_flight.len()
    }
}

/// Reusable command buffers: completed buffers go back to the pool and are
/// handed out again before any new one is allocated.
pub struct CommandBufferPool<B> {
    available: Vec<B>,
}

impl<B> CommandBufferPool<B> {
    pub closed spec fn spec_available(&self) -> Seq<B> {
        self.available@
    }

    /// Creates a pool holding preallocated buffers.
    pub fn new(preallocated: Vec<B>) -> (pool: Self)
        ensures
            pool.spec_available() == preallocated@,
    {
        CommandBufferPool { available: preallocated }
    }

    /// Takes the most recently returned buffer, if any is available.
    pub fn acquire(&mut self) -> (buffer: Option<B>)
        ensures
            match buffer {
                Some(b) => old(self).spec_available().len() > 0
                    && b == old(self).spec_available().last()
                    && final(self).spec_available() == old(self).spec_available().drop_last(),
                None => old(self).spec_available().len() == 0 && final(self).spec_available() == old(self).spec_available(),
            },
    {
        self.available.pop()
    }

    /// Returns a buffer whose work completed.
    pub fn release(&mut self, buffer: B)
        ensures
            final(self).spec_available() == old(self).spec_available().push(buffer),
    {
        self.available.push(buffer);
    }

    /// Drops every pooled buffer.
    pub fn clear(&mut self)
        ensures
            final(self).spec_available() == Seq::<B>::empty(),
    {
        self.available.clear();
    }
}

/// Descriptor counts for a pool that holds `sets` descriptor sets of the
/// template's layout.
pub fn pool_sizes_for_sets(template: &[DescriptorPoolSize], sets: u32) -> (sizes: Vec<DescriptorPoolSize>)
    requires
        forall|k: int| 0 <= k < template@.len() ==> #[trigger] template@[k].descriptor_count * sets <= u32::MAX,
    ensures
        sizes@.len() == template@.len(),
        forall|k: int| 0 <= k < template@.len() ==> #[trigger] sizes@[k] == (DescriptorPoolSize {
            ty: template@[k].ty,
            descriptor_count: (template@[k].descriptor_count * sets) as u32,
        }),
{
    let mut sizes: Vec<DescriptorPoolSize> = Vec::new();
    let mut i: usize = 0;
    while i < template.len()
        invariant
            i <= template@.len(),
            sizes@.len() == i,
            forall|k: int| 0 <= k < template@.len() ==> #[trigger] template@[k].descriptor_count * sets <= u32::MAX,
            forall|k: int| 0 <= k < i ==> #[trigger] sizes@[k] == (DescriptorPoolSize {
                ty: template@[k].ty,
                descriptor_count: (template@[k].descriptor_count * sets) as u32,
            }),
        decreases template@.len() - i,
    {
        let size = template[i];
        assert(size.descriptor_count * sets <= u32::MAX);
        sizes.push(DescriptorPoolSize { ty: size.ty, descriptor_count: size.descriptor_count * sets });
        i = i + 1;
    }
    sizes
}

/// A submission can be waited for once: taking it removes its token.
pub proof fn law_token_waited_once<S>(entries: Seq<(u64, S)>, token: u64)
    requires
        tokens_distinct(entries),
        in_flight(entries, token),
    ensures
        !in_flight(entries.remove(token_position(entries, token)), token),
{
    let i = token_position(entries, token);
    let rest = entries.remove(i);
    if in_flight(rest, token) {
        let a = choose|a: int| 0 <= a < rest.len() && rest[a].0 == token;
        let ia = if a < i { a } else { a + 1 };
        assert(rest[a] == entries[ia]);
        assert(entries[ia].0 != entries[i].0);
    }
}

/// Raw Vulkan descriptor type of storage buffers.
pub const DESCRIPTOR_TYPE_STORAGE_BUFFER: i32 = 7;

/// Raw Vulkan shader stage flag of compute shaders.
pub const SHADER_STAGE_COMPUTE: u32 = 0x20;

/// Buffer range meaning "to the end of the buffer".
pub const WHOLE_SIZE: u64 = 0xffff_ffff_ffff_ffff;

/// One binding of a descriptor set layout, in raw Vulkan codes.
#[derive(Debug, Clone, Copy, PartialEq, Eq, Structural)]
pub struct LayoutBinding {
    pub binding: u32,
    pub descriptor_type: i32,
    pub descriptor_count: u32,
    pub stage_flags: u32,
}

/// The layout binding of one compute descriptor binding.
pub open spec fn spec_compute_layout_binding(spec: DescriptorBindingSpec) -> LayoutBinding {
    match spec {
        DescriptorBindingSpec::StorageBuffer { binding, descriptor_count } => LayoutBinding {
            binding,
            descriptor_type: DESCRIPTOR_TYPE_STORAGE_BUFFER,
            descriptor_count,
            stage_flags: SHADER_STAGE_COMPUTE,
        },
    }
}

/// Layout bindings of a compute pipeline: one storage-buffer binding, visible
/// to the compute stage, per descriptor binding.
pub fn compute_layout_bindings(specs: &[DescriptorBindingSpec]) -> (bindings: Vec<LayoutBinding>)
    ensures
        bindings@.len() == specs@.len(),
        forall|i: int| 0 <= i < specs@.len() ==> #[trigger] bindings@[i] == spec_compute_layout_binding(specs@[i]),
{
    let mut bindings: Vec<LayoutBinding> = Vec::new();
    let mut i: usize = 0;
    while i < specs.len()
        invariant
            i <= specs@.len(),
            bindings@.len() == i,
            forall|k: int| 0 <= k < i ==> #[trigger] bindings@[k] == spec_compute_layout_binding(specs@[k]),
        decreases specs@.len() - i,
    {
        let binding = match specs[i] {
            DescriptorBindingSpec::StorageBuffer { binding, descriptor_count } => LayoutBinding {
                binding,
                descriptor_type: DESCRIPTOR_TYPE_STORAGE_BUFFER,
                descriptor_count,
                stage_flags: SHADER_STAGE_COMPUTE,
            },
        };
        bindings.push(binding);
        i = i + 1;
    }
    bindings
}

/// Stores a compute pipeline built from a shader of `stage`: only a compute
/// shader is accepted, and the pipeline gets the next handle.
pub fn register_compute_pipeline<R>(
    registry: &mut HandleRegistry<R>,
    stage: ShaderStage,
    pipeline: R,
) -> (result: SoundResult<PipelineId>)
    requires
        old(registry).wf(),
    ensures
        final(registry).wf(),
        result is Ok <==> stage == ShaderStage::Compute,
        result is Err ==> result->Err_0@.code == ErrorCode::InvalidArgument
            && final(registry).spec_entries() == old(registry).spec_entries(),
        result matches Ok(id) ==> {
            &&& id.spec_index() == old(registry).spec_entries().len() as u32
            &&& final(registry).spec_entries() == old(registry).spec_entries().insert(id.spec_index(), pipeline)
        },
{
    validate_compute_stage(stage)?;
    let index = registry.register(pipeline);
    Ok(PipelineId::from_index(index))
}

/// One storage-buffer descriptor write of a whole buffer.
#[derive(Debug, Clone, Copy, PartialEq, Eq, Structural)]
pub struct BufferWrite {
    pub binding: u32,
    pub buffer: u64,
    pub range: u64,
}

/// What one spectrum multiply records: a descriptor pool for one set of
/// two storage buffers, the writes binding the signal and the impulse
/// response, the element count as push constant, and the workgroups.
pub struct DispatchPlan<'a, R> {
    pub pipeline: &'a R,
    pub pool_size: DescriptorPoolSize,
    pub max_sets: u32,
    pub writes: [BufferWrite; 2],
    pub push_constant: u32,
    pub groups: [u32; 3],
}

/// Plans the multiply of `count` complex samples of the signal buffer by
/// those of the impulse-response buffer with the pipeline `id`.
pub fn dispatch_multiply_plan<'a, R>(
    pipelines: &'a HandleRegistry<R>,
    id: PipelineId,
    signal: u64,
    impulse_response: u64,
    count: u32,
) -> (result: SoundResult<DispatchPlan<'a, R>>)
    ensures
        result is Ok <==> pipelines.spec_entries().contains_key(id.spec_index()),
        result is Err ==> result->Err_0@.code == ErrorCode::NotFound,
        result matches Ok(plan) ==> {
            &&& *plan.pipeline == pipelines.spec_entries()[id.spec_index()]
            &&& plan.pool_size == (DescriptorPoolSize { ty: DESCRIPTOR_TYPE_STORAGE_BUFFER, descriptor_count: 2 })
            &&& plan.max_sets == 1
            &&& plan.writes[0] == (BufferWrite { binding: 0, buffer: signal, range: WHOLE_SIZE })
            &&& plan.writes[1] == (BufferWrite { binding: 1, buffer: impulse_response, range: WHOLE_SIZE })
            &&& plan.push_constant == count
            &&& plan.groups[0] as int == (count + 255) / 256
            &&& plan.groups[1] == 1
            &&& plan.groups[2] == 1
        },
{
    let pipeline = pipelines.get(id.index())?;
    let groups = workgroups_for(count);
    Ok(DispatchPlan {
        pipeline,
        pool_size: DescriptorPoolSize { ty: DESCRIPTOR_TYPE_STORAGE_BUFFER, descriptor_count: 2 },
        max_sets: 1,
        writes: [
            BufferWrite { binding: 0, buffer: signal, range: WHOLE_SIZE },
            BufferWrite { binding: 1, buffer: impulse_response, range: WHOLE_SIZE },
        ],
        push_constant: count,
        groups: [groups, 1, 1],
    })
}

} // verus!
