use vstd::prelude::*;
use crate::sound_core::error::{ErrorCode, SoundError, SoundResult};

verus! {

/// Raw Vulkan physical device type codes.
pub const DEVICE_TYPE_INTEGRATED_GPU: i32 = 1;
pub const DEVICE_TYPE_DISCRETE_GPU: i32 = 2;
pub const DEVICE_TYPE_VIRTUAL_GPU: i32 = 3;
pub const DEVICE_TYPE_CPU: i32 = 4;

/// Bytes per mebibyte.
pub const MIB: u64 = 1048576;

/// Preference of a physical device type: discrete, integrated, virtual,
/// CPU, then anything else.
pub open spec fn spec_type_score(device_type: i32) -> u64 {
    if device_type == DEVICE_TYPE_DISCRETE_GPU {
        5_000_000
    } else if device_type == DEVICE_TYPE_INTEGRATED_GPU {
        4_000_000
    } else if device_type == DEVICE_TYPE_VIRTUAL_GPU {
        3_000_000
    } else if device_type == DEVICE_TYPE_CPU {
        2_000_000
    } else {
        1_000_000
    }
}

/// Returns the preference of a physical device type.
pub fn type_score(device_type: i32) -> (score: u64)
    ensures
        score == spec_type_score(device_type),
{
    if device_type == DEVICE_TYPE_DISCRETE_GPU {
        5_000_000
    } else if device_type == DEVICE_TYPE_INTEGRATED_GPU {
        4_000_000
    } else if device_type == DEVICE_TYPE_VIRTUAL_GPU {
        3_000_000
    } else if device_type == DEVICE_TYPE_CPU {
        2_000_000
    } else {
        1_000_000
    }
}

/// Device types are preferred in a strict order: a discrete GPU over an
/// integrated one, an integrated GPU over a virtual one, a virtual GPU over a
/// CPU device, and a CPU device over any other type. Each preference is a
/// whole number of millions, from five million for a discrete GPU down to one
/// million for an unknown type.
pub proof fn law_device_type_preference(other: i32)
    requires
        other != DEVICE_TYPE_DISCRETE_GPU,
        other != DEVICE_TYPE_INTEGRATED_GPU,
        other != DEVICE_TYPE_VIRTUAL_GPU,
        other != DEVICE_TYPE_CPU,
    ensures
        spec_type_score(DEVICE_TYPE_DISCRETE_GPU) > spec_type_score(DEVICE_TYPE_INTEGRATED_GPU),
        spec_type_score(DEVICE_TYPE_INTEGRATED_GPU) > spec_type_score(DEVICE_TYPE_VIRTUAL_GPU),
        spec_type_score(DEVICE_TYPE_VIRTUAL_GPU) > spec_type_score(DEVICE_TYPE_CPU),
        spec_type_score(DEVICE_TYPE_CPU) > spec_type_score(other),
        spec_type_score(DEVICE_TYPE_DISCRETE_GPU) == 5 * 1_000_000,
        spec_type_score(DEVICE_TYPE_INTEGRATED_GPU) == 4 * 1_000_000,
        spec_type_score(DEVICE_TYPE_VIRTUAL_GPU) == 3 * 1_000_000,
        spec_type_score(DEVICE_TYPE_CPU) == 2 * 1_000_000,
        spec_type_score(other) == 1_000_000,
{
}

/// One memory heap of a physical device.
#[derive(Debug, Clone, Copy)]
pub struct MemoryHeapInfo {
    pub size: u64,
    pub device_local: bool,
}

/// Total size of the device-local heaps.
pub open spec fn device_local_bytes(heaps: Seq<MemoryHeapInfo>) -> nat
    decreases heaps.len(),
{
    if heaps.len() == 0 {
        0
    } else {
        device_local_bytes(heaps.drop_last())
            + if heaps.last().device_local { heaps.last().size as nat } else { 0 }
    }
}

/// Score of a physical device: its type preference plus its device-local
/// memory in whole mebibytes.
pub fn score_physical_device(device_type: i32, heaps: &[MemoryHeapInfo]) -> (score: u64)
    requires
        device_local_bytes(heaps@) <= u64::MAX,
    ensures
        score == spec_type_score(device_type) + device_local_bytes(heaps@) / (MIB as nat),
{
    let mut total: u64 = 0;
    let mut i: usize = 0;
    while i < heaps.len()
        invariant
            i <= heaps@.len(),
            device_local_bytes(heaps@) <= u64::MAX,
            total == device_local_bytes(heaps@.subrange(0, i as int)),
        decreases heaps@.len() - i,
    {
        proof {
            assert(heaps@.subrange(0, i + 1).drop_last() =~= heaps@.subrange(0, i as int));
            lemma_device_local_prefix(heaps@, i + 1);
        }
        if heaps[i].device_local {
            total = total + heaps[i].size;
        }
        i = i + 1;
    }
    assert(heaps@.subrange(0, heaps@.len() as int) =~= heaps@);
    type_score(device_type) + total / MIB
}

proof fn lemma_device_local_prefix(heaps: Seq<MemoryHeapInfo>, n: int)
    requires
        0 <= n <= heaps.len(),
    ensures
        device_local_bytes(heaps.subrange(0, n)) <= device_local_bytes(heaps),
    decreases heaps.len() - n,
{
    if n < heaps.len() {
        lemma_device_local_prefix(heaps, n + 1);
        assert(heaps.subrange(0, n + 1).drop_last() =~= heaps.subrange(0, n));
    } else {
        assert(heaps.subrange(0, n) =~= heaps);
    }
}

/// Whether queue family flags contain every `required` bit.
pub open spec fn flags_contain(flags: u32, required: u32) -> bool {
    flags & required == required
}

/// Returns the index of the first queue family whose flags contain `required`.
pub fn find_queue_family(families: &[u32], required: u32) -> (family: Option<u32>)
    ensures
        match family {
            Some(index) => exists|i: int| #![trigger families@[i]]
                0 <= i < families@.len() && i as u32 == index && flags_contain(families@[i], required)
                && forall|j: int| 0 <= j < i ==> !flags_contain(#[trigger] families@[j], required),
            None => forall|i: int| 0 <= i < families@.len() ==> !flags_contain(#[trigger] families@[i], required),
        },
{
    let mut i: usize = 0;
    while i < families.len()
        invariant
            i <= families@.len(),
            forall|j: int| 0 <= j < i ==> !flags_contain(#[trigger] families@[j], required),
        decreases families@.len() - i,
    {
        if families[i] & required == required {
            assert(flags_contain(families@[i as int], required));
            return Some(i as u32);
        }
        i = i + 1;
    }
    None
}

/// Index of the preferred candidate: the highest score, and among equal
/// highest scores the last one.
pub fn select_best_device(scores: &[u64]) -> (best: Option<usize>)
    ensures
        match best {
            Some(b) => {
                &&& b < scores@.len()
                &&& forall|i: int| 0 <= i < scores@.len() ==> scores@[i] <= scores@[b as int]
                &&& forall|i: int| b < i < scores@.len() ==> scores@[i] < scores@[b as int]
            },
            None => scores@.len() == 0,
        },
{
    if scores.len() == 0 {
        return None;
    }
    let mut best: usize = 0;
    let mut i: usize = 1;
    while i < scores.len()
        invariant
            1 <= i <= scores@.len(),
            best < i,
            forall|k: int| 0 <= k < i ==> scores@[k] <= scores@[best as int],
            forall|k: int| best < k < i ==> scores@[k] < scores@[best as int],
        decreases scores@.len() - i,
    {
        if scores[i] >= scores[best] {
            best = i;
        }
        i = i + 1;
    }
    Some(best)
}

/// Whether `available` holds a name equal to `name`, byte for byte.
pub open spec fn names_contain(available: Seq<Vec<u8>>, name: Seq<u8>) -> bool {
    exists|k: int| 0 <= k < available.len() && (#[trigger] available[k])@ == name
}

/// Whether two byte strings are equal.
fn same_bytes(a: &[u8], b: &[u8]) -> (same: bool)
    ensures
        same == (a@ == b@),
{
    if a.len() != b.len() {
        return false;
    }
    let mut i: usize = 0;
    while i < a.len()
        invariant
            a@.len() == b@.len(),
            i <= a@.len(),
            forall|k: int| 0 <= k < i ==> a@[k] == b@[k],
        decreases a@.len() - i,
    {
        if a[i] != b[i] {
            return false;
        }
        i = i + 1;
    }
    assert(a@ =~= b@);
    true
}

/// Position of the first required name that `available` lacks.
pub fn first_missing_name(required: &[Vec<u8>], available: &[Vec<u8>]) -> (missing: Option<usize>)
    ensures
        match missing {
            Some(i) => {
                &&& i < required@.len()
                &&& !names_contain(available@, required@[i as int]@)
                &&& forall|j: int| 0 <= j < i ==> names_contain(available@, (#[trigger] required@[j])@)
            },
            None => forall|j: int| 0 <= j < required@.len() ==> names_contain(available@, (#[trigger] required@[j])@),
        },
{
    let mut i: usize = 0;
    while i < required.len()
        invariant
            i <= required@.len(),
            forall|j: int| 0 <= j < i ==> names_contain(available@, (#[trigger] required@[j])@),
        decreases required@.len() - i,
    {
        let mut found = false;
        let mut k: usize = 0;
        while k < available.len()
            invariant
                k <= available@.len(),
                i < required@.len(),
                found ==> names_contain(available@, required@[i as int]@),
                !found ==> forall|m: int| 0 <= m < k ==> (#[trigger] available@[m])@ != required@[i as int]@,
            decreases available@.len() - k,
        {
            if same_bytes(available[k].as_slice(), required[i].as_slice()) {
                found = true;
            }
            k = k + 1;
        }
        if !found {
            return Some(i);
        }
        i = i + 1;
    }
    None
}

/// Checks that a device offers every required extension, by name.
pub fn validate_device_extensions(required: &[Vec<u8>], available: &[Vec<u8>]) -> (result: SoundResult<()>)
    ensures
        result is Ok <==> forall|j: int| 0 <= j < required@.len() ==> names_contain(available@, (#[trigger] required@[j])@),
        result is Err ==> result->Err_0@.code == ErrorCode::UnsupportedFeature,
{
    match first_missing_name(required, available) {
        Some(_) => Err(SoundError::unsupported_feature("Required Vulkan device extension is not supported")),
        None => Ok(()),
    }
}

/// Checks that buffer device addresses, acceleration structures and ray
/// tracing pipelines are all supported.
pub fn validate_ray_tracing_features(
    buffer_device_address: bool,
    acceleration_structure: bool,
    ray_tracing_pipeline: bool,
) -> (result: SoundResult<()>)
    ensures
        result is Ok <==> (buffer_device_address && acceleration_structure && ray_tracing_pipeline),
        result is Err ==> result->Err_0@.code == ErrorCode::UnsupportedFeature,
{
    if !buffer_device_address || !acceleration_structure || !ray_tracing_pipeline {
        return Err(SoundError::unsupported_feature("Required Vulkan ray tracing features are not supported"));
    }
    Ok(())
}

/// Queue flag bit of transfer-capable queue families.
pub const QUEUE_TRANSFER_BIT: u32 = 0x4;

/// Queue families the logical device is created with: the compute family,
/// and a transfer family that is the first family with the transfer bit,
/// or the compute family when none has it.
pub struct QueuePlan {
    /// Family of the compute queue.
    pub compute_family: u32,
    /// Family of the transfer queue.
    pub transfer_family: u32,
    /// One queue is created per distinct family, compute first.
    pub queue_families: Vec<u32>,
}

/// Chooses the device's queues for `compute_family` on a device whose queue
/// families have the flags `families`.
pub fn device_queue_plan(families: &[u32], compute_family: u32) -> (plan: QueuePlan)
    ensures
        plan.compute_family == compute_family,
        (exists|i: int| #![trigger families@[i]]
            0 <= i < families@.len() && i as u32 == plan.transfer_family
            && flags_contain(families@[i], QUEUE_TRANSFER_BIT)
            && forall|j: int| 0 <= j < i ==> !flags_contain(#[trigger] families@[j], QUEUE_TRANSFER_BIT))
        || ((forall|i: int| 0 <= i < families@.len() ==> !flags_contain(#[trigger] families@[i], QUEUE_TRANSFER_BIT))
            && plan.transfer_family == compute_family),
        plan.queue_families@ == if plan.transfer_family == compute_family {
            seq![compute_family]
        } else {
            seq![compute_family, plan.transfer_family]
        },
{
    let transfer_family = match find_queue_family(families, QUEUE_TRANSFER_BIT) {
        Some(family) => family,
        None => compute_family,
    };
    let mut queue_families: Vec<u32> = Vec::new();
    queue_families.push(compute_family);
    if transfer_family != compute_family {
        queue_families.push(transfer_family);
    }
    assert(queue_families@ =~= if transfer_family == compute_family {
        seq![compute_family]
    } else {
        seq![compute_family, transfer_family]
    });
    QueuePlan { compute_family, transfer_family, queue_families }
}

/// Names of the device extensions the engine enables: acceleration
/// structures, ray tracing pipelines, deferred host operations and buffer
/// device addresses.
pub fn required_device_extensions() -> (names: [&'static str; 4])
    ensures
        names[0]@ == "VK_KHR_acceleration_structure"@,
        names[1]@ == "VK_KHR_ray_tracing_pipeline"@,
        names[2]@ == "VK_KHR_deferred_host_operations"@,
        names[3]@ == "VK_KHR_buffer_device_address"@,
{
    [
        "VK_KHR_acceleration_structure",
        "VK_KHR_ray_tracing_pipeline",
        "VK_KHR_deferred_host_operations",
        "VK_KHR_buffer_device_address",
    ]
}

} // verus!
