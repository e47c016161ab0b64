//! Sound engine core: playback queueing, impulse-response caching, voice
//! scheduling and GPU job layout, with their contracts proved by Verus.

use vstd::prelude::*;

pub mod acoustics;
pub mod auralization;
pub mod engine;
pub mod gpu;
pub mod playback;
pub mod sound_core;

verus! {

/// Adds two unsigned integers.
pub fn add(left: u64, right: u64) -> (sum: u64)
    requires
        left + right <= u64::MAX,
    ensures
        sum == left + right,
{
    left + right
}

} // verus!
