use vstd::prelude::*;
use crate::sound_core::error::{ErrorCode, SoundError, SoundResult};

verus! {

/// Initial size of the shared staging buffer: 16 MiB.
pub const STAGING_BUFFER_INITIAL_SIZE: u64 = 16777216;

/// Staging buffer size needed for a transfer of `required` bytes: the current
/// buffer when it is large enough, otherwise at least double its size.
pub open spec fn spec_staging_size(current: u64, required: u64) -> u64 {
    if current >= required {
        current
    } else if 2 * current >= required {
        (2 * current) as u64
    } else {
        required
    }
}

/// Computes the staging buffer size for a transfer of `required` bytes.
pub fn staging_size_for(current: u64, required: u64) -> (size: u64)
    requires
        current < required ==> 2 * current <= u64::MAX,
    ensures
        size == spec_staging_size(current, required),
        size >= required,
        size >= current,
{
    if current >= required {
        return current;
    }
    let doubled = current * 2;
    if doubled >= required { doubled } else { required }
}

/// Checks that `size` bytes fit into a buffer of `buffer_size` bytes.
pub fn validate_transfer_size(size: u64, buffer_size: u64) -> (result: SoundResult<()>)
    ensures
        result is Ok <==> size <= buffer_size,
        result is Err ==> result->Err_0@.code == ErrorCode::InvalidArgument,
{
    if size > buffer_size {
        return Err(SoundError::invalid_argument("Transfer size exceeds buffer size"));
    }
    Ok(())
}

/// Checks a readback of `size` bytes from a buffer of `source_size` bytes
/// into an output slice of `out_len` bytes.
pub fn validate_download(size: usize, source_size: u64, out_len: usize) -> (result: SoundResult<()>)
    ensures
        result is Ok <==> (size <= source_size && size <= out_len),
        result is Err ==> result->Err_0@.code == ErrorCode::InvalidArgument,
{
    if size as u64 > source_size {
        return Err(SoundError::invalid_argument("Download size exceeds source buffer size"));
    }
    if out_len < size {
        return Err(SoundError::invalid_argument("Output slice too small for download"));
    }
    Ok(())
}

/// Byte count of a typed readback of `count` elements of `element_size`
/// bytes into an output of `out_len` elements.
pub fn typed_download_size(count: usize, out_len: usize, element_size: usize) -> (result: SoundResult<usize>)
    ensures
        result is Ok <==> (count <= out_len && count * element_size <= usize::MAX),
        result is Err ==> result->Err_0@.code == ErrorCode::InvalidArgument,
        result matches Ok(bytes) ==> bytes == count * element_size,
{
    if count > out_len {
        return Err(SoundError::invalid_argument("download_typed count exceeds output len"));
    }
    match count.checked_mul(element_size) {
        Some(bytes) => Ok(bytes),
        None => Err(SoundError::invalid_argument("download_typed byte size overflow")),
    }
}

} // verus!
