use vstd::prelude::*;
use crate::sound_core::error::{ErrorCode, SoundError, SoundResult};

verus! {

/// Stable handle to a shader module stored in the shader library.
#[derive(Debug, Clone, Copy, PartialEq, Eq, Hash, Structural)]
pub struct ShaderId(pub u32);

/// Shader stages supported by the engine shader compiler.
#[derive(Debug, Clone, Copy, PartialEq, Eq, Structural)]
pub enum ShaderStage {
    /// Compute shader stage.
    Compute,
    /// Ray generation shader stage.
    RayGeneration,
    /// Ray miss shader stage.
    RayMiss,
    /// Ray closest-hit shader stage.
    RayClosestHit,
    /// Ray any-hit shader stage.
    RayAnyHit,
    /// Ray intersection shader stage.
    RayIntersection,
    /// Ray callable shader stage.
    RayCallable,
}

/// Default shader entry point used when compiling GLSL modules.
pub const SHADER_ENTRY_POINT: &'static str = "main";

impl ShaderStage {
    /// The stage name that `glslangValidator -S` expects.
    pub open spec fn spec_glslang_suffix(self) -> Seq<char> {
        match self {
            ShaderStage::Compute => "comp"@,
            ShaderStage::RayGeneration => "rgen"@,
            ShaderStage::RayMiss => "rmiss"@,
            ShaderStage::RayClosestHit => "rchit"@,
            ShaderStage::RayAnyHit => "rahit"@,
            ShaderStage::RayIntersection => "rint"@,
            ShaderStage::RayCallable => "rcall"@,
        }
    }

    /// Returns the stage name passed to the GLSL compiler.
    pub fn glslang_suffix(self) -> (suffix: &'static str)
        ensures
            suffix@ == self.spec_glslang_suffix(),
    {
        proof {
            reveal_strlit("comp");
            reveal_strlit("rgen");
            reveal_strlit("rmiss");
            reveal_strlit("rchit");
            reveal_strlit("rahit");
            reveal_strlit("rint");
            reveal_strlit("rcall");
        }
        match self {
            ShaderStage::Compute => "comp",
            ShaderStage::RayGeneration => "rgen",
            ShaderStage::RayMiss => "rmiss",
            ShaderStage::RayClosestHit => "rchit",
            ShaderStage::RayAnyHit => "rahit",
            ShaderStage::RayIntersection => "rint",
            ShaderStage::RayCallable => "rcall",
        }
    }
}

/// Little-endian value of four bytes.
pub open spec fn le_word(b0: u8, b1: u8, b2: u8, b3: u8) -> int {
    b0 as int + 256 * (b1 as int) + 65536 * (b2 as int) + 16777216 * (b3 as int)
}

/// Reassembles compiled SPIR-V bytes into little-endian 32-bit words.
///
/// Fails with `ShaderCompileFailed` when the byte count is not a multiple of four.
pub fn spirv_words_from_bytes(bytes: &[u8]) -> (result: SoundResult<Vec<u32>>)
    ensures
        result is Ok <==> bytes@.len() % 4 == 0,
        result is Err ==> result->Err_0@.code == ErrorCode::ShaderCompileFailed,
        result matches Ok(words) ==> {
            &&& words@.len() * 4 == bytes@.len()
            &&& forall|i: int| 0 <= i < words@.len() ==> #[trigger] words@[i] == le_word(
                bytes@[4 * i], bytes@[4 * i + 1], bytes@[4 * i + 2], bytes@[4 * i + 3])
        },
{
    if bytes.len() % 4 != 0 {
        return Err(SoundError::shader_compile_failed("Invalid SPIR-V size"));
    }
    let count = bytes.len() / 4;
    let mut words: Vec<u32> = Vec::new();
    let mut i: usize = 0;
    while i < count
        invariant
            count * 4 == bytes@.len(),
            bytes@.len() <= usize::MAX,
            i <= count,
            words@.len() == i,
            forall|k: int| 0 <= k < i ==> #[trigger] words@[k] == le_word(
                bytes@[4 * k], bytes@[4 * k + 1], bytes@[4 * k + 2], bytes@[4 * k + 3]),
        decreases count - i,
    {
        assert(4 * i + 3 < bytes@.len());
        let base = 4 * i;
        let word = bytes[base] as u32 + 256 * (bytes[base + 1] as u32) + 65536 * (bytes[base + 2] as u32)
            + 16777216 * (bytes[base + 3] as u32);
        words.push(word);
        i = i + 1;
    }
    Ok(words)
}

/// Rejects an empty SPIR-V module before a shader module is created from it.
pub fn validate_spirv_words(words: &[u32]) -> (result: SoundResult<()>)
    ensures
        result is Ok <==> words@.len() > 0,
        result is Err ==> result->Err_0@.code == ErrorCode::ShaderCompileFailed,
{
    if words.len() == 0 {
        return Err(SoundError::shader_compile_failed("SPIR-V module is empty"));
    }
    Ok(())
}

} // verus!
