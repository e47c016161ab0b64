# sound_engine

A block-based spatial sound engine: dry sound assets are convolved with
acoustic impulse responses, mixed into interleaved output blocks and fed to an
audio device through a bounded sample queue.

The library in `src/` is written in Verus and every function in it is
verified against its `requires`/`ensures` contract:

- `sound_core` — error categories and engine configuration.
- `playback` — the bounded sample queue between renderer and device
  callback, the shared playback flags, the device-callback output routing
  and the player that ties them together.
- `auralization` — the sound bank, the partitioned overlap-add convolver
  (FFT sizing, zero padding, overlap-add, tail flushing; the FFT multiply
  itself is a `SpectralTransform`; `app/` has a CPU one), voices and the
  auralization engine that renders and mixes voices block by block.
- `acoustics` — the least-recently-used impulse-response cache and the
  sizing rules of the acoustic tracing pipeline.
- `gpu` — the decisions around the GPU backend: device scoring and queue
  planning, extension and feature checks, buffer alignment, shader binding
  tables, descriptor pool sizing, compute pipeline registration, the
  multiply dispatch and ray-trace recording plans, submission tracking,
  SPIR-V word decoding and handle registries.
- `engine` — the impulse-response reuse path, the playback worker's decision
  table and the switch between direct rendering and the background player.

Sample values are generic: the library never does floating-point arithmetic
itself, and states its contracts over the `SampleOps` spec functions
(`SaturatingOps` is an integer implementation). `app/` supplies the `f32`
sample arithmetic, the Vulkan recording of the GPU plans, WAV decoding, the audio
device stream, the playback worker thread and the floating-point scene glue
around the library.

`tests/` exercises the library through its public interface.
