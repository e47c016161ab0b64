use vstd::prelude::*;
use vstd::arithmetic::div_mod::lemma_fundamental_div_mod_converse;
use crate::sound_core::error::{ErrorCode, SoundError, SoundResult};
use crate::playback::queue::{PushStatus, SampleQueue, spec_drained, spec_push};
use crate::playback::state::{PlaybackFlags, PlaybackState};

verus! {

/// Ensures the selected device can carry every interleaved engine channel.
pub fn validate_output_channels(device_channels: usize, output_channels: usize) -> (result: SoundResult<()>)
    ensures
        result is Ok <==> device_channels >= output_channels,
        result is Err ==> result->Err_0@.code == ErrorCode::UnsupportedFeature,
{
    if device_channels < output_channels {
        return Err(SoundError::unsupported_feature(
            "Default output device exposes fewer channels than playback needs",
        ));
    }
    Ok(())
}

/// Whether one device callback buffer can be split into whole device frames.
pub open spec fn callback_shape_ok(data_len: nat, device_channels: nat, output_channels: nat) -> bool {
    &&& device_channels > 0
    &&& output_channels > 0
    &&& data_len % device_channels == 0
}

/// Checks that a device callback buffer holds whole frames of a non-empty layout.
pub fn validate_callback_sample_shape(data_len: usize, device_channels: usize, output_channels: usize) -> (result: SoundResult<()>)
    ensures
        result is Ok <==> callback_shape_ok(data_len as nat, device_channels as nat, output_channels as nat),
        result is Err ==> result->Err_0@.code == ErrorCode::InvalidArgument,
{
    if device_channels == 0 {
        return Err(SoundError::invalid_argument("device channel count must be > 0"));
    }
    if output_channels == 0 {
        return Err(SoundError::invalid_argument("output channel count must be > 0"));
    }
    if data_len % device_channels != 0 {
        return Err(SoundError::invalid_argument(
            "CPAL output buffer length must be divisible by device channel count",
        ));
    }
    Ok(())
}

/// Checks that a drained batch holds whole engine frames.
pub fn validate_drained_sample_shape(drained: usize, output_channels: usize) -> (result: SoundResult<()>)
    requires
        output_channels > 0,
    ensures
        result is Ok <==> drained % output_channels == 0,
        result is Err ==> result->Err_0@.code == ErrorCode::InvalidState,
{
    if drained % output_channels != 0 {
        return Err(SoundError::invalid_state(
            "playback queue drained a sample count that is not divisible by the output channel count",
        ));
    }
    Ok(())
}

/// Writes `silence` to every sample of `data`.
pub fn silence_output<T: Copy>(data: &mut [T], silence: T)
    ensures
        final(data)@.len() == old(data)@.len(),
        forall|i: int| 0 <= i < final(data)@.len() ==> #[trigger] final(data)@[i] == silence,
{
    let ghost n = data@.len();
    let mut i: usize = 0;
    while i < data.len()
        invariant
            i <= data@.len(),
            data@.len() == n,
            forall|k: int| 0 <= k < i ==> #[trigger] data@[k] == silence,
        decreases data@.len() - i,
    {
        data[i] = silence;
        i = i + 1;
    }
}

/// Whether `out` is a device buffer of `device_channels`-sample frames whose
/// first `rendered` frames carry the converted engine frames in their leading
/// `output_channels` samples, with every other sample silent.
pub open spec fn routed_output<S, T, F: Fn(S) -> T>(
    out: Seq<T>,
    engine: Seq<S>,
    device_channels: nat,
    output_channels: nat,
    rendered: nat,
    silence: T,
    convert: F,
) -> bool {
    forall|i: int| #![trigger out[i]]
        0 <= i < out.len() ==> {
            let frame = i / (device_channels as int);
            let channel = i % (device_channels as int);
            if frame < rendered && channel < output_channels {
                call_ensures(convert, (engine[frame * output_channels + channel],), out[i])
            } else {
                out[i] == silence
            }
        }
}

/// Number of engine samples that one device buffer of `data_len` samples asks for.
pub open spec fn required_samples(data_len: nat, device_channels: nat, output_channels: nat) -> nat {
    (data_len / device_channels) * output_channels
}

proof fn lemma_required_fits(data_len: nat, device_channels: nat, output_channels: nat)
    requires
        device_channels > 0,
        output_channels <= device_channels,
    ensures
        required_samples(data_len, device_channels, output_channels) <= data_len,
{
    let frames = data_len / device_channels;
    assert(frames * device_channels <= data_len) by {
        vstd::arithmetic::div_mod::lemma_fundamental_div_mod(data_len as int, device_channels as int);
    }
    assert(frames * output_channels <= frames * device_channels) by (nonlinear_arith)
        requires output_channels <= device_channels;
}

/// What one device callback does to the device buffer, the queued samples
/// and the lifecycle flags (see [`write_output`]).
pub open spec fn write_output_post<S, T, F: Fn(S) -> T>(
    old_data: Seq<T>,
    new_data: Seq<T>,
    device_channels: nat,
    output_channels: nat,
    old_queue: Seq<S>,
    new_queue: Seq<S>,
    old_state: PlaybackFlags,
    new_state: PlaybackFlags,
    silence: T,
    convert: F,
) -> bool {
    let n = old_data.len();
    let q = old_queue;
    &&& new_data.len() == n
    &&& if !callback_shape_ok(n, device_channels, output_channels) {
        &&& forall|i: int| 0 <= i < n ==> #[trigger] new_data[i] == silence
        &&& new_queue == q
        &&& new_state.stop_requested
        &&& new_state.playback_done
        &&& new_state.producer_done == old_state.producer_done
    } else {
        let required = required_samples(n, device_channels, output_channels);
        let drained = spec_drained(q.len(), required);
        &&& new_queue == q.skip(drained as int)
        &&& if drained % output_channels != 0 {
            &&& forall|i: int| 0 <= i < n ==> #[trigger] new_data[i] == silence
            &&& new_state.stop_requested
            &&& new_state.playback_done
            &&& new_state.producer_done == old_state.producer_done
        } else {
            &&& routed_output(new_data, q, device_channels, output_channels,
                drained / output_channels, silence, convert)
            &&& new_state.producer_done == old_state.producer_done
            &&& new_state.stop_requested == old_state.stop_requested
            &&& new_state.playback_done == (old_state.playback_done
                || (drained < required && old_state.producer_done))
        }
    }
}

/// Drains queued engine samples into one device callback buffer.
///
/// The queue stores only engine channels, so each rendered frame fills the
/// leading `output_channels` device channels through `convert` and silences
/// the extra device channels. Frames the queue could not supply are silenced;
/// such an underflow completes playback once the producer has finished.
/// A malformed buffer shape requests stop and silences the whole buffer.
pub fn write_output<S: Copy, T: Copy, F: Fn(S) -> T>(
    data: &mut [T],
    device_channels: usize,
    output_channels: usize,
    queue: &mut SampleQueue<S>,
    state: &mut PlaybackState,
    scratch: &mut Vec<S>,
    silence: T,
    convert: F,
)
    requires
        old(queue).wf(),
        output_channels <= device_channels,
        forall|s: S| call_requires(convert, (s,)),
    ensures
        final(queue).wf(),
        final(queue).spec_capacity() == old(queue).spec_capacity(),
        final(data)@.len() == old(data)@.len(),
        write_output_post(old(data)@, final(data)@, device_channels as nat, output_channels as nat,
            old(queue).spec_samples(), final(queue).spec_samples(), old(state)@, final(state)@, silence, convert),
{
    let ghost q = queue.spec_samples();
    if validate_callback_sample_shape(data.len(), device_channels, output_channels).is_err() {
        state.request_stop();
        silence_output(data, silence);
        return;
    }

    let frames = data.len() / device_channels;
    proof {
        lemma_required_fits(data@.len(), device_channels as nat, output_channels as nat);
    }
    let required = frames * output_channels;

    scratch.clear();
    let drained = queue.pop_into_vec(scratch, required);
    assert(scratch@ == q.subrange(0, drained as int));

    if validate_drained_sample_shape(drained, output_channels).is_err() {
        state.request_stop();
        silence_output(data, silence);
        return;
    }

    let rendered = drained / output_channels;
    proof {
        vstd::arithmetic::div_mod::lemma_fundamental_div_mod(drained as int, output_channels as int);
        assert(rendered * output_channels == output_channels * rendered) by (nonlinear_arith);
        if rendered > 0 {
            assert(output_channels <= rendered * output_channels) by (nonlinear_arith)
                requires rendered > 0;
        }
    }
    assert(rendered * output_channels == drained);

    let ghost n = data@.len();
    let ghost dc = device_channels as int;
    let ghost oc = output_channels as int;
    let mut i: usize = 0;
    let mut frame: usize = 0;
    let mut channel: usize = 0;
    let mut frame_base: usize = 0;
    while i < data.len()
        invariant
            n == data@.len(),
            (n as int) % dc == 0,
            dc == device_channels as int,
            oc == output_channels as int,
            0 < oc <= dc,
            i <= n,
            i == frame * dc + channel,
            channel < dc,
            frame_base == frame * oc,
            rendered * oc == drained,
            drained <= q.len(),
            scratch@ == q.subrange(0, drained as int),
            frame < rendered ==> frame_base + oc <= drained,
            forall|s: S| call_requires(convert, (s,)),
            forall|k: int| #![trigger data@[k]] 0 <= k < i ==> {
                let kf = k / dc;
                let kc = k % dc;
                if kf < rendered && kc < oc {
                    call_ensures(convert, (q[kf * oc + kc],), data@[k])
                } else {
                    data@[k] == silence
                }
            },
        decreases n - i,
    {
        proof {
            lemma_fundamental_div_mod_converse(i as int, dc, frame as int, channel as int);
        }
        let ghost before = data@;
        if frame < rendered && channel < output_channels {
            let value = convert(scratch[frame_base + channel]);
            data[i] = value;
            assert(scratch@[frame_base + channel] == q[frame * oc + channel]);
        } else {
            data[i] = silence;
        }
        proof {
            assert forall|k: int| #![trigger data@[k]] 0 <= k < i + 1 implies {
                let kf = k / dc;
                let kc = k % dc;
                if kf < rendered && kc < oc {
                    call_ensures(convert, (q[kf * oc + kc],), data@[k])
                } else {
                    data@[k] == silence
                }
            } by {
                if k < i {
                    assert(data@[k] == before[k]);
                }
            }
        }
        i = i + 1;
        if channel + 1 < device_channels {
            channel = channel + 1;
        } else {
            proof {
                if frame + 1 < rendered {
                    assert((frame + 2) * oc <= rendered * oc) by (nonlinear_arith)
                        requires frame + 2 <= rendered, oc > 0;
                    assert((frame + 2) * oc == frame * oc + oc + oc) by (nonlinear_arith);
                }
                assert((frame + 1) * dc == frame * dc + dc) by (nonlinear_arith);
                assert((frame + 1) * oc == frame * oc + oc) by (nonlinear_arith);
                assert((frame + 1) * oc <= (frame + 1) * dc) by (nonlinear_arith)
                    requires oc <= dc, frame >= 0;
            }
            frame_base = frame_base + output_channels;
            frame = frame + 1;
            channel = 0;
        }
    }

    if drained < required && state.producer_done() {
        state.mark_playback_done();
    }
}

/// A block pushed into an empty queue reaches the device as it was
/// rendered: one callback whose buffer holds exactly the block's frames
/// plays every engine channel of every frame through `convert`, leaves the
/// extra device channels silent, empties the queue and does not end playback.
pub proof fn law_pushed_block_is_played<S, T, F: Fn(S) -> T>(
    block: Seq<S>,
    capacity: nat,
    frames: nat,
    device_channels: nat,
    output_channels: nat,
    old_data: Seq<T>,
    new_data: Seq<T>,
    new_queue: Seq<S>,
    old_state: PlaybackFlags,
    new_state: PlaybackFlags,
    silence: T,
    convert: F,
)
    requires
        0 < output_channels <= device_channels,
        block.len() == frames * output_channels,
        block.len() <= capacity,
        old_data.len() == frames * device_channels,
        write_output_post(old_data, new_data, device_channels, output_channels,
            spec_push(Seq::<S>::empty(), capacity, block, false).0, new_queue, old_state, new_state, silence, convert),
    ensures
        spec_push(Seq::<S>::empty(), capacity, block, false).1 == PushStatus::Pushed,
        new_queue.len() == 0,
        new_state == old_state,
        forall|f: int, c: int| 0 <= f < frames && 0 <= c < device_channels ==> {
            let sample = #[trigger] new_data[f * device_channels + c];
            if c < output_channels {
                call_ensures(convert, (block[f * output_channels + c],), sample)
            } else {
                sample == silence
            }
        },
{
    let queued = spec_push(Seq::<S>::empty(), capacity, block, false).0;
    assert(queued =~= block);
    let n = old_data.len();
    lemma_fundamental_div_mod_converse(n as int, device_channels as int, frames as int, 0);
    assert(callback_shape_ok(n, device_channels, output_channels));
    assert(required_samples(n, device_channels, output_channels) == block.len());
    lemma_fundamental_div_mod_converse(block.len() as int, output_channels as int, frames as int, 0);
    assert forall|f: int, c: int| 0 <= f < frames && 0 <= c < device_channels implies {
        let sample = #[trigger] new_data[f * device_channels + c];
        if c < output_channels {
            call_ensures(convert, (block[f * output_channels + c],), sample)
        } else {
            sample == silence
        }
    } by {
        let i = f * device_channels + c;
        assert(0 <= i < n) by (nonlinear_arith)
            requires
                0 <= f < frames,
                0 <= c < device_channels,
                i == f * device_channels + c,
                n == frames * device_channels;
        lemma_fundamental_div_mod_converse(i, device_channels as int, f, c);
        assert(new_data[i] == new_data[f * device_channels + c]);
    }
}

} // verus!
