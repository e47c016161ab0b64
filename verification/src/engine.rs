use vstd::prelude::*;
use crate::acoustics::cache::{IrCache, IrCacheEntry, IrCacheKey, has_key, inserted, key_position, touched};
use crate::sound_core::error::{ErrorCode, SoundError, SoundResult};
use crate::auralization::assets::SoundId;
use crate::auralization::convolver::ConvolutionBackend;
use crate::auralization::engine::{
    has_voice, playable, voice_header, voice_index, AuralizationEngine, PlaySoundRequest, SampleOps, VoiceId,
    VoiceState,
};

verus! {

/// Hands out the next impulse-response id and advances the counter,
/// saturating at `u64::MAX`.
pub fn next_ir_id(next_id: &mut u64) -> (id: u64)
    ensures
        id == *old(next_id),
        *final(next_id) == if id == u64::MAX { u64::MAX } else { (id + 1) as u64 },
{
    let id = *next_id;
    *next_id = next_id.saturating_add(1);
    id
}

/// Returns the cached impulse response for `key` when one is reusable,
/// otherwise builds one, caches a clone of it and returns it.
///
/// A build failure is returned as is and leaves the cache unchanged.
pub fn impulse_response_for<Q, V: Clone, R: Fn(&Q) -> bool, B: FnOnce() -> SoundResult<V>>(
    cache: &mut IrCache<Q, V>,
    key: IrCacheKey,
    query: Q,
    can_reuse: R,
    build: B,
) -> (result: SoundResult<V>)
    requires
        old(cache).wf(),
        forall|q: &Q| call_requires(can_reuse, (q,)),
        call_requires(build, ()),
    ensures
        final(cache).wf(),
        final(cache).spec_max_entries() == old(cache).spec_max_entries(),
        final(cache).spec_enabled() == old(cache).spec_enabled(),
        ({
            let entries = old(cache).spec_entries();
            let i = key_position(entries, key);
            let cached = old(cache).spec_enabled() && has_key(entries, key);
            ||| {
                &&& cached
                &&& call_ensures(can_reuse, (&entries[i].query,), true)
                &&& result matches Ok(v) && cloned(entries[i].snapshot, v)
                &&& final(cache).spec_entries() == touched(entries, key)
            }
            ||| {
                &&& (cached ==> call_ensures(can_reuse, (&entries[i].query,), false))
                &&& call_ensures(build, (), result)
                &&& result is Err ==> final(cache).spec_entries() == entries
                &&& result matches Ok(v) ==> (!old(cache).spec_enabled() ==> final(cache).spec_entries() == entries)
                &&& result matches Ok(v) ==> (old(cache).spec_enabled() ==> exists|c: V| cloned(v, c)
                    && final(cache).spec_entries() == #[trigger] inserted(entries, IrCacheEntry { key, query, snapshot: c },
                        old(cache).spec_max_entries()))
            }
        }),
{
    let ghost entries = cache.spec_entries();
    if let Some(snapshot) = cache.get(key, can_reuse) {
        return Ok(snapshot);
    }
    let built = build();
    match built {
        Ok(snapshot) => {
            let copy = snapshot.clone();
            cache.insert(key, query, copy);
            proof {
                if cache.spec_enabled() {
                    assert(cloned(snapshot, copy));
                }
            }
            Ok(snapshot)
        },
        Err(error) => Err(error),
    }
}

/// Registers an impulse response under the next impulse-response id and
/// starts `sound_id` through it with `gain`, as the engine does once it has
/// the impulse response for a spatial play request. The id is used up even
/// when registering or playing fails.
pub fn play_with_impulse_response<S: Copy, C: ConvolutionBackend<S>, O: SampleOps<S>>(
    auralization: &mut AuralizationEngine<S, C, O>,
    next_impulse_response_id: &mut u64,
    ir_samples: &[C::IrSample],
    sound_id: SoundId,
    gain: S,
) -> (result: SoundResult<VoiceId>)
    requires
        old(auralization).wf(),
    ensures
        final(auralization).wf(),
        *final(next_impulse_response_id) == if *old(next_impulse_response_id) == u64::MAX {
            u64::MAX
        } else {
            (*old(next_impulse_response_id) + 1) as u64
        },
        final(auralization).spec_sound_bank() == old(auralization).spec_sound_bank(),
        final(auralization).spec_sound() == old(auralization).spec_sound(),
        final(auralization).spec_auralization() == old(auralization).spec_auralization(),
        !old(auralization).spec_sound_bank().spec_assets().contains_key(sound_id) ==> result is Err,
        old(auralization).spec_sound_bank().spec_assets().contains_key(sound_id)
            && old(auralization).spec_sound_bank().spec_assets()[sound_id].spec_samples().len() == 0
            ==> result is Err,
        result is Err ==> final(auralization).spec_voices() == old(auralization).spec_voices(),
        result is Ok ==> final(auralization).spec_impulse_responses().contains_key(*old(next_impulse_response_id)),
        !old(auralization).spec_convolver().spec_ir_len_ok(ir_samples@.len()) ==> {
            &&& result is Err
            &&& result->Err_0@.code == ErrorCode::InvalidArgument
            &&& *final(auralization) == *old(auralization)
        },
        (result is Err && *final(auralization) == *old(auralization)) || {
            let assets = old(auralization).spec_sound_bank().spec_assets();
            &&& exists|ir: C::ImpulseResponse| final(auralization).spec_impulse_responses()
                == #[trigger] old(auralization).spec_impulse_responses().insert(*old(next_impulse_response_id), ir)
            &&& if !old(auralization).spec_ops().spec_is_finite(gain) {
                result is Err && result->Err_0@.code == ErrorCode::InvalidArgument
            } else if !assets.contains_key(sound_id) {
                result is Err && result->Err_0@.code == ErrorCode::NotFound
            } else if assets[sound_id].spec_samples().len() == 0 {
                result is Err && result->Err_0@.code == ErrorCode::InvalidArgument
            } else {
                result == Ok::<VoiceId, SoundError>(old(auralization).spec_next_voice_id())
            }
        },
        result matches Ok(id) ==> {
            &&& id == old(auralization).spec_next_voice_id()
            &&& exists|k: int| 0 <= k < final(auralization).spec_voices().len()
                && voice_header(#[trigger] final(auralization).spec_voices()[k])
                    == (id, sound_id, 0usize, gain, VoiceState::Playing)
        },
{
    let impulse_response_id = next_ir_id(next_impulse_response_id);
    auralization.register_impulse_response(impulse_response_id, ir_samples)?;
    let request = PlaySoundRequest { sound_id, impulse_response_id, gain };
    let result = auralization.play_sound(request);
    proof {
        if result is Ok {
            let id = result->Ok_0;
            let voices = auralization.spec_voices();
            if has_voice(old(auralization).spec_voices(), id) {
                let k = voice_index(old(auralization).spec_voices(), id);
                assert(voice_header(voices[k]) == (id, sound_id, 0usize, gain, VoiceState::Playing));
            } else {
                assert(voice_header(voices[voices.len() - 1]) == (id, sound_id, 0usize, gain, VoiceState::Playing));
            }
        }
    }
    result
}

/// What the playback worker received from the command channel.
#[derive(Debug, Clone, Copy, PartialEq, Eq, Structural)]
pub enum CommandKind {
    /// Stop the worker and hand the engine core back.
    Shutdown,
    /// Any other engine request, answered on the worker.
    Request,
}

/// What happened since the playback worker's last decision.
#[derive(Debug, Clone, Copy, PartialEq, Eq, Structural)]
pub enum LoopEvent {
    /// A new iteration starts.
    IterationStart { has_active_voices: bool },
    /// A blocking wait for a command returned; `None` means the channel closed.
    Waited { command: Option<CommandKind> },
    /// A non-blocking poll returned; `None` means nothing was queued.
    Polled { command: Option<CommandKind>, has_active_voices: bool, stop_requested: bool },
    /// A command was applied to the engine core.
    CommandHandled,
    /// Rendering a block failed.
    RenderFailed,
    /// A rendered block was offered to the player; `accepted` is false once
    /// playback stopped.
    Pushed { accepted: bool },
    /// Pushing a rendered block failed.
    PushFailed,
}

/// What the playback worker does next.
#[derive(Debug, Clone, Copy, PartialEq, Eq, Structural)]
pub enum LoopAction {
    /// Block until the next command arrives.
    WaitForCommand,
    /// Take the next queued command without blocking.
    PollCommand,
    /// Apply the received request to the engine core.
    HandleCommand,
    /// Render one block of the active voices and push it to the player.
    RenderAndPush,
    /// Begin the next iteration.
    NextIteration,
    /// Let the player drain what is queued, then exit with its result.
    FinishAndExit,
    /// Stop the player and exit with its result.
    StopAndExit,
    /// Stop the player and exit with the rendering error.
    StopAndExitWithError,
    /// Exit successfully: the player no longer accepts blocks.
    Exit,
    /// Exit with the push error.
    ExitWithError,
}

/// Decision table of the playback worker loop.
///
/// Without active voices the worker sleeps on the command channel: a
/// shutdown lets queued audio finish, a closed channel stops playback. With
/// active voices it drains queued requests without blocking (a shutdown
/// there stops playback at once), then renders and pushes one block. When
/// idle and asked to stop it exits, since no push remains to notice the stop.
pub open spec fn spec_runtime_next(event: LoopEvent) -> LoopAction {
    match event {
        LoopEvent::IterationStart { has_active_voices } =>
            if has_active_voices { LoopAction::PollCommand } else { LoopAction::WaitForCommand },
        LoopEvent::Waited { command } => match command {
            None => LoopAction::StopAndExit,
            Some(CommandKind::Shutdown) => LoopAction::FinishAndExit,
            Some(CommandKind::Request) => LoopAction::HandleCommand,
        },
        LoopEvent::Polled { command, has_active_voices, stop_requested } => match command {
            Some(CommandKind::Shutdown) => LoopAction::StopAndExit,
            Some(CommandKind::Request) => LoopAction::HandleCommand,
            None => if has_active_voices {
                LoopAction::RenderAndPush
            } else if stop_requested {
                LoopAction::StopAndExit
            } else {
                LoopAction::NextIteration
            },
        },
        LoopEvent::CommandHandled => LoopAction::PollCommand,
        LoopEvent::RenderFailed => LoopAction::StopAndExitWithError,
        LoopEvent::Pushed { accepted } => if accepted { LoopAction::NextIteration } else { LoopAction::Exit },
        LoopEvent::PushFailed => LoopAction::ExitWithError,
    }
}

/// Decides the playback worker's next step.
pub fn runtime_next(event: LoopEvent) -> (action: LoopAction)
    ensures
        action == spec_runtime_next(event),
{
    match event {
        LoopEvent::IterationStart { has_active_voices } =>
            if has_active_voices { LoopAction::PollCommand } else { LoopAction::WaitForCommand },
        LoopEvent::Waited { command } => match command {
            None => LoopAction::StopAndExit,
            Some(CommandKind::Shutdown) => LoopAction::FinishAndExit,
            Some(CommandKind::Request) => LoopAction::HandleCommand,
        },
        LoopEvent::Polled { command, has_active_voices, stop_requested } => match command {
            Some(CommandKind::Shutdown) => LoopAction::StopAndExit,
            Some(CommandKind::Request) => LoopAction::HandleCommand,
            None => if has_active_voices {
                LoopAction::RenderAndPush
            } else if stop_requested {
                LoopAction::StopAndExit
            } else {
                LoopAction::NextIteration
            },
        },
        LoopEvent::CommandHandled => LoopAction::PollCommand,
        LoopEvent::RenderFailed => LoopAction::StopAndExitWithError,
        LoopEvent::Pushed { accepted } => if accepted { LoopAction::NextIteration } else { LoopAction::Exit },
        LoopEvent::PushFailed => LoopAction::ExitWithError,
    }
}

/// A shutdown request always ends the worker, and only a shutdown received
/// while idle lets the queued audio play out.
pub proof fn law_shutdown_ends_worker(has_active_voices: bool, stop_requested: bool)
    ensures
        spec_runtime_next(LoopEvent::Waited { command: Some(CommandKind::Shutdown) }) == LoopAction::FinishAndExit,
        spec_runtime_next(LoopEvent::Polled {
            command: Some(CommandKind::Shutdown),
            has_active_voices,
            stop_requested,
        }) == LoopAction::StopAndExit,
{
}

/// Every request that reaches the worker is handled, whether it was waited
/// for while idle or polled while voices play: a received request never
/// leads to rendering, stopping or exiting before it has been answered.
pub proof fn law_requests_are_always_handled(has_active_voices: bool, stop_requested: bool)
    ensures
        spec_runtime_next(LoopEvent::Waited { command: Some(CommandKind::Request) }) == LoopAction::HandleCommand,
        spec_runtime_next(LoopEvent::Polled {
            command: Some(CommandKind::Request),
            has_active_voices,
            stop_requested,
        }) == LoopAction::HandleCommand,
{
}

/// While voices play the worker never blocks on the channel: it drains the
/// queued commands, polling again after each one it handles, and once the
/// queue is empty it renders and pushes a block, whether or not a stop was
/// requested (the push is what notices the stop). Without voices it blocks
/// for the next command instead.
pub proof fn law_playing_worker_drains_then_renders(stop_requested: bool)
    ensures
        spec_runtime_next(LoopEvent::IterationStart { has_active_voices: true }) == LoopAction::PollCommand,
        spec_runtime_next(LoopEvent::IterationStart { has_active_voices: false }) == LoopAction::WaitForCommand,
        spec_runtime_next(LoopEvent::CommandHandled) == LoopAction::PollCommand,
        spec_runtime_next(LoopEvent::Polled {
            command: None,
            has_active_voices: true,
            stop_requested,
        }) == LoopAction::RenderAndPush,
{
}

/// The worker ends exactly when it must: an idle worker asked to stop stops
/// playback, a closed channel stops playback, a failed render or push ends it
/// with that error, and a player that no longer takes blocks ends it
/// cleanly; an idle worker with no stop request and a taken block both go
/// round again.
pub proof fn law_worker_ends_on_stop_or_failure()
    ensures
        spec_runtime_next(LoopEvent::Polled { command: None, has_active_voices: false, stop_requested: true })
            == LoopAction::StopAndExit,
        spec_runtime_next(LoopEvent::Polled { command: None, has_active_voices: false, stop_requested: false })
            == LoopAction::NextIteration,
        spec_runtime_next(LoopEvent::Waited { command: None }) == LoopAction::StopAndExit,
        spec_runtime_next(LoopEvent::RenderFailed) == LoopAction::StopAndExitWithError,
        spec_runtime_next(LoopEvent::PushFailed) == LoopAction::ExitWithError,
        spec_runtime_next(LoopEvent::Pushed { accepted: false }) == LoopAction::Exit,
        spec_runtime_next(LoopEvent::Pushed { accepted: true }) == LoopAction::NextIteration,
{
}

/// How the sound engine is driven.
pub enum EngineMode<D, R> {
    /// The caller renders blocks on request from the direct core `D`.
    Direct(D),
    /// A background player `R` owns the core and renders on its own.
    Runtime(R),
}

/// How an attempt to start the background player around a core ended.
pub enum StartOutcome<D, R> {
    /// The player runs.
    Started(R),
    /// Starting failed and handed the core back.
    Recoverable(D, SoundError),
    /// Starting failed and the core was lost.
    Fatal(SoundError),
}

/// Mode after an attempt to start the player: running, back to direct, or
/// none at all once the core was lost.
pub open spec fn mode_after_start<D, R>(outcome: StartOutcome<D, R>) -> Option<EngineMode<D, R>> {
    match outcome {
        StartOutcome::Started(runtime) => Some(EngineMode::Runtime(runtime)),
        StartOutcome::Recoverable(core, _) => Some(EngineMode::Direct(core)),
        StartOutcome::Fatal(_) => None,
    }
}

/// What an attempt to start the player reports.
pub open spec fn result_after_start<D, R>(outcome: StartOutcome<D, R>) -> SoundResult<()> {
    match outcome {
        StartOutcome::Started(_) => Ok(()),
        StartOutcome::Recoverable(_, error) => Err(error),
        StartOutcome::Fatal(error) => Err(error),
    }
}

/// Mode after the player stopped: direct again when it handed the core back.
pub open spec fn mode_after_stop<D, R>(core: Option<D>) -> Option<EngineMode<D, R>> {
    match core {
        Some(core) => Some(EngineMode::Direct(core)),
        None => None,
    }
}

/// Public handle that switches between direct rendering and a background
/// player. While a switch is under way (or after a core was lost) it holds
/// no mode.
pub struct SoundEngine<D, R> {
    mode: Option<EngineMode<D, R>>,
}

impl<D, R> SoundEngine<D, R> {
    /// The current mode, if any.
    pub closed spec fn spec_mode(&self) -> Option<EngineMode<D, R>> {
        self.mode
    }

    /// Creates an engine that renders directly from `core`.
    pub fn new(core: D) -> (engine: Self)
        ensures
            engine.spec_mode() == Some(EngineMode::<D, R>::Direct(core)),
    {
        SoundEngine { mode: Some(EngineMode::Direct(core)) }
    }

    /// Returns whether the background player is running.
    pub fn is_sound_player_running(&self) -> (running: bool)
        ensures
            running == (self.spec_mode() matches Some(EngineMode::Runtime(_))),
    {
        match &self.mode {
            Some(EngineMode::Runtime(_)) => true,
            _ => false,
        }
    }

    /// Starts the background player around the direct core with `start`.
    ///
    /// Fails with `InvalidState` when the player already runs (which keeps
    /// running) or no mode is held; otherwise the mode and the result follow
    /// how starting ended.
    pub fn start_sound_player<F: FnOnce(D) -> StartOutcome<D, R>>(&mut self, start: F) -> (result: SoundResult<()>)
        requires
            old(self).spec_mode() matches Some(EngineMode::Direct(core)) ==> call_requires(start, (core,)),
        ensures
            match old(self).spec_mode() {
                None => final(self).spec_mode() is None && result is Err
                    && result->Err_0@.code == ErrorCode::InvalidState,
                Some(EngineMode::Runtime(_)) => final(self).spec_mode() == old(self).spec_mode() && result is Err
                    && result->Err_0@.code == ErrorCode::InvalidState,
                Some(EngineMode::Direct(core)) => exists|outcome: StartOutcome<D, R>| {
                    &&& #[trigger] call_ensures(start, (core,), outcome)
                    &&& final(self).spec_mode() == mode_after_start(outcome)
                    &&& result == result_after_start(outcome)
                },
            },
    {
        let mode = self.mode.take();
        match mode {
            None => Err(SoundError::invalid_state("sound engine is already transitioning modes")),
            Some(EngineMode::Direct(core)) => {
                let outcome = start(core);
                let ghost started = outcome;
                match outcome {
                    StartOutcome::Started(runtime) => {
                        self.mode = Some(EngineMode::Runtime(runtime));
                        assert(self.mode == mode_after_start(started));
                        Ok(())
                    },
                    StartOutcome::Recoverable(core, error) => {
                        self.mode = Some(EngineMode::Direct(core));
                        assert(self.mode == mode_after_start(started));
                        Err(error)
                    },
                    StartOutcome::Fatal(error) => {
                        assert(self.mode == mode_after_start(started));
                        Err(error)
                    },
                }
            },
            Some(EngineMode::Runtime(runtime)) => {
                self.mode = Some(EngineMode::Runtime(runtime));
                Err(SoundError::invalid_state("sound player is already running"))
            },
        }
    }

    /// Stops the background player with `stop` and returns to direct mode
    /// when it hands the core back.
    ///
    /// In direct mode this does nothing and succeeds; without a mode it
    /// fails with `InvalidState`.
    pub fn stop_sound_player<F: FnOnce(R) -> (Option<D>, SoundResult<()>)>(&mut self, stop: F) -> (result: SoundResult<()>)
        requires
            old(self).spec_mode() matches Some(EngineMode::Runtime(runtime)) ==> call_requires(stop, (runtime,)),
        ensures
            match old(self).spec_mode() {
                None => final(self).spec_mode() is None && result is Err
                    && result->Err_0@.code == ErrorCode::InvalidState,
                Some(EngineMode::Direct(_)) => final(self).spec_mode() == old(self).spec_mode() && result is Ok,
                Some(EngineMode::Runtime(runtime)) => exists|stopped: (Option<D>, SoundResult<()>)| {
                    &&& #[trigger] call_ensures(stop, (runtime,), stopped)
                    &&& final(self).spec_mode() == mode_after_stop::<D, R>(stopped.0)
                    &&& result == stopped.1
                },
            },
    {
        let mode = self.mode.take();
        match mode {
            None => Err(SoundError::invalid_state("sound engine is already transitioning modes")),
            Some(EngineMode::Direct(core)) => {
                self.mode = Some(EngineMode::Direct(core));
                Ok(())
            },
            Some(EngineMode::Runtime(runtime)) => {
                let (core, result) = stop(runtime);
                let ghost stopped_core = core;
                if let Some(core) = core {
                    self.mode = Some(EngineMode::Direct(core));
                }
                assert(self.mode == mode_after_stop::<D, R>(stopped_core));
                result
            },
        }
    }
}

} // verus!
