//! Recorder state and action generations.
//!
//! An action is one recording together with its transcription and output.
//! Starting a recording and cancelling both move the action generation on;
//! a transcription or output that finishes under an older generation throws
//! its result away. The transcribing generation is 0 when no transcription
//! runs, and doubles as the "an action is in progress" flag that gates Escape.

use vstd::prelude::*;

verus! {

/// Below this a recording is taken for an accidental key press.
pub const MIN_DURATION_MS: u64 = 300;

/// Live recording state.
#[derive(Debug, Clone, Copy, PartialEq, Eq, Structural)]
pub enum RecorderState {
    Idle,
    Recording {
        /// Start time on the caller's monotonic millisecond clock.
        started_at_ms: u64,
        /// Device sample rate; the samples are resampled from it at stop.
        sample_rate: u32,
    },
}

/// The action generation and the generation of the running transcription (0 = none).
#[derive(Debug, Clone, Copy, PartialEq, Eq, Structural)]
pub struct Generations {
    pub action: u64,
    pub transcribing: u64,
}

/// Recorder bookkeeping: its state and the WAV file of the last finished recording.
#[derive(Debug)]
pub struct Recorder {
    pub state: RecorderState,
    pub last_recording: Option<String>,
}

/// What `stop` found.
#[derive(Debug, Clone, Copy, PartialEq, Eq, Structural)]
pub enum StopOutcome {
    /// Nothing was recording; nothing changed.
    NotRecording,
    /// The recording ended but is shorter than `MIN_DURATION_MS`.
    TooShort { duration_ms: u64 },
    /// The recording ended and goes on to preprocessing and transcription.
    Finished { duration_ms: u64, sample_rate: u32 },
}

/// What `cancel` did.
#[derive(Debug, PartialEq, Eq)]
pub struct CancelOutcome {
    pub was_recording: bool,
    pub was_transcribing: bool,
    /// The WAV of the cancelled transcription, to be removed.
    pub remove_file: Option<String>,
}

/// Label of the recorder for the pill's cold start.
#[derive(Debug, Clone, Copy, PartialEq, Eq, Structural)]
pub enum RecorderStatus {
    Transcribing,
    Recording,
    Idle,
}

/// What the global shortcut asks of the recorder.
#[derive(Debug, Clone, Copy, PartialEq, Eq, Structural)]
pub enum RecorderCommand {
    Start,
    Stop,
    Cancel,
    Nothing,
}

pub open spec fn recording(state: RecorderState) -> bool {
    state is Recording
}

pub open spec fn stale(g: Generations, generation: u64) -> bool {
    g.action != generation
}

pub open spec fn active(state: RecorderState, g: Generations) -> bool {
    recording(state) || g.transcribing != 0
}

impl Generations {
    pub open spec fn action_bumped(self) -> Generations {
        Generations { action: if self.action == u64::MAX { 0 } else { (self.action + 1) as u64 }, ..self }
    }

    /// No action has run yet.
    pub fn new() -> (g: Generations)
        ensures
            g.action == 0,
            g.transcribing == 0,
    {
        Generations { action: 0, transcribing: 0 }
    }
}

/// The generations after a cancel that found `was_recording` and the given generations.
pub open spec fn cancelled(g: Generations, was_recording: bool) -> Generations {
    let was_transcribing = g.transcribing != 0;
    let g0 = Generations { transcribing: 0, ..g };
    if was_recording || was_transcribing {
        g0.action_bumped()
    } else {
        g0
    }
}

/// The current action generation.
pub fn current_generation(g: &Generations) -> (r: u64)
    ensures
        r == g.action,
{
    g.action
}

/// True when `generation` was superseded (by a cancel or a newer action).
pub fn is_stale(g: &Generations, generation: u64) -> (r: bool)
    ensures
        r == stale(*g, generation),
{
    g.action != generation
}

/// A transcription is running.
pub fn is_transcribing(g: &Generations) -> (r: bool)
    ensures
        r == (g.transcribing != 0),
{
    g.transcribing != 0
}

/// The transcription of `generation` has started.
pub fn set_transcribing(g: &mut Generations, generation: u64)
    ensures
        *final(g) == (Generations { transcribing: generation, ..*old(g) }),
        forall|st: RecorderState|
            #[trigger] recorder_step(st, *old(g), RecorderEvent::SetTranscribing { generation })
                == (st, *final(g)),
{
    g.transcribing = generation;
}

/// The transcription of `generation` has finished: only its owner clears the flag,
/// so the late end of an old action cannot clear a newer one.
pub fn clear_transcribing(g: &mut Generations, generation: u64)
    ensures
        *final(g) == (if old(g).transcribing == generation {
            Generations { transcribing: 0, ..*old(g) }
        } else {
            *old(g)
        }),
        forall|st: RecorderState|
            #[trigger] recorder_step(st, *old(g), RecorderEvent::ClearTranscribing { generation })
                == (st, *final(g)),
{
    if g.transcribing == generation {
        g.transcribing = 0;
    }
}

/// A recording is running.
pub fn is_recording(state: &RecorderState) -> (r: bool)
    ensures
        r == recording(*state),
{
    match state {
        RecorderState::Recording { .. } => true,
        RecorderState::Idle => false,
    }
}

/// A recording or a transcription is running (Escape only matters then).
pub fn is_active(state: &RecorderState, g: &Generations) -> (r: bool)
    ensures
        r == active(*state, *g),
{
    is_recording(state) || is_transcribing(g)
}

/// "transcribing" wins over "recording", which wins over "idle".
pub fn recorder_status(state: &RecorderState, g: &Generations) -> (r: RecorderStatus)
    ensures
        r == (if g.transcribing != 0 {
            RecorderStatus::Transcribing
        } else if recording(*state) {
            RecorderStatus::Recording
        } else {
            RecorderStatus::Idle
        }),
{
    if is_transcribing(g) {
        RecorderStatus::Transcribing
    } else if is_recording(state) {
        RecorderStatus::Recording
    } else {
        RecorderStatus::Idle
    }
}

impl RecorderStatus {
    /// The status word the pill expects.
    pub fn label(&self) -> (r: String)
        ensures
            r@ == (match *self {
                RecorderStatus::Transcribing => "transcribing"@,
                RecorderStatus::Recording => "recording"@,
                RecorderStatus::Idle => "idle"@,
            }),
    {
        match self {
            RecorderStatus::Transcribing => String::from_str("transcribing"),
            RecorderStatus::Recording => String::from_str("recording"),
            RecorderStatus::Idle => String::from_str("idle"),
        }
    }
}

/// What the global shortcut handler does for one shortcut event.
///
/// Escape cancels on press and never starts or stops. In "toggle" mode only the
/// press counts and flips between start and stop; in every other mode
/// (push-to-talk) the press starts and the release stops a running recording.
pub fn shortcut_command(is_escape: bool, mode: &str, pressed: bool, state: &RecorderState) -> (r:
    RecorderCommand)
    ensures
        r == shortcut_command_spec(is_escape, mode@ == "toggle"@, pressed, recording(*state)),
{
    if is_escape {
        if pressed {
            RecorderCommand::Cancel
        } else {
            RecorderCommand::Nothing
        }
    } else if crate::text::str_eq(mode, "toggle") {
        if !pressed {
            RecorderCommand::Nothing
        } else if is_recording(state) {
            RecorderCommand::Stop
        } else {
            RecorderCommand::Start
        }
    } else if pressed {
        RecorderCommand::Start
    } else if is_recording(state) {
        RecorderCommand::Stop
    } else {
        RecorderCommand::Nothing
    }
}

pub open spec fn shortcut_command_spec(
    is_escape: bool,
    toggle_mode: bool,
    pressed: bool,
    is_rec: bool,
) -> RecorderCommand {
    if is_escape {
        if pressed {
            RecorderCommand::Cancel
        } else {
            RecorderCommand::Nothing
        }
    } else if toggle_mode {
        if !pressed {
            RecorderCommand::Nothing
        } else if is_rec {
            RecorderCommand::Stop
        } else {
            RecorderCommand::Start
        }
    } else if pressed {
        RecorderCommand::Start
    } else if is_rec {
        RecorderCommand::Stop
    } else {
        RecorderCommand::Nothing
    }
}

/// Escape goes back to the other applications once no action is in progress.
pub fn escape_can_be_released(state: &RecorderState, g: &Generations) -> (r: bool)
    ensures
        r == !active(*state, *g),
{
    !is_active(state, g)
}

impl Recorder {
    /// Idle, with no recording on disk.
    pub fn new() -> (r: Recorder)
        ensures
            r.state == RecorderState::Idle,
            r.last_recording is None,
    {
        Recorder { state: RecorderState::Idle, last_recording: None }
    }

    /// Records the start of a recording, once the microphone stream plays.
    /// Returns false (and changes nothing) when another recording started meanwhile;
    /// otherwise the recorder records from `now_ms` at `sample_rate` and a new action begins.
    pub fn commit_start(&mut self, g: &mut Generations, now_ms: u64, sample_rate: u32) -> (started:
        bool)
        ensures
            started == !recording(old(self).state),
            started ==> final(self).state == (RecorderState::Recording {
                started_at_ms: now_ms,
                sample_rate,
            }),
            started ==> *final(g) == old(g).action_bumped(),
            !started ==> final(self).state == old(self).state && *final(g) == *old(g),
            final(self).last_recording == old(self).last_recording,
            (final(self).state, *final(g)) == recorder_step(
                old(self).state,
                *old(g),
                RecorderEvent::Start { now_ms, sample_rate },
            ),
    {
        if is_recording(&self.state) {
            return false;
        }
        self.state = RecorderState::Recording { started_at_ms: now_ms, sample_rate };
        g.action = g.action.wrapping_add(1);
        true
    }

    /// Ends the running recording at `now_ms`; the recorder is idle afterwards.
    pub fn stop(&mut self, now_ms: u64) -> (r: StopOutcome)
        ensures
            final(self).state == RecorderState::Idle,
            final(self).last_recording == old(self).last_recording,
            r == stop_spec(old(self).state, now_ms),
            forall|g: Generations|
                #[trigger] recorder_step(old(self).state, g, RecorderEvent::Stop { now_ms }) == (
                    final(self).state,
                    g,
                ),
    {
        match self.state {
            RecorderState::Idle => StopOutcome::NotRecording,
            RecorderState::Recording { started_at_ms, sample_rate } => {
                self.state = RecorderState::Idle;
                let duration_ms = now_ms.saturating_sub(started_at_ms);
                if duration_ms < MIN_DURATION_MS {
                    StopOutcome::TooShort { duration_ms }
                } else {
                    StopOutcome::Finished { duration_ms, sample_rate }
                }
            },
        }
    }

    /// The WAV of the recording that just finished is on disk at `path`: it becomes the
    /// last recording (the file a cancel during its transcription removes), and the
    /// action it goes on with is the current generation.
    pub fn finish_recording(&mut self, g: &Generations, path: String) -> (generation: u64)
        ensures
            final(self).state == old(self).state,
            final(self).last_recording == Some(path),
            generation == g.action,
    {
        self.last_recording = Some(path);
        g.action
    }

    /// Cancels the whole action in progress (Escape): the recording is dropped without a WAV,
    /// the running transcription is forgotten, and when anything was in progress a new
    /// generation makes every late result of the cancelled action stale. The WAV of a
    /// cancelled transcription is handed back for removal. With nothing in progress
    /// nothing changes.
    pub fn cancel(&mut self, g: &mut Generations) -> (r: CancelOutcome)
        ensures
            r.was_recording == recording(old(self).state),
            r.was_transcribing == (old(g).transcribing != 0),
            final(self).state == RecorderState::Idle,
            *final(g) == cancelled(*old(g), r.was_recording),
            (final(self).state, *final(g)) == recorder_step(
                old(self).state,
                *old(g),
                RecorderEvent::Cancel,
            ),
            r.remove_file == (if r.was_transcribing {
                old(self).last_recording
            } else {
                None
            }),
            final(self).last_recording == (if r.was_transcribing {
                None
            } else {
                old(self).last_recording
            }),
    {
        let was_recording = is_recording(&self.state);
        self.state = RecorderState::Idle;
        let was_transcribing = g.transcribing != 0;
        g.transcribing = 0;
        if !was_recording && !was_transcribing {
            return CancelOutcome { was_recording, was_transcribing, remove_file: None };
        }
        g.action = g.action.wrapping_add(1);
        let remove_file = if was_transcribing {
            self.last_recording.take()
        } else {
            None
        };
        CancelOutcome { was_recording, was_transcribing, remove_file }
    }
}

pub open spec fn stop_spec(state: RecorderState, now_ms: u64) -> StopOutcome {
    match state {
        RecorderState::Idle => StopOutcome::NotRecording,
        RecorderState::Recording { started_at_ms, sample_rate } => {
            let d = if now_ms >= started_at_ms { (now_ms - started_at_ms) as u64 } else { 0 };
            if d < MIN_DURATION_MS {
                StopOutcome::TooShort { duration_ms: d }
            } else {
                StopOutcome::Finished { duration_ms: d, sample_rate }
            }
        },
    }
}

/// Cancelling an action in progress makes its generation stale, so no late
/// transcription, history entry or paste of it goes through.
pub proof fn law_cancel_makes_action_stale(state: RecorderState, g: Generations)
    requires
        active(state, g),
    ensures
        stale(cancelled(g, recording(state)), g.action),
{
}

/// After a cancel nothing is in progress: no recording, no transcription.
pub proof fn law_cancel_leaves_nothing_active(g: Generations, was_recording: bool)
    ensures
        !active(RecorderState::Idle, cancelled(g, was_recording)),
{
}

/// Cancel with nothing in progress changes no generation.
pub proof fn law_cancel_when_idle_is_no_op(g: Generations)
    requires
        g.transcribing == 0,
    ensures
        cancelled(g, false) == g,
{
}

/// A second cancel right after the first one finds nothing to do.
pub proof fn law_cancel_twice(g: Generations, was_recording: bool)
    ensures
        cancelled(cancelled(g, was_recording), false) == cancelled(g, was_recording),
{
}

/// Beginning a new action makes the previous generation stale.
pub proof fn law_new_action_makes_previous_stale(g: Generations)
    ensures
        stale(g.action_bumped(), g.action),
        !stale(g.action_bumped(), g.action_bumped().action),
{
}

/// Only the owner of the transcribing flag clears it: the late end of an older
/// transcription leaves a newer one marked as running.
pub proof fn law_clear_by_other_generation_keeps_flag(g: Generations, newer: u64, older: u64)
    requires
        newer != older,
    ensures
        ({
            let set = Generations { transcribing: newer, ..g };
            let cleared = if set.transcribing == older {
                Generations { transcribing: 0, ..set }
            } else {
                set
            };
            cleared.transcribing == newer
        }),
{
}

/// Stopping twice: the second stop finds nothing recording.
pub proof fn law_stop_twice(now2: u64)
    ensures
        stop_spec(RecorderState::Idle, now2) == StopOutcome::NotRecording,
{
}

/// After a cancel, releasing the push-to-talk shortcut starts or stops nothing.
pub proof fn law_release_after_cancel_does_nothing(is_escape: bool, toggle_mode: bool)
    ensures
        shortcut_command_spec(is_escape, toggle_mode, false, recording(RecorderState::Idle))
            == RecorderCommand::Nothing,
{
}

/// One operation on the recorder and the generations.
#[derive(Debug, Clone, Copy, PartialEq, Eq, Structural)]
pub enum RecorderEvent {
    /// `Recorder::commit_start`.
    Start { now_ms: u64, sample_rate: u32 },
    /// `Recorder::stop`.
    Stop { now_ms: u64 },
    /// `Recorder::cancel`.
    Cancel,
    /// `set_transcribing`.
    SetTranscribing { generation: u64 },
    /// `clear_transcribing`.
    ClearTranscribing { generation: u64 },
}

/// The recorder state and generations after one operation, as each function's
/// contract gives them.
pub open spec fn recorder_step(st: RecorderState, g: Generations, e: RecorderEvent) -> (
    RecorderState,
    Generations,
) {
    match e {
        RecorderEvent::Start { now_ms, sample_rate } => if recording(st) {
            (st, g)
        } else {
            (RecorderState::Recording { started_at_ms: now_ms, sample_rate }, g.action_bumped())
        },
        RecorderEvent::Stop { .. } => (RecorderState::Idle, g),
        RecorderEvent::Cancel => (RecorderState::Idle, cancelled(g, recording(st))),
        RecorderEvent::SetTranscribing { generation } => (
            st,
            Generations { transcribing: generation, ..g },
        ),
        RecorderEvent::ClearTranscribing { generation } => (
            st,
            if g.transcribing == generation {
                Generations { transcribing: 0, ..g }
            } else {
                g
            },
        ),
    }
}

/// The operation moves the action generation on: a start that begins a recording, or
/// a cancel with something in progress.
pub open spec fn bumps_generation(st: RecorderState, g: Generations, e: RecorderEvent) -> bool {
    match e {
        RecorderEvent::Start { .. } => !recording(st),
        RecorderEvent::Cancel => active(st, g),
        _ => false,
    }
}

pub open spec fn run_events(st: RecorderState, g: Generations, es: Seq<RecorderEvent>) -> (
    RecorderState,
    Generations,
)
    decreases es.len(),
{
    if es.len() == 0 {
        (st, g)
    } else {
        let next = recorder_step(st, g, es[0]);
        run_events(next.0, next.1, es.drop_first())
    }
}

/// How many operations of `es` move the action generation on.
pub open spec fn bump_count(st: RecorderState, g: Generations, es: Seq<RecorderEvent>) -> nat
    decreases es.len(),
{
    if es.len() == 0 {
        0
    } else {
        let next = recorder_step(st, g, es[0]);
        (if bumps_generation(st, g, es[0]) {
            1nat
        } else {
            0nat
        }) + bump_count(next.0, next.1, es.drop_first())
    }
}

/// How many starts and cancels `es` holds.
pub open spec fn starts_and_cancels(es: Seq<RecorderEvent>) -> nat
    decreases es.len(),
{
    if es.len() == 0 {
        0
    } else {
        (if es[0] is Start || es[0] is Cancel {
            1nat
        } else {
            0nat
        }) + starts_and_cancels(es.drop_first())
    }
}

/// The action generation moves only forward, one step for each start that begins a
/// recording and each cancel with something in progress; stops, reads and the
/// transcribing flag leave it alone. It wraps only after `u64::MAX` such steps.
pub proof fn law_generation_moves_only_on_start_or_cancel(
    st: RecorderState,
    g: Generations,
    es: Seq<RecorderEvent>,
)
    ensures
        run_events(st, g, es).1.action == (g.action + bump_count(st, g, es))
            % 0x1_0000_0000_0000_0000,
        bump_count(st, g, es) <= starts_and_cancels(es),
        starts_and_cancels(es) == 0 ==> run_events(st, g, es).1.action == g.action,
        g.action + bump_count(st, g, es) <= u64::MAX ==> run_events(st, g, es).1.action
            >= g.action,
    decreases es.len(),
{
    let m: int = 0x1_0000_0000_0000_0000;
    if es.len() > 0 {
        let next = recorder_step(st, g, es[0]);
        law_generation_moves_only_on_start_or_cancel(next.0, next.1, es.drop_first());
        let b: int = if bumps_generation(st, g, es[0]) {
            1
        } else {
            0
        };
        assert(next.1.action == (g.action + b) % m);
        vstd::arithmetic::div_mod::lemma_add_mod_noop_right(
            bump_count(next.0, next.1, es.drop_first()) as int,
            g.action + b,
            m,
        );
    } else {
        vstd::arithmetic::div_mod::lemma_small_mod(g.action as nat, m as nat);
    }
    if g.action + bump_count(st, g, es) <= u64::MAX {
        vstd::arithmetic::div_mod::lemma_small_mod(
            (g.action + bump_count(st, g, es)) as nat,
            m as nat,
        );
    }
}

} // verus!
