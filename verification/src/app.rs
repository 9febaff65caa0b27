//! A coaching session as a state machine.
//!
//! The stages follow one another:
//! Welcome, ProposingTheme, ConfirmReady, Recording, Transcribing,
//! AskingFollowups, RecordingFollowup and TranscribingFollowup in turn for each
//! follow-up, Measuring, GeneratingFeedback, Feedback. Besides them there are
//! screens for past sessions, for personas and for the configuration.
//!
//! Everything outside, such as the microphone, the model and the screen, is
//! reached through actions: a step returns what is to be done, and what comes of
//! it is reported back. A recording is carried from stage to stage as it is; `A`
//! is its type.

use vstd::prelude::*;

use crate::analysis::DeliveryMetrics;
use crate::coach;
use crate::draft::PersonaDraft;
use crate::history;
use crate::history::Session;
use crate::llm::ChatMessage;
use crate::personas::{Persona, PersonaStore};
use crate::stt::TranscriptionResult;
use crate::text;
use crate::tts;

verus! {

/// The model that is asked unless another one is given.
pub const DEFAULT_MODEL: &'static str = "llama3.1:8b";

/// How long an answer has to be recorded at least before it can be stopped, in
/// nanoseconds.
pub const MIN_RECORD: u64 = 20_000_000_000;

/// How long an answer can be recorded at most.
pub const MAX_RECORD: u64 = 180_000_000_000;

/// How long the answer to a follow-up can be recorded at most.
pub const FOLLOWUP_MAX: u64 = 90_000_000_000;

/// How long the microphone can be tested at most.
pub const TEST_MAX: u64 = 10_000_000_000;

/// What is spoken to try out a voice.
pub const VOICE_SAMPLE: &'static str = "Hello! This is a preview of the selected voice.";

/// Where a session stands, or which screen is shown.
#[derive(Debug)]
pub enum Stage<A> {
    Welcome,
    ProposingTheme,
    ConfirmReady { theme: String, prompt: String },
    Recording { theme: String, prompt: String },
    Transcribing { theme: String, prompt: String, samples: A },
    AskingFollowups { theme: String, prompt: String, transcript: String, samples: A },
    RecordingFollowup {
        theme: String,
        prompt: String,
        primary_transcript: String,
        primary_samples: A,
        followups: Vec<String>,
        current: usize,
        followup_answers: Vec<String>,
    },
    TranscribingFollowup {
        theme: String,
        prompt: String,
        primary_transcript: String,
        primary_samples: A,
        followups: Vec<String>,
        current: usize,
        followup_answers: Vec<String>,
        samples: A,
    },
    /// All has been said, and the delivery of the main answer is being measured.
    Measuring {
        theme: String,
        prompt: String,
        transcript: String,
        samples: A,
        followups: Vec<String>,
        followup_answers: Vec<String>,
    },
    GeneratingFeedback {
        theme: String,
        prompt: String,
        transcript: String,
        followups: Vec<String>,
        followup_answers: Vec<String>,
        metrics: DeliveryMetrics,
    },
    Feedback {
        theme: String,
        prompt: String,
        transcript: String,
        followups: Vec<String>,
        followup_answers: Vec<String>,
        metrics: DeliveryMetrics,
        feedback: String,
        saved: bool,
    },
    History { selected: Option<usize> },
    Trends,
    Personas,
    EditPersona { draft: PersonaDraft },
    Debug { test_recording: bool, test_result: Option<Result<TranscriptionResult, String>> },
    Error(String),
}

impl<A> Stage<A> {
    /// The stages in which the persona may be switched: nothing is under way, and
    /// no text is being edited.
    pub open spec fn stable(self) -> bool {
        match self {
            Stage::Welcome => true,
            Stage::Feedback { .. } => true,
            Stage::History { .. } => true,
            Stage::Trends => true,
            Stage::Personas => true,
            Stage::Debug { .. } => true,
            Stage::Error(_) => true,
            _ => false,
        }
    }

    /// Whether the persona may be switched.
    pub fn is_stable(&self) -> (r: bool)
        ensures
            r == self.stable(),
    {
        match self {
            Stage::Welcome => true,
            Stage::Feedback { .. } => true,
            Stage::History { .. } => true,
            Stage::Trends => true,
            Stage::Personas => true,
            Stage::Debug { .. } => true,
            Stage::Error(_) => true,
            _ => false,
        }
    }

    /// Whether the microphone is open in this stage.
    pub open spec fn records(self) -> bool {
        match self {
            Stage::Recording { .. } => true,
            Stage::RecordingFollowup { .. } => true,
            Stage::Debug { test_recording, .. } => test_recording,
            _ => false,
        }
    }

    /// Whether the microphone is open in this stage.
    pub fn is_recording(&self) -> (r: bool)
        ensures
            r == self.records(),
    {
        match self {
            Stage::Recording { .. } => true,
            Stage::RecordingFollowup { .. } => true,
            Stage::Debug { test_recording, .. } => *test_recording,
            _ => false,
        }
    }

    /// Whether the stage is one that a session can be in, given the number of
    /// personas. Follow-ups are answered in their order: those before the current
    /// one have been answered, and once all is said all have.
    pub open spec fn fits(self, personas: nat) -> bool {
        match self {
            Stage::RecordingFollowup { followups, current, followup_answers, .. } => {
                &&& current < followups@.len() <= coach::MAX_FOLLOWUPS
                &&& followup_answers@.len() == current
            },
            Stage::TranscribingFollowup { followups, current, followup_answers, .. } => {
                &&& current < followups@.len() <= coach::MAX_FOLLOWUPS
                &&& followup_answers@.len() == current
            },
            Stage::Measuring { followups, followup_answers, .. } => {
                followup_answers@.len() == followups@.len() <= coach::MAX_FOLLOWUPS
            },
            Stage::GeneratingFeedback { followups, followup_answers, .. } => {
                followup_answers@.len() == followups@.len() <= coach::MAX_FOLLOWUPS
            },
            Stage::Feedback { followups, followup_answers, .. } => {
                followup_answers@.len() == followups@.len() <= coach::MAX_FOLLOWUPS
            },
            Stage::EditPersona { draft } => draft.edit_idx matches Some(i) ==> i < personas,
            _ => true,
        }
    }
}

/// What is to be done outside.
#[derive(Debug)]
pub enum Action {
    /// Read a text aloud, in place of what is being read.
    Speak { text: String, voice_id: u32 },
    /// Stop reading aloud.
    StopSpeaking,
    /// Ask the model.
    Ask { messages: Vec<ChatMessage>, temperature_tenths: u32, max_tokens: i32 },
    /// Open the microphone.
    OpenMic,
    /// Close the microphone and report the recording.
    FinishRecording,
    /// Close the microphone and drop the recording.
    DropRecording,
    /// Transcribe the recording that was just reported.
    Transcribe,
    /// Report that there can be no transcript, and why.
    TranscriptionFailed(String),
    /// Measure the delivery of the answer that the stage holds, and report it.
    Measure,
    /// Write the personas down.
    SavePersonas,
    /// Append the last session to the log.
    AppendSession,
    /// Delete the sessions of a persona from the log, and read it again.
    ClearHistory(String),
    /// Put a text on the clipboard.
    CopyText(String),
}

/// Whether the microphone is open once some actions have been done, given whether
/// it was before.
pub open spec fn mic_after(open: bool, actions: Seq<Action>) -> bool
    decreases actions.len(),
{
    if actions.len() == 0 {
        open
    } else {
        match actions.last() {
            Action::OpenMic => true,
            Action::FinishRecording => false,
            Action::DropRecording => false,
            _ => mic_after(open, actions.drop_last()),
        }
    }
}

/// The session, and what it draws on.
pub struct CoachApp<A> {
    pub stage: Stage<A>,
    pub model_name: String,
    /// All past sessions, the oldest first.
    pub sessions: Vec<Session>,
    pub persona_store: PersonaStore,
    /// The persona whose history is about to be cleared.
    pub confirm_clear_idx: Option<usize>,
    /// Whether there is a program for transcripts, and if not, why.
    pub transcriber_ready: bool,
    pub transcriber_error: Option<String>,
    /// Whether there is a program for reading aloud, and if not, why.
    pub tts_ready: bool,
    pub tts_error: Option<String>,
    /// The voice that the settings name, if they name one.
    pub voice_named: Option<String>,
}

impl<A> CoachApp<A> {
    /// Whether the state is a possible one.
    pub open spec fn wf(self) -> bool {
        self.persona_store.wf() && self.stage.fits(self.persona_store.personas@.len())
    }

    /// The active persona.
    pub open spec fn persona(self) -> Persona {
        self.persona_store.active_persona()
    }

    /// Whether nothing but the stage differs.
    pub open spec fn differs_in_stage(self, before: CoachApp<A>) -> bool {
        self == (CoachApp { stage: self.stage, ..before })
    }

    /// Whether the microphone is open just where the stage records, if it was so
    /// before and the actions have been done.
    pub open spec fn mic_follows(self, before: CoachApp<A>, actions: Seq<Action>) -> bool {
        mic_after(before.stage.records(), actions) == self.stage.records()
    }

    /// Whether `voice_id` is the voice to speak in: the one that the settings name,
    /// or else the active persona's.
    pub open spec fn speaks_in(self, voice_id: u32) -> bool {
        match self.voice_named {
            Some(s) => tts::names_voice(s@, voice_id) || (voice_id == self.persona().voice_id
                && forall|v: u32| !tts::names_voice(s@, v)),
            None => voice_id == self.persona().voice_id,
        }
    }

    /// Whether an action reads a text aloud.
    pub open spec fn reads_aloud(self, action: Action, text: Seq<char>) -> bool {
        action matches Action::Speak { text: t, voice_id } && t@ == text && self.speaks_in(voice_id)
    }

    /// Whether an action asks the active persona's coach a question.
    pub open spec fn puts(
        self,
        action: Action,
        question: Seq<char>,
        temperature: u32,
        tokens: i32,
    ) -> bool {
        action matches Action::Ask { messages, temperature_tenths, max_tokens } && coach::asks(
            messages@,
            self.persona(),
            question,
        ) && temperature_tenths == temperature && max_tokens == tokens
    }

    /// The voice to speak in.
    fn voice(&self) -> (r: u32)
        requires
            self.wf(),
        ensures
            self.speaks_in(r),
    {
        let own: u32 = self.persona_store.active().voice_id;
        match &self.voice_named {
            Some(s) => tts::choose_voice(Some(s.as_str()), own),
            None => own,
        }
    }

    /// Reads a text aloud.
    pub fn speak(&self, text: String) -> (r: Action)
        requires
            self.wf(),
        ensures
            self.reads_aloud(r, text@),
    {
        Action::Speak { text, voice_id: self.voice() }
    }

    /// A session that has not begun. Past sessions that name no persona are given
    /// the one they belong to.
    pub fn new(
        model: Option<String>,
        persona_store: PersonaStore,
        sessions: Vec<Session>,
        transcriber: Result<(), String>,
        tts: Result<(), String>,
        voice_named: Option<String>,
    ) -> (r: CoachApp<A>)
        requires
            persona_store.wf(),
        ensures
            r.wf(),
            r.stage is Welcome,
            model matches Some(m) ==> r.model_name == m,
            model is None ==> r.model_name@ == DEFAULT_MODEL@,
            r.sessions@.len() == sessions@.len(),
            forall|i: int|
                0 <= i < r.sessions@.len() ==> history::is_named(
                    #[trigger] r.sessions@[i],
                    sessions@[i],
                ),
            r.persona_store == persona_store,
            r.confirm_clear_idx is None,
            r.transcriber_ready == transcriber is Ok,
            r.transcriber_error == match transcriber {
                Ok(_) => None::<String>,
                Err(e) => Some(e),
            },
            r.tts_ready == tts is Ok,
            r.tts_error == match tts {
                Ok(_) => None::<String>,
                Err(e) => Some(e),
            },
            r.voice_named == voice_named,
    {
        let model_name = match model {
            Some(m) => m,
            None => String::from_str(DEFAULT_MODEL),
        };
        let (transcriber_ready, transcriber_error) = match transcriber {
            Ok(_) => (true, None),
            Err(e) => (false, Some(e)),
        };
        let (tts_ready, tts_error) = match tts {
            Ok(_) => (true, None),
            Err(e) => (false, Some(e)),
        };
        CoachApp {
            stage: Stage::Welcome,
            model_name,
            sessions: history::name_owners(sessions),
            persona_store,
            confirm_clear_idx: None,
            transcriber_ready,
            transcriber_error,
            tts_ready,
            tts_error,
            voice_named,
        }
    }

    /// Takes the past sessions over that were read again.
    pub fn reload_sessions(&mut self, sessions: Vec<Session>)
        ensures
            final(self).sessions@.len() == sessions@.len(),
            forall|i: int|
                0 <= i < sessions@.len() ==> history::is_named(
                    #[trigger] final(self).sessions@[i],
                    sessions@[i],
                ),
            *final(self) == (CoachApp { sessions: final(self).sessions, ..*old(self) }),
    {
        self.sessions = history::name_owners(sessions);
    }

    /// The positions of the active persona's sessions, the oldest first.
    pub fn active_persona_indices(&self) -> (r: Vec<usize>)
        requires
            self.wf(),
        ensures
            r@ == history::positions_naming(self.sessions@, self.persona().name@),
            forall|i: int| 0 <= i < r@.len() ==> #[trigger] r@[i] < self.sessions@.len(),
    {
        history::sessions_naming(&self.sessions, self.persona_store.active().name.as_str())
    }

    /// Whether texts can be read aloud.
    pub fn tts_enabled(&self) -> (r: bool)
        ensures
            r == self.tts_ready,
    {
        self.tts_ready
    }
}

// ---------------------------------------------------------------- laws

/// The persona cannot be switched while a session is under way, from the proposal to the
/// making of the feedback, nor while a persona is being edited. Everywhere else it can.
pub proof fn law_nothing_under_way_is_disturbed<A>(stage: Stage<A>)
    ensures
        !stage.stable() <==> stage is ProposingTheme || stage is ConfirmReady || stage is Recording
            || stage is Transcribing || stage is AskingFollowups || stage is RecordingFollowup
            || stage is TranscribingFollowup || stage is Measuring || stage is GeneratingFeedback
            || stage is EditPersona,
{
}

/// The microphone is open while an answer is recorded, be it the main one or one to a
/// follow-up, and while it is tested. A test is the only recording that can be left by
/// the bar at the top.
pub proof fn law_microphone_is_open_to_record<A>(stage: Stage<A>)
    ensures
        stage is Recording || stage is RecordingFollowup ==> stage.records(),
        stage matches Stage::Debug { test_recording, .. } ==> stage.records() == test_recording,
        stage.records() ==> stage is Recording || stage is RecordingFollowup || stage is Debug,
        stage.records() && stage.stable() ==> stage is Debug,
{
}

/// Actions may be done in portions, and the microphone is the same afterwards. One action
/// opens it and two close it; all others leave it alone.
pub proof fn law_microphone_follows_the_actions(
    open: bool,
    a: Seq<Action>,
    b: Seq<Action>,
    action: Action,
)
    ensures
        mic_after(open, a + b) == mic_after(mic_after(open, a), b),
        action is OpenMic ==> mic_after(open, seq![action]),
        action is FinishRecording || action is DropRecording ==> !mic_after(open, seq![action]),
        !(action is OpenMic || action is FinishRecording || action is DropRecording) ==> mic_after(
            open,
            seq![action],
        ) == open,
    decreases b.len(),
{
    assert(seq![action].drop_last() == Seq::<Action>::empty());
    assert(seq![action].last() == action);
    assert(mic_after(open, Seq::<Action>::empty()) == open);
    if b.len() == 0 {
        assert(a + b == a);
    } else {
        law_microphone_follows_the_actions(open, a, b.drop_last(), action);
        assert((a + b).drop_last() == a + b.drop_last());
        assert((a + b).last() == b.last());
    }
}

/// How long recordings can be, in nanoseconds: an answer twenty seconds at least and three
/// minutes at most, the answer to a follow-up a minute and a half, a test ten seconds.
pub proof fn law_recordings_are_limited()
    ensures
        MIN_RECORD == 20 * 1_000_000_000,
        MAX_RECORD == 3 * 60 * 1_000_000_000,
        FOLLOWUP_MAX == 90 * 1_000_000_000,
        TEST_MAX == 10 * 1_000_000_000,
{
}

/// Follow-ups are three at most. While one is answered, those before it have their answers
/// and it has none yet; once all is said, each has its answer.
pub proof fn law_each_followup_has_its_answer<A>(stage: Stage<A>, personas: nat)
    requires
        stage.fits(personas),
    ensures
        stage matches Stage::RecordingFollowup { followups, current, followup_answers, .. } ==> {
            &&& followup_answers@.len() == current
            &&& current < followups@.len()
            &&& followups@.len() <= 3
        },
        stage matches Stage::TranscribingFollowup { followups, current, followup_answers, .. } ==> {
            &&& followup_answers@.len() == current
            &&& current < followups@.len()
            &&& followups@.len() <= 3
        },
        stage matches Stage::Measuring { followups, followup_answers, .. } ==> {
            &&& followup_answers@.len() == followups@.len()
            &&& followups@.len() <= 3
        },
        stage matches Stage::GeneratingFeedback { followups, followup_answers, .. } ==> {
            &&& followup_answers@.len() == followups@.len()
            &&& followups@.len() <= 3
        },
        stage matches Stage::Feedback { followups, followup_answers, .. } ==> {
            &&& followup_answers@.len() == followups@.len()
            &&& followups@.len() <= 3
        },
        stage matches Stage::EditPersona { draft } ==> draft.edit_idx is None
            || draft.edit_idx->0 < personas,
{
}

/// There is one voice to speak in. Where the settings give the number of a voice, it is
/// that one; where they give none, or something else, it is the persona's.
pub proof fn law_voice_is_settled<A>(app: CoachApp<A>, a: u32, b: u32)
    requires
        app.speaks_in(a),
    ensures
        app.speaks_in(b) ==> a == b,
        app.voice_named is None ==> a == app.persona().voice_id,
        app.voice_named matches Some(s) ==> {
            &&& b <= 10 && s@ == text::decimal(b as nat) ==> a == b
            &&& (forall|v: nat| v <= 10 ==> s@ != #[trigger] text::decimal(v)) ==> a
                == app.persona().voice_id
        },
{
    if let Some(s) = app.voice_named {
        if b <= 10 && s@ == text::decimal(b as nat) {
            assert(tts::names_voice(s@, b));
            if tts::names_voice(s@, a) {
                tts::law_named_voice_is_unique(s@, a, b);
            }
        }
        if forall|v: nat| v <= 10 ==> s@ != #[trigger] text::decimal(v) {
            assert forall|v: u32| !tts::names_voice(s@, v) by {
                assert(v <= 10 ==> s@ != text::decimal(v as nat));
            }
        }
        if app.speaks_in(b) && tts::names_voice(s@, a) && tts::names_voice(s@, b) {
            tts::law_named_voice_is_unique(s@, a, b);
        }
    }
}

/// What is asked goes to the active persona's coach, as the last of two messages.
pub proof fn law_question_is_put_to_the_coach<A>(
    app: CoachApp<A>,
    action: Action,
    question: Seq<char>,
    temperature: u32,
    tokens: i32,
)
    requires
        app.puts(action, question, temperature, tokens),
    ensures
        action matches Action::Ask { messages, temperature_tenths, max_tokens } && {
            &&& messages@.len() == 2
            &&& messages@[0].role@ == "system"@
            &&& messages@[0].content@ == coach::system_text(app.persona())
            &&& messages@[1].role@ == "user"@
            &&& messages@[1].content@ == question
            &&& temperature_tenths == temperature
            &&& max_tokens == tokens
        },
{
}

} // verus!
