//! How a session goes on when something is pressed, or when time runs out.
//!
//! A press counts only where the screen offers it. Several may come at once; what
//! takes precedence then is part of each step.

use vstd::prelude::*;

use crate::app;
use crate::app::{Action, CoachApp, Stage};
use crate::coach;
use crate::history;
use crate::history::Session;
use crate::personas;
use crate::text;

verus! {

impl<A> CoachApp<A> {
    // ------------------------------------------------------------ all screens

    /// Whether the screen has to be drawn again soon: a clock is running, or a text
    /// is being spoken.
    pub fn needs_repaint(&self, busy: bool) -> (r: bool)
        ensures
            r == (self.stage is Recording || self.stage is RecordingFollowup || busy),
    {
        match &self.stage {
            Stage::Recording { .. } => true,
            Stage::RecordingFollowup { .. } => true,
            _ => busy,
        }
    }

    /// Whether the position picked in the top bar counts.
    pub open spec fn switches_to(self, picked: Option<usize>) -> bool {
        &&& self.stage.stable()
        &&& picked matches Some(i)
        &&& i < self.persona_store.personas@.len()
        &&& i != self.persona_store.active
    }

    /// Switches the persona, or goes to the personas or to the configuration.
    /// Nothing of this is possible while a session is under way or a persona is
    /// being edited. A past session that was selected may belong to the persona
    /// that is left, so the selection is dropped.
    pub fn top_bar(&mut self, picked: Option<usize>, personas: bool, debug: bool) -> (r: Vec<
        Action,
    >)
        requires
            old(self).wf(),
        ensures
            final(self).wf(),
            final(self).mic_follows(*old(self), r@),
            !old(self).stage.stable() ==> *final(self) == *old(self) && r@.len() == 0,
            final(self).persona_store == (personas::PersonaStore {
                active: if old(self).switches_to(picked) {
                    picked->0
                } else {
                    old(self).persona_store.active
                },
                ..old(self).persona_store
            }),
            *final(self) == (CoachApp {
                stage: final(self).stage,
                persona_store: final(self).persona_store,
                ..*old(self)
            }),
            old(self).stage.stable() ==> final(self).stage == if debug {
                Stage::Debug { test_recording: false, test_result: None }
            } else if personas {
                Stage::Personas
            } else if old(self).switches_to(picked) && old(self).stage is History {
                Stage::History { selected: None }
            } else {
                old(self).stage
            },
            ({
                let saves = if old(self).switches_to(picked) {
                    seq![Action::SavePersonas]
                } else {
                    seq![]
                };
                r@ == if old(self).stage.stable() && (personas || debug)
                    && old(self).stage.records() {
                    saves.push(Action::DropRecording)
                } else {
                    saves
                }
            }),
    {
        proof {
            reveal_with_fuel(app::mic_after, 4);
        }
        let mut actions: Vec<Action> = Vec::new();
        if !self.stage.is_stable() {
            return actions;
        }
        if let Some(i) = picked {
            if i < self.persona_store.personas.len() && i != self.persona_store.active {
                self.persona_store.set_active(i);
                actions.push(Action::SavePersonas);
                if let Stage::History { selected: _ } = &self.stage {
                    self.stage = Stage::History { selected: None };
                }
            }
        }
        if (personas || debug) && self.stage.is_recording() {
            actions.push(Action::DropRecording);
        }
        if debug {
            self.stage = Stage::Debug { test_recording: false, test_result: None };
        } else if personas {
            self.stage = Stage::Personas;
        }
        actions
    }

    // ------------------------------------------------------------ a session

    /// Asks the model for an exercise on a topic.
    pub fn propose_theme(&mut self, bucket: &str) -> (r: Action)
        requires
            old(self).wf(),
        ensures
            final(self).wf(),
            final(self).differs_in_stage(*old(self)),
            final(self).stage is ProposingTheme,
            old(self).puts(r, coach::theme_question(bucket@), 8, 200),
    {
        let messages = coach::theme_messages(self.persona_store.active(), bucket);
        self.stage = Stage::ProposingTheme;
        Action::Ask { messages, temperature_tenths: 8, max_tokens: 200 }
    }

    /// Whether a text can be what an exercise of the active persona is about.
    pub open spec fn is_topic(self, bucket: Seq<char>) -> bool {
        let topics = text::texts(self.persona().topics@);
        if topics.len() == 0 {
            bucket == personas::OPEN_TOPIC@
        } else {
            topics.contains(bucket)
        }
    }

    /// The positions of the active persona's sessions, the oldest first.
    pub open spec fn own_sessions(self) -> Seq<usize> {
        history::positions_naming(self.sessions@, self.persona().name@)
    }

    /// Starts a session on a topic picked by chance, or goes to the past sessions
    /// of the persona, where there are any.
    pub fn welcome(&mut self, start: bool, history: bool, trends: bool) -> (r: Vec<Action>)
        requires
            old(self).wf(),
        ensures
            final(self).wf(),
            final(self).mic_follows(*old(self), r@),
            final(self).differs_in_stage(*old(self)),
            match old(self).stage {
                Stage::Welcome => if start {
                    &&& final(self).stage is ProposingTheme
                    &&& r@.len() == 1
                    &&& exists|bucket: Seq<char>|
                        #![trigger old(self).is_topic(bucket)]
                        old(self).is_topic(bucket) && old(self).puts(
                            r@[0],
                            coach::theme_question(bucket),
                            8,
                            200,
                        )
                } else {
                    let any = old(self).own_sessions().len() > 0;
                    &&& final(self).stage == if history && any {
                        Stage::History { selected: None }
                    } else if trends && any {
                        Stage::Trends
                    } else {
                        Stage::<A>::Welcome
                    }
                    &&& r@.len() == 0
                },
                _ => final(self).stage == old(self).stage && r@.len() == 0,
            },
    {
        proof {
            reveal_with_fuel(app::mic_after, 4);
        }
        let mut actions: Vec<Action> = Vec::new();
        if let Stage::Welcome = &self.stage {
            if start {
                let bucket = coach::pick_topic(self.persona_store.active());
                assert(self.is_topic(bucket@));
                actions.push(self.propose_theme(bucket.as_str()));
            } else if history || trends {
                let own = self.active_persona_indices();
                if own.len() > 0 {
                    if history {
                        self.stage = Stage::History { selected: None };
                    } else {
                        self.stage = Stage::Trends;
                    }
                }
            }
        }
        actions
    }

    /// Whether the prompt or a follow-up is to be read aloud again: it can be once
    /// it is no longer being read.
    pub open spec fn replays(self, replay: bool, busy: bool) -> bool {
        replay && self.tts_ready && !busy
    }

    /// Starts to record the answer, or goes back. Either way reading aloud stops.
    pub fn confirm(&mut self, replay: bool, start: bool, cancel: bool, busy: bool) -> (r: Vec<
        Action,
    >)
        requires
            old(self).wf(),
        ensures
            final(self).wf(),
            final(self).mic_follows(*old(self), r@),
            final(self).differs_in_stage(*old(self)),
            match old(self).stage {
                Stage::ConfirmReady { theme, prompt } => {
                    let spoken: int = if old(self).replays(replay, busy) {
                        1
                    } else {
                        0
                    };
                    &&& r@.len() >= spoken
                    &&& spoken == 1 ==> old(self).reads_aloud(r@[0], prompt@)
                    &&& r@.skip(spoken) == if start {
                        seq![Action::StopSpeaking, Action::OpenMic]
                    } else if cancel {
                        seq![Action::StopSpeaking]
                    } else {
                        seq![]
                    }
                    &&& final(self).stage == if start {
                        Stage::<A>::Recording { theme, prompt }
                    } else if cancel {
                        Stage::<A>::Welcome
                    } else {
                        old(self).stage
                    }
                },
                _ => final(self).stage == old(self).stage && r@.len() == 0,
            },
    {
        proof {
            reveal_with_fuel(app::mic_after, 4);
        }
        let mut actions: Vec<Action> = Vec::new();
        match self.take_stage() {
            Stage::ConfirmReady { theme, prompt } => {
                if replay && self.tts_ready && !busy {
                    actions.push(self.speak(prompt.clone()));
                }
                if start {
                    actions.push(Action::StopSpeaking);
                    actions.push(Action::OpenMic);
                    self.stage = Stage::Recording { theme, prompt };
                } else if cancel {
                    actions.push(Action::StopSpeaking);
                } else {
                    self.stage = Stage::ConfirmReady { theme, prompt };
                }
            },
            other => {
                self.stage = other;
            },
        }
        actions
    }

    /// Whether the answer has been recorded for long enough to be stopped.
    pub fn can_stop(elapsed: u64) -> (r: bool)
        ensures
            r == (elapsed >= app::MIN_RECORD),
    {
        elapsed >= app::MIN_RECORD
    }

    /// Ends the recording of the answer, once it is long enough and stopped, or as
    /// long as it can be.
    pub fn recording(&self, elapsed: u64, stop: bool) -> (r: Vec<Action>)
        ensures
            r@ == if self.stage is Recording && (elapsed >= app::MAX_RECORD || (stop && elapsed
                >= app::MIN_RECORD)) {
                seq![Action::FinishRecording]
            } else {
                seq![]
            },
    {
        let mut actions: Vec<Action> = Vec::new();
        if let Stage::Recording { .. } = &self.stage {
            if elapsed >= app::MAX_RECORD || (stop && Self::can_stop(elapsed)) {
                actions.push(Action::FinishRecording);
            }
        }
        actions
    }

    /// Ends the recording of the answer to a follow-up, once it is stopped or as
    /// long as it can be. Reading aloud stops then.
    pub fn recording_followup(&self, replay: bool, busy: bool, elapsed: u64, stop: bool) -> (r: Vec<
        Action,
    >)
        requires
            self.wf(),
        ensures
            match self.stage {
                Stage::RecordingFollowup { followups, current, .. } => {
                    let spoken: int = if self.replays(replay, busy) {
                        1
                    } else {
                        0
                    };
                    &&& r@.len() >= spoken
                    &&& spoken == 1 ==> self.reads_aloud(r@[0], followups@[current as int]@)
                    &&& r@.skip(spoken) == if elapsed >= app::FOLLOWUP_MAX || stop {
                        seq![Action::StopSpeaking, Action::FinishRecording]
                    } else {
                        seq![]
                    }
                },
                _ => r@.len() == 0,
            },
    {
        let mut actions: Vec<Action> = Vec::new();
        if let Stage::RecordingFollowup { followups, current, .. } = &self.stage {
            if replay && self.tts_ready && !busy {
                actions.push(self.speak(followups[*current].clone()));
            }
            if elapsed >= app::FOLLOWUP_MAX || stop {
                actions.push(Action::StopSpeaking);
                actions.push(Action::FinishRecording);
            }
        }
        actions
    }

    /// Whether a session has come to its end and has not been kept yet.
    pub open spec fn is_unsaved(self) -> bool {
        self.stage matches Stage::Feedback { saved, .. } && !saved
    }

    /// Whether `after` is this state with the session kept that has come to its end.
    /// Where none has, or it was kept before, nothing differs.
    pub open spec fn is_kept_in(self, after: CoachApp<A>, clock: Option<u64>) -> bool {
        &&& after == (CoachApp { stage: after.stage, sessions: after.sessions, ..self })
        &&& match self.stage {
            Stage::Feedback {
                theme,
                prompt,
                transcript,
                followups,
                followup_answers,
                metrics,
                feedback,
                saved: false,
            } => {
                let s = after.sessions@.last();
                &&& after.stage == (Stage::<A>::Feedback {
                    theme,
                    prompt,
                    transcript,
                    followups,
                    followup_answers,
                    metrics,
                    feedback,
                    saved: true,
                })
                &&& after.sessions@ == self.sessions@.push(s)
                &&& s.timestamp == match clock {
                    Some(secs) => secs as i64,
                    None => 0,
                }
                &&& s.theme@ == theme@
                &&& s.prompt@ == prompt@
                &&& s.transcript@ == transcript@
                &&& text::texts(s.followups@) == text::texts(followups@)
                &&& text::texts(s.followup_answers@) == text::texts(followup_answers@)
                &&& s.metrics.same(metrics)
                &&& s.feedback@ == feedback@
                &&& s.persona_name@ == self.persona().name@
            },
            _ => after == self,
        }
    }

    /// Keeps a session that has come to its end, once. `clock` holds the seconds
    /// since the start of 1970, unless the clock stands before that.
    pub fn save_session(&mut self, clock: Option<u64>) -> (r: Vec<Action>)
        requires
            old(self).wf(),
        ensures
            final(self).wf(),
            final(self).mic_follows(*old(self), r@),
            old(self).is_kept_in(*final(self), clock),
            r@ == if old(self).is_unsaved() {
                seq![Action::AppendSession]
            } else {
                seq![]
            },
    {
        proof {
            reveal_with_fuel(app::mic_after, 4);
        }
        let mut actions: Vec<Action> = Vec::new();
        match self.take_stage() {
            Stage::Feedback {
                theme,
                prompt,
                transcript,
                followups,
                followup_answers,
                metrics,
                feedback,
                saved: false,
            } => {
                let session = Session::now(
                    clock,
                    theme.clone(),
                    prompt.clone(),
                    transcript.clone(),
                    text::copies(&followups),
                    text::copies(&followup_answers),
                    metrics.clone(),
                    feedback.clone(),
                    self.persona_store.active().name.clone(),
                );
                self.sessions.push(session);
                actions.push(Action::AppendSession);
                self.stage = Stage::Feedback {
                    theme,
                    prompt,
                    transcript,
                    followups,
                    followup_answers,
                    metrics,
                    feedback,
                    saved: true,
                };
            },
            other => {
                self.stage = other;
            },
        }
        actions
    }

    /// Leaves the feedback, or copies it.
    pub fn feedback(&mut self, restart: bool, copy: bool, history: bool, trends: bool) -> (r: Vec<
        Action,
    >)
        requires
            old(self).wf(),
        ensures
            final(self).wf(),
            final(self).mic_follows(*old(self), r@),
            final(self).differs_in_stage(*old(self)),
            match old(self).stage {
                Stage::Feedback { feedback, .. } => {
                    &&& final(self).stage == if restart {
                        Stage::<A>::Welcome
                    } else if history {
                        Stage::<A>::History { selected: None }
                    } else if trends {
                        Stage::<A>::Trends
                    } else {
                        old(self).stage
                    }
                    &&& copy ==> {
                        &&& r@.len() == 1
                        &&& r@[0] matches Action::CopyText(s)
                        &&& s@ == feedback@
                    }
                    &&& !copy ==> r@.len() == 0
                },
                _ => final(self).stage == old(self).stage && r@.len() == 0,
            },
    {
        proof {
            reveal_with_fuel(app::mic_after, 4);
        }
        let mut actions: Vec<Action> = Vec::new();
        if let Stage::Feedback { feedback, .. } = &self.stage {
            if copy {
                actions.push(Action::CopyText(feedback.clone()));
            }
            if restart {
                self.stage = Stage::Welcome;
            } else if history {
                self.stage = Stage::History { selected: None };
            } else if trends {
                self.stage = Stage::Trends;
            }
        }
        actions
    }

    /// A session is kept once, however often it is asked for, and it is the active
    /// persona's from then on.
    pub proof fn law_session_is_kept_once(
        before: CoachApp<A>,
        kept: CoachApp<A>,
        again: CoachApp<A>,
        clock: Option<u64>,
        later: Option<u64>,
    )
        requires
            before.is_unsaved(),
            before.is_kept_in(kept, clock),
            kept.is_kept_in(again, later),
        ensures
            again == kept,
            kept.sessions@.len() == before.sessions@.len() + 1,
            kept.own_sessions() == before.own_sessions().push(before.sessions@.len() as usize),
    {
        assert(kept.sessions@.drop_last() == before.sessions@);
    }

    /// Leaves an error.
    pub fn error(&mut self, back: bool)
        requires
            old(self).wf(),
        ensures
            final(self).wf(),
            final(self).differs_in_stage(*old(self)),
            final(self).stage == if back && old(self).stage is Error {
                Stage::Welcome
            } else {
                old(self).stage
            },
    {
        if let Stage::Error(_) = &self.stage {
            if back {
                self.stage = Stage::Welcome;
            }
        }
    }
}

/// The persona is switched just where another one of the list is picked and nothing is
/// under way.
pub proof fn law_only_another_persona_is_switched_to<A>(app: CoachApp<A>, i: usize)
    ensures
        !app.switches_to(None),
        !app.switches_to(Some(app.persona_store.active)),
        i >= app.persona_store.personas@.len() ==> !app.switches_to(Some(i)),
        !app.stage.stable() ==> !app.switches_to(Some(i)),
        app.stage.stable() && i < app.persona_store.personas@.len() && i
            != app.persona_store.active ==> app.switches_to(Some(i)),
{
}

/// An exercise is about one of the persona's topics, and any of them can be it; without
/// topics it is the open one.
pub proof fn law_topics_are_the_personas<A>(app: CoachApp<A>, bucket: Seq<char>, i: int)
    ensures
        0 <= i < app.persona().topics@.len() ==> app.is_topic(app.persona().topics@[i]@),
        app.is_topic(bucket) && app.persona().topics@.len() > 0 ==> exists|k: int|
            0 <= k < app.persona().topics@.len() && (#[trigger] app.persona().topics@[k])@
                == bucket,
        app.persona().topics@.len() == 0 ==> (app.is_topic(bucket) <==> bucket
            == "An open-ended speaking prompt"@),
{
    let topics = text::texts(app.persona().topics@);
    if 0 <= i < topics.len() {
        assert(topics[i] == app.persona().topics@[i]@);
    }
    if app.is_topic(bucket) && topics.len() > 0 {
        let k = choose|k: int| 0 <= k < topics.len() && topics[k] == bucket;
        assert(app.persona().topics@[k]@ == bucket);
    }
}

/// The sessions that are shown for a persona are those that bear its name, all of them and
/// in their order.
pub proof fn law_own_sessions_bear_the_name<A>(app: CoachApp<A>, at: usize)
    requires
        app.sessions@.len() <= usize::MAX,
    ensures
        app.own_sessions().contains(at) <==> at < app.sessions@.len()
            && app.sessions@[at as int].persona_name@ == app.persona().name@,
        forall|i: int, j: int|
            0 <= i < j < app.own_sessions().len() ==> #[trigger] app.own_sessions()[i]
                < #[trigger] app.own_sessions()[j],
{
    history::law_positions_are_exact(app.sessions@, app.persona().name@);
}

/// A text is read aloud again only if that is asked for and possible, and nothing is being
/// read.
pub proof fn law_reading_is_not_interrupted<A>(app: CoachApp<A>, replay: bool, busy: bool)
    ensures
        !app.replays(replay, true),
        !app.replays(false, busy),
        !app.tts_ready ==> !app.replays(replay, busy),
        app.tts_ready ==> app.replays(true, false),
{
}

/// The session that is kept is the one that came to its end, in every part, under the name
/// of the active persona and behind all that were kept before.
pub proof fn law_kept_session_is_the_one_that_ended<A>(
    before: CoachApp<A>,
    after: CoachApp<A>,
    clock: Option<u64>,
)
    requires
        before.is_kept_in(after, clock),
    ensures
        !before.is_unsaved() ==> after == before,
        before.is_unsaved() ==> {
            let n = before.sessions@.len() as int;
            &&& !after.is_unsaved()
            &&& after.sessions@.len() == n + 1
            &&& forall|i: int|
                0 <= i < n ==> #[trigger] after.sessions@[i] == before.sessions@[i]
            &&& after.persona_store == before.persona_store
            &&& after.model_name == before.model_name
            &&& after.sessions@[n].persona_name@ == before.persona().name@
            &&& clock is None ==> after.sessions@[n].timestamp == 0
            &&& clock matches Some(secs) ==> secs <= i64::MAX ==> after.sessions@[n].timestamp
                == secs
            &&& before.stage matches Stage::Feedback {
                theme,
                prompt,
                transcript,
                followups,
                followup_answers,
                metrics,
                feedback,
                ..
            }
            &&& after.sessions@[n].theme@ == theme@
            &&& after.sessions@[n].prompt@ == prompt@
            &&& after.sessions@[n].transcript@ == transcript@
            &&& after.sessions@[n].feedback@ == feedback@
            &&& text::texts(after.sessions@[n].followups@) == text::texts(followups@)
            &&& text::texts(after.sessions@[n].followup_answers@) == text::texts(followup_answers@)
            &&& after.sessions@[n].metrics.words == metrics.words
            &&& after.sessions@[n].metrics.long_pause_count == metrics.long_pause_count
            &&& after.sessions@[n].metrics.filler_count == metrics.filler_count
            &&& after.sessions@[n].metrics.duration_secs.same(metrics.duration_secs)
            &&& after.sessions@[n].metrics.words_per_minute.same(metrics.words_per_minute)
            &&& after.sessions@[n].metrics.speech_ratio.same(metrics.speech_ratio)
            &&& after.sessions@[n].metrics.total_pause_secs.same(metrics.total_pause_secs)
            &&& after.sessions@[n].metrics.energy_cv.same(metrics.energy_cv)
            &&& text::texts(after.sessions@[n].metrics.filler_examples@) == text::texts(
                metrics.filler_examples@,
            )
        },
{
}

} // verus!
