//! What the library promises of a session as a whole: where each step leads, what it
//! carries along and what it leaves alone.

use vstd::prelude::*;

use crate::analysis::DeliveryMetrics;
use crate::app;
use crate::app::{Action, CoachApp, Stage};
use crate::coach;
use crate::history::Session;
use crate::manage::PersonaPress;
use crate::stt::TranscriptionResult;
use crate::text;

verus! {

/// What a session is about: its theme and its exercise, from the proposal to the feedback.
pub open spec fn subject<A>(stage: Stage<A>) -> Option<(String, String)> {
    match stage {
        Stage::ConfirmReady { theme, prompt } => Some((theme, prompt)),
        Stage::Recording { theme, prompt } => Some((theme, prompt)),
        Stage::Transcribing { theme, prompt, .. } => Some((theme, prompt)),
        Stage::AskingFollowups { theme, prompt, .. } => Some((theme, prompt)),
        Stage::RecordingFollowup { theme, prompt, .. } => Some((theme, prompt)),
        Stage::TranscribingFollowup { theme, prompt, .. } => Some((theme, prompt)),
        Stage::Measuring { theme, prompt, .. } => Some((theme, prompt)),
        Stage::GeneratingFeedback { theme, prompt, .. } => Some((theme, prompt)),
        Stage::Feedback { theme, prompt, .. } => Some((theme, prompt)),
        _ => None,
    }
}

/// The transcript of the main answer, once there is one.
pub open spec fn main_answer<A>(stage: Stage<A>) -> Option<String> {
    match stage {
        Stage::AskingFollowups { transcript, .. } => Some(transcript),
        Stage::RecordingFollowup { primary_transcript, .. } => Some(primary_transcript),
        Stage::TranscribingFollowup { primary_transcript, .. } => Some(primary_transcript),
        Stage::Measuring { transcript, .. } => Some(transcript),
        Stage::GeneratingFeedback { transcript, .. } => Some(transcript),
        Stage::Feedback { transcript, .. } => Some(transcript),
        _ => None,
    }
}

/// The recording of the main answer, as long as it is needed.
pub open spec fn main_recording<A>(stage: Stage<A>) -> Option<A> {
    match stage {
        Stage::Transcribing { samples, .. } => Some(samples),
        Stage::AskingFollowups { samples, .. } => Some(samples),
        Stage::RecordingFollowup { primary_samples, .. } => Some(primary_samples),
        Stage::TranscribingFollowup { primary_samples, .. } => Some(primary_samples),
        Stage::Measuring { samples, .. } => Some(samples),
        _ => None,
    }
}

/// The follow-ups and the answers that have been given to them.
pub open spec fn exchange<A>(stage: Stage<A>) -> Option<(Seq<String>, Seq<String>)> {
    match stage {
        Stage::RecordingFollowup { followups, followup_answers, .. } => Some(
            (followups@, followup_answers@),
        ),
        Stage::TranscribingFollowup { followups, followup_answers, .. } => Some(
            (followups@, followup_answers@),
        ),
        Stage::Measuring { followups, followup_answers, .. } => Some(
            (followups@, followup_answers@),
        ),
        Stage::GeneratingFeedback { followups, followup_answers, .. } => Some(
            (followups@, followup_answers@),
        ),
        Stage::Feedback { followups, followup_answers, .. } => Some(
            (followups@, followup_answers@),
        ),
        _ => None,
    }
}

/// Whether nothing but the stage differs: the past sessions, the personas and the settings
/// are as they were.
pub open spec fn is_undisturbed<A>(after: CoachApp<A>, before: CoachApp<A>) -> bool {
    &&& after.sessions == before.sessions
    &&& after.persona_store == before.persona_store
    &&& after.model_name == before.model_name
    &&& after.confirm_clear_idx == before.confirm_clear_idx
    &&& after.transcriber_ready == before.transcriber_ready
    &&& after.transcriber_error == before.transcriber_error
    &&& after.tts_ready == before.tts_ready
    &&& after.tts_error == before.tts_error
    &&& after.voice_named == before.voice_named
}

// ---------------------------------------------------------------- replies of the model

/// A proposal leads to the exercise that it names, which is read aloud.
pub proof fn law_proposal_arrives<A>(
    app: &mut CoachApp<A>,
    reply: String,
    r: Vec<Action>,
    raw: &str,
    read: (String, String),
)
    requires
        call_ensures(CoachApp::<A>::handle_stream_done, (app, Ok::<String, String>(reply)), r),
        old(app).wf(),
        old(app).stage is ProposingTheme,
        raw@ == reply@,
        call_ensures(coach::parse_theme_response, (raw,), read),
    ensures
        is_undisturbed(*final(app), *old(app)),
        final(app).stage is ConfirmReady,
        subject(final(app).stage) matches Some((theme, prompt)) && theme@ == read.0@ && prompt@
            == read.1@,
        r@.len() == 1,
        r@[0] matches Action::Speak { text, .. } && text@ == read.1@,
{
}

/// Follow-ups are asked one after the other, the first one at once; where the reply holds
/// none, the answer is measured.
#[verifier::rlimit(50)]
pub proof fn law_followups_arrive<A>(
    app: &mut CoachApp<A>,
    reply: String,
    r: Vec<Action>,
    raw: &str,
    questions: Vec<String>,
)
    requires
        call_ensures(CoachApp::<A>::handle_stream_done, (app, Ok::<String, String>(reply)), r),
        old(app).wf(),
        old(app).stage is AskingFollowups,
        raw@ == reply@,
        call_ensures(coach::parse_numbered_questions, (raw,), questions),
    ensures
        is_undisturbed(*final(app), *old(app)),
        subject(final(app).stage) == subject(old(app).stage),
        main_answer(final(app).stage) == main_answer(old(app).stage),
        main_recording(final(app).stage) == main_recording(old(app).stage),
        exchange(final(app).stage) matches Some((followups, answers)) && answers.len() == 0
            && text::texts(followups) == text::texts(questions@),
        questions@.len() == 0 ==> final(app).stage is Measuring && r@ == seq![Action::Measure],
        questions@.len() > 0 ==> {
            &&& final(app).stage matches Stage::RecordingFollowup { current, .. }
            &&& current == 0
            &&& r@.len() == 2
            &&& r@[0] matches Action::Speak { text, .. }
            &&& text@ == questions@[0]@
            &&& r@[1] is OpenMic
        },
{
    assert(text::texts(questions@).len() == questions@.len());
    if questions@.len() > 0 {
        assert(text::texts(questions@)[0] == questions@[0]@);
    } else if let Stage::Measuring { followups, .. } = final(app).stage {
        assert(text::texts(followups@) == text::texts(questions@));
    }
}

/// Feedback ends the session with all that was said, and it has not been kept yet.
pub proof fn law_feedback_arrives<A>(app: &mut CoachApp<A>, reply: String, r: Vec<Action>)
    requires
        call_ensures(CoachApp::<A>::handle_stream_done, (app, Ok::<String, String>(reply)), r),
        old(app).wf(),
        old(app).stage is GeneratingFeedback,
    ensures
        is_undisturbed(*final(app), *old(app)),
        subject(final(app).stage) == subject(old(app).stage),
        main_answer(final(app).stage) == main_answer(old(app).stage),
        exchange(final(app).stage) == exchange(old(app).stage),
        final(app).stage matches Stage::Feedback { feedback, saved, metrics, .. } && feedback@
            == reply@ && !saved && (old(app).stage matches Stage::GeneratingFeedback {
            metrics: measured,
            ..
        } && metrics == measured),
        r@.len() == 0,
{
}

/// A reply that nothing waits for changes nothing.
pub proof fn law_late_reply_is_dropped<A>(app: &mut CoachApp<A>, reply: String, r: Vec<Action>)
    requires
        call_ensures(CoachApp::<A>::handle_stream_done, (app, Ok::<String, String>(reply)), r),
        old(app).wf(),
        !(old(app).stage is ProposingTheme || old(app).stage is AskingFollowups
            || old(app).stage is GeneratingFeedback),
    ensures
        *final(app) == *old(app),
        r@.len() == 0,
{
}

/// An error of the model ends whatever is under way. It names the error and the model, and
/// no recording goes on.
pub proof fn law_model_fails<A>(app: &mut CoachApp<A>, e: String, r: Vec<Action>)
    requires
        call_ensures(CoachApp::<A>::handle_stream_done, (app, Err::<String, String>(e)), r),
        old(app).wf(),
    ensures
        is_undisturbed(*final(app), *old(app)),
        final(app).stage matches Stage::Error(m) && text::stands_under(
            m@,
            "Ollama error: "@,
            e@,
            "\n\nIs `ollama serve` running and is the model `"@,
        ) && text::stands_under(
            m@,
            "\n\nIs `ollama serve` running and is the model `"@,
            old(app).model_name@,
            "` pulled?\nTry: `ollama pull "@,
        ),
        !app::mic_after(old(app).stage.records(), r@),
        !old(app).stage.records() ==> r@.len() == 0,
{
    crate::workers::law_model_error_names_error_and_model(e@, old(app).model_name@);
    crate::workers::law_giving_up_closes_the_microphone(old(app).stage);
}

// ---------------------------------------------------------------- recordings

/// Whether the actions hand the recording to the program for transcripts, or say that there
/// is none.
pub open spec fn hands_on<A>(app: CoachApp<A>, actions: Seq<Action>) -> bool {
    &&& actions.len() == 1
    &&& app.transcriber_ready ==> actions[0] is Transcribe
    &&& !app.transcriber_ready ==> actions[0] is TranscriptionFailed
}

/// A recording of an answer is to be transcribed, and nothing of the session is lost.
pub proof fn law_recording_arrives<A>(app: &mut CoachApp<A>, samples: A, r: Vec<Action>)
    requires
        call_ensures(CoachApp::<A>::recording_finished, (app, samples), r),
        old(app).wf(),
    ensures
        is_undisturbed(*final(app), *old(app)),
        !final(app).stage.records(),
        old(app).stage is Recording ==> {
            &&& final(app).stage is Transcribing
            &&& main_recording(final(app).stage) == Some(samples)
            &&& subject(final(app).stage) == subject(old(app).stage)
            &&& hands_on(*old(app), r@)
        },
        old(app).stage is RecordingFollowup ==> {
            &&& final(app).stage matches Stage::TranscribingFollowup { samples: s, current, .. }
            &&& s == samples
            &&& old(app).stage matches Stage::RecordingFollowup { current: c, .. }
            &&& current == c
            &&& subject(final(app).stage) == subject(old(app).stage)
            &&& main_answer(final(app).stage) == main_answer(old(app).stage)
            &&& main_recording(final(app).stage) == main_recording(old(app).stage)
            &&& exchange(final(app).stage) == exchange(old(app).stage)
            &&& hands_on(*old(app), r@)
        },
        old(app).stage matches Stage::Debug { test_result, .. } ==> final(app).stage
            == (Stage::<A>::Debug { test_recording: false, test_result }) && hands_on(
            *old(app),
            r@,
        ),
        !(old(app).stage is Recording || old(app).stage is RecordingFollowup
            || old(app).stage is Debug) ==> *final(app) == *old(app) && r@.len() == 0,
{
}

/// The transcript of the main answer is kept as it is, and follow-ups are asked for on it.
pub proof fn law_answer_is_transcribed<A>(
    app: &mut CoachApp<A>,
    result: TranscriptionResult,
    r: Vec<Action>,
)
    requires
        call_ensures(CoachApp::<A>::handle_stt_done, (app, result), r),
        old(app).wf(),
        old(app).stage is Transcribing,
    ensures
        is_undisturbed(*final(app), *old(app)),
        final(app).stage is AskingFollowups,
        main_answer(final(app).stage) == Some(result.text),
        subject(final(app).stage) == subject(old(app).stage),
        main_recording(final(app).stage) == main_recording(old(app).stage),
        r@.len() == 1,
        r@[0] matches Action::Ask { messages, temperature_tenths, max_tokens }
            && temperature_tenths == 5 && max_tokens == 300 && messages@.len() == 2
            && text::stands_under(
            messages@[1].content@,
            "\n\nWHAT THEY SAID (auto-transcribed, may have minor STT errors):\n---\n"@,
            result.text@,
            coach::FOLLOWUP_RULES@,
        ),
{
    if let Stage::Transcribing { theme, prompt, .. } = old(app).stage {
        if let Action::Ask { messages, .. } = r@[0] {
            coach::law_followups_are_asked_on_the_answer(
                messages@,
                old(app).persona(),
                theme@,
                prompt@,
                result.text@,
            );
        }
    }
}

/// The answer to a follow-up joins those before it. Then the next one is asked, and after
/// the last one the main answer is measured.
pub proof fn law_followup_is_transcribed<A>(
    app: &mut CoachApp<A>,
    result: TranscriptionResult,
    r: Vec<Action>,
)
    requires
        call_ensures(CoachApp::<A>::handle_stt_done, (app, result), r),
        old(app).wf(),
        old(app).stage is TranscribingFollowup,
    ensures
        is_undisturbed(*final(app), *old(app)),
        subject(final(app).stage) == subject(old(app).stage),
        main_answer(final(app).stage) == main_answer(old(app).stage),
        main_recording(final(app).stage) == main_recording(old(app).stage),
        exchange(old(app).stage) matches Some((followups, answers)) && {
            &&& exchange(final(app).stage) == Some((followups, answers.push(result.text)))
            &&& answers.len() + 1 < followups.len() ==> {
                &&& final(app).stage matches Stage::RecordingFollowup { current, .. }
                &&& current == answers.len() + 1
                &&& r@.len() == 2
                &&& r@[0] matches Action::Speak { text, .. }
                &&& text@ == followups[answers.len() as int + 1]@
                &&& r@[1] is OpenMic
            }
            &&& answers.len() + 1 == followups.len() ==> final(app).stage is Measuring && r@
                == seq![Action::Measure]
        },
{
}

/// Once the answer is measured, feedback is asked for, on the answer and its delivery.
#[verifier::rlimit(50)]
pub proof fn law_answer_is_measured<A>(
    app: &mut CoachApp<A>,
    metrics: DeliveryMetrics,
    r: Vec<Action>,
)
    requires
        call_ensures(CoachApp::<A>::measured, (app, metrics), r),
        old(app).wf(),
    ensures
        is_undisturbed(*final(app), *old(app)),
        old(app).stage is Measuring ==> {
            &&& final(app).stage matches Stage::GeneratingFeedback { metrics: m, .. }
            &&& m == metrics
            &&& subject(final(app).stage) == subject(old(app).stage)
            &&& main_answer(final(app).stage) == main_answer(old(app).stage)
            &&& exchange(final(app).stage) == exchange(old(app).stage)
            &&& r@.len() == 1
            &&& r@[0] matches Action::Ask { messages, temperature_tenths, max_tokens }
            &&& temperature_tenths == 4 && max_tokens == 700
            &&& messages@.len() == 2
            &&& text::stands_under(
                messages@[1].content@,
                "\n---\n\nMEASURED DELIVERY METRICS (computed from the audio):\n---\n"@,
                metrics.prompt_text(),
                coach::FEEDBACK_RULES@,
            )
            &&& main_answer(old(app).stage) matches Some(said)
            &&& text::stands_under(
                messages@[1].content@,
                "\n\nAUTO-TRANSCRIPT (verbatim, may include STT errors — do not nitpick spelling):\n---\n"@,
                said@,
                "\n---\n\nMEASURED DELIVERY METRICS (computed from the audio):\n---\n"@,
            )
        },
        !(old(app).stage is Measuring) ==> *final(app) == *old(app) && r@.len() == 0,
{
    if let Stage::Measuring { theme, prompt, transcript, .. } = old(app).stage {
        if let Action::Ask { messages, .. } = r@[0] {
            coach::law_feedback_is_asked_on_the_answer(
                messages@,
                old(app).persona(),
                theme@,
                prompt@,
                transcript@,
                metrics,
            );
        }
    }
}

/// A transcript or an error that comes in while the microphone is tested is shown, and the
/// test goes on or ends by itself.
pub proof fn law_test_is_transcribed<A>(
    app: &mut CoachApp<A>,
    result: TranscriptionResult,
    r: Vec<Action>,
)
    requires
        call_ensures(CoachApp::<A>::handle_stt_done, (app, result), r),
        old(app).wf(),
        !(old(app).stage is Transcribing || old(app).stage is TranscribingFollowup),
    ensures
        is_undisturbed(*final(app), *old(app)),
        r@.len() == 0,
        final(app).stage.records() == old(app).stage.records(),
        old(app).stage is Debug ==> {
            &&& final(app).stage matches Stage::Debug { test_result: Some(Ok(shown)), .. }
            &&& shown == result
        },
        !(old(app).stage is Debug) ==> *final(app) == *old(app),
{
}

/// Without a transcript a session ends with the reason, and no recording goes on; a test
/// shows the reason and is left as it is.
pub proof fn law_transcription_fails<A>(app: &mut CoachApp<A>, err: String, r: Vec<Action>)
    requires
        call_ensures(CoachApp::<A>::handle_stt_error, (app, err), r),
        old(app).wf(),
    ensures
        is_undisturbed(*final(app), *old(app)),
        old(app).stage is Debug ==> {
            &&& final(app).stage matches Stage::Debug { test_result: Some(Err(shown)), .. }
            &&& shown@ == err@
            &&& final(app).stage.records() == old(app).stage.records()
            &&& r@.len() == 0
        },
        !(old(app).stage is Debug) ==> {
            &&& final(app).stage matches Stage::Error(m)
            &&& m@ == "Transcription error: "@ + err@
            &&& !app::mic_after(old(app).stage.records(), r@)
            &&& !old(app).stage.records() ==> r@.len() == 0
        },
{
    crate::workers::law_giving_up_closes_the_microphone(old(app).stage);
}

/// Without a microphone no recording goes on. A session ends with the reason; a test ends,
/// and the reason is handed back.
pub proof fn law_microphone_fails<A>(app: &mut CoachApp<A>, err: &str, r: Option<String>)
    requires
        call_ensures(CoachApp::<A>::mic_failed, (app, err), r),
        old(app).wf(),
    ensures
        is_undisturbed(*final(app), *old(app)),
        !final(app).stage.records(),
        old(app).stage is Recording || old(app).stage is RecordingFollowup ==> {
            &&& final(app).stage matches Stage::Error(m)
            &&& m@ == "Mic error: "@ + err@
        },
        old(app).stage is Debug ==> final(app).stage is Debug,
        r is Some <==> old(app).stage is Debug,
        r matches Some(m) ==> m@ == "Mic error: "@ + err@,
        !(old(app).stage is Recording || old(app).stage is RecordingFollowup
            || old(app).stage is Debug) ==> *final(app) == *old(app),
{
}

// ---------------------------------------------------------------- what is pressed

/// An answer can be ended from twenty seconds on, and ends after three minutes. Nothing
/// else ends it, and it ends with the recording handed on.
pub proof fn law_answer_ends<A>(app: &CoachApp<A>, elapsed: u64, stop: bool, r: Vec<Action>)
    requires
        call_ensures(CoachApp::<A>::recording, (app, elapsed, stop), r),
    ensures
        r@.len() > 0 <==> app.stage is Recording && (elapsed >= 180_000_000_000 || (stop && elapsed
            >= 20_000_000_000)),
        r@.len() > 0 ==> r@ == seq![Action::FinishRecording],
{
}

/// The answer to a follow-up can be ended at any time, and ends after a minute and a half;
/// reading aloud stops then. The follow-up is read again if that is asked for and nothing
/// is being read.
pub proof fn law_followup_ends<A>(
    app: &CoachApp<A>,
    replay: bool,
    busy: bool,
    elapsed: u64,
    stop: bool,
    r: Vec<Action>,
)
    requires
        call_ensures(CoachApp::<A>::recording_followup, (app, replay, busy, elapsed, stop), r),
        app.wf(),
    ensures
        !(app.stage is RecordingFollowup) ==> r@.len() == 0,
        app.stage matches Stage::RecordingFollowup { followups, current, .. } ==> {
            let again = replay && !busy && app.tts_ready;
            let ends = stop || elapsed >= 90_000_000_000;
            &&& r@.len() == (if again {
                1int
            } else {
                0int
            }) + (if ends {
                2int
            } else {
                0int
            })
            &&& again ==> (r@[0] matches Action::Speak { text, .. } && text@
                == followups@[current as int]@)
            &&& ends ==> r@[r@.len() - 2] is StopSpeaking && r@[r@.len() - 1] is FinishRecording
        },
{
    if let Stage::RecordingFollowup { .. } = app.stage {
        let spoken: int = if app.replays(replay, busy) {
            1
        } else {
            0
        };
        let rest = r@.skip(spoken);
        assert(rest.len() == r@.len() - spoken);
        if stop || elapsed >= 90_000_000_000 {
            assert(rest[0] == r@[spoken] && rest[1] == r@[spoken + 1]);
        }
    }
}

/// An exercise that was proposed is begun or left. Begun, it is recorded; either way
/// reading aloud stops, and the exercise stays what it was.
#[verifier::rlimit(50)]
pub proof fn law_exercise_is_begun_or_left<A>(
    app: &mut CoachApp<A>,
    replay: bool,
    start: bool,
    cancel: bool,
    busy: bool,
    r: Vec<Action>,
)
    requires
        call_ensures(CoachApp::<A>::confirm, (app, replay, start, cancel, busy), r),
        old(app).wf(),
    ensures
        is_undisturbed(*final(app), *old(app)),
        !(old(app).stage is ConfirmReady) ==> *final(app) == *old(app) && r@.len() == 0,
        old(app).stage is ConfirmReady ==> {
            &&& start ==> {
                &&& final(app).stage is Recording
                &&& subject(final(app).stage) == subject(old(app).stage)
                &&& r@.len() >= 2
                &&& r@[r@.len() - 2] is StopSpeaking
                &&& r@[r@.len() - 1] is OpenMic
            }
            &&& !start && cancel ==> {
                &&& final(app).stage is Welcome
                &&& r@.len() >= 1
                &&& r@[r@.len() - 1] is StopSpeaking
            }
            &&& !start && !cancel ==> final(app).stage == old(app).stage
            &&& !start && !cancel && !(replay && old(app).tts_ready && !busy) ==> r@.len() == 0
            &&& replay && old(app).tts_ready && !busy ==> {
                &&& r@.len() >= 1
                &&& r@[0] matches Action::Speak { text, .. }
                &&& subject(old(app).stage) matches Some((theme, prompt))
                &&& text@ == prompt@
            }
        },
{
    if let Stage::ConfirmReady { .. } = old(app).stage {
        let spoken: int = if old(app).replays(replay, busy) {
            1
        } else {
            0
        };
        let rest = r@.skip(spoken);
        assert(rest.len() == r@.len() - spoken);
        if start {
            assert(rest[0] == r@[spoken] && rest[1] == r@[spoken + 1]);
        } else if cancel {
            assert(rest[0] == r@[spoken]);
        }
    }
}

/// From the start one begins an exercise on one of the persona's topics, or goes to its
/// past sessions, where there are any.
#[verifier::rlimit(50)]
pub proof fn law_start_leads_on<A>(
    app: &mut CoachApp<A>,
    start: bool,
    history: bool,
    trends: bool,
    r: Vec<Action>,
)
    requires
        call_ensures(CoachApp::<A>::welcome, (app, start, history, trends), r),
        old(app).wf(),
    ensures
        is_undisturbed(*final(app), *old(app)),
        !(old(app).stage is Welcome) ==> *final(app) == *old(app) && r@.len() == 0,
        old(app).stage is Welcome && start ==> {
            &&& final(app).stage is ProposingTheme
            &&& r@.len() == 1
            &&& r@[0] matches Action::Ask { messages, temperature_tenths, max_tokens }
            &&& temperature_tenths == 8 && max_tokens == 200
            &&& messages@.len() == 2
            &&& exists|bucket: Seq<char>|
                #![trigger old(app).is_topic(bucket)]
                old(app).is_topic(bucket) && text::stands_under(
                    messages@[1].content@,
                    "Propose ONE speaking exercise for today's session in the area: \""@,
                    bucket,
                    coach::THEME_RULES@,
                )
        },
        old(app).stage is Welcome && !start ==> {
            &&& r@.len() == 0
            &&& old(app).own_sessions().len() == 0 || !(history || trends)
                ==> final(app).stage is Welcome
            &&& old(app).own_sessions().len() > 0 && history ==> final(app).stage
                == (Stage::<A>::History { selected: None })
            &&& old(app).own_sessions().len() > 0 && trends && !history
                ==> final(app).stage is Trends
        },
{
    if old(app).stage is Welcome && start {
        let bucket = choose|bucket: Seq<char>|
            #![trigger old(app).is_topic(bucket)]
            old(app).is_topic(bucket) && old(app).puts(
                r@[0],
                coach::theme_question(bucket),
                8,
                200,
            );
        if let Action::Ask { messages, .. } = r@[0] {
            coach::law_exercise_is_asked_for(messages@, old(app).persona(), bucket);
            let none = Seq::<char>::empty();
            let a = "Propose ONE speaking exercise for today's session in the area: \""@;
            assert(messages@[1].content@ == none + a + bucket + coach::THEME_RULES@ + none);
        }
    }
}

/// The bar at the top disturbs nothing that is under way. Elsewhere the persona that is
/// picked becomes the active one and is written down; the list of personas and the past
/// sessions stay as they are, and a test of the microphone that is left is dropped.
#[verifier::rlimit(50)]
pub proof fn law_bar_at_the_top<A>(
    app: &mut CoachApp<A>,
    picked: Option<usize>,
    personas: bool,
    debug: bool,
    r: Vec<Action>,
)
    requires
        call_ensures(CoachApp::<A>::top_bar, (app, picked, personas, debug), r),
        old(app).wf(),
    ensures
        final(app).persona_store.personas == old(app).persona_store.personas,
        final(app).sessions == old(app).sessions,
        subject(old(app).stage) is Some && !(old(app).stage is Feedback) ==> *final(app)
            == *old(app) && r@.len() == 0,
        old(app).stage is EditPersona ==> *final(app) == *old(app) && r@.len() == 0,
        r@.contains(Action::SavePersonas) <==> final(app).persona_store.active
            != old(app).persona_store.active,
        old(app).stage.stable() ==> {
            &&& picked matches Some(i) ==> i < old(app).persona_store.personas@.len()
                ==> final(app).persona_store.active == i
            &&& picked is None ==> final(app).persona_store.active
                == old(app).persona_store.active
            &&& debug ==> final(app).stage == (Stage::<A>::Debug {
                test_recording: false,
                test_result: None,
            })
            &&& personas && !debug ==> final(app).stage is Personas
            &&& !personas && !debug && (!(old(app).stage is History)
                || final(app).persona_store.active == old(app).persona_store.active)
                ==> final(app).stage == old(app).stage
            &&& final(app).persona_store.active != old(app).persona_store.active
                && final(app).stage is History ==> final(app).stage == (Stage::<A>::History {
                selected: None,
            })
            &&& old(app).stage.records() && (personas || debug) ==> r@.contains(
                Action::DropRecording,
            )
            &&& !(old(app).stage.records() && (personas || debug)) ==> !r@.contains(
                Action::DropRecording,
            )
        },
{
    let saves = if old(app).switches_to(picked) {
        seq![Action::SavePersonas]
    } else {
        seq![]
    };
    if old(app).switches_to(picked) {
        assert(r@[0] == Action::SavePersonas);
    }
    if old(app).stage.stable() && (personas || debug) && old(app).stage.records() {
        assert(r@ == saves.push(Action::DropRecording));
        assert(r@[r@.len() - 1] == Action::DropRecording);
    } else {
        assert(r@ == saves);
    }
}

/// Feedback is copied as it is, and leads to the start, to the past sessions or to their
/// charts.
pub proof fn law_feedback_is_left<A>(
    app: &mut CoachApp<A>,
    restart: bool,
    copy: bool,
    history: bool,
    trends: bool,
    r: Vec<Action>,
)
    requires
        call_ensures(CoachApp::<A>::feedback, (app, restart, copy, history, trends), r),
        old(app).wf(),
    ensures
        is_undisturbed(*final(app), *old(app)),
        !(old(app).stage is Feedback) ==> *final(app) == *old(app) && r@.len() == 0,
        old(app).stage matches Stage::Feedback { feedback, .. } ==> {
            &&& restart ==> final(app).stage is Welcome
            &&& !restart && history ==> final(app).stage == (Stage::<A>::History {
                selected: None,
            })
            &&& !restart && !history && trends ==> final(app).stage is Trends
            &&& !restart && !history && !trends ==> final(app).stage == old(app).stage
            &&& copy ==> r@.len() == 1 && (r@[0] matches Action::CopyText(s) && s@ == feedback@)
            &&& !copy ==> r@.len() == 0
        },
{
}

/// A session that has come to its end is kept and appended to the log, once.
#[verifier::rlimit(50)]
pub proof fn law_session_is_saved<A>(
    app: &mut CoachApp<A>,
    clock: Option<u64>,
    r: Vec<Action>,
)
    requires
        call_ensures(CoachApp::<A>::save_session, (app, clock), r),
        old(app).wf(),
    ensures
        old(app).stage matches Stage::Feedback { feedback, saved: false, .. } ==> {
            let n = old(app).sessions@.len() as int;
            &&& r@ == seq![Action::AppendSession]
            &&& final(app).stage matches Stage::Feedback { saved: true, .. }
            &&& subject(final(app).stage) == subject(old(app).stage)
            &&& main_answer(final(app).stage) == main_answer(old(app).stage)
            &&& exchange(final(app).stage) == exchange(old(app).stage)
            &&& final(app).sessions@.len() == n + 1
            &&& final(app).sessions@[n].feedback@ == feedback@
            &&& subject(old(app).stage) matches Some((theme, prompt))
            &&& final(app).sessions@[n].theme@ == theme@
            &&& final(app).sessions@[n].prompt@ == prompt@
            &&& main_answer(old(app).stage) matches Some(said)
            &&& final(app).sessions@[n].transcript@ == said@
            &&& exchange(old(app).stage) matches Some((followups, answers))
            &&& text::texts(final(app).sessions@[n].followups@) == text::texts(followups)
            &&& text::texts(final(app).sessions@[n].followup_answers@) == text::texts(answers)
            &&& final(app).sessions@[n].persona_name@ == old(app).persona().name@
            &&& forall|i: int|
                0 <= i < n ==> #[trigger] final(app).sessions@[i] == old(app).sessions@[i]
        },
        !(old(app).stage matches Stage::Feedback { saved: false, .. }) ==> *final(app)
            == *old(app) && r@.len() == 0,
{
    crate::screens::law_kept_session_is_the_one_that_ended(*old(app), *final(app), clock);
}

/// An error is left for the start, and nothing else is.
pub proof fn law_error_is_left<A>(app: &mut CoachApp<A>, back: bool)
    requires
        call_ensures(CoachApp::<A>::error, (app, back), ()),
        old(app).wf(),
    ensures
        is_undisturbed(*final(app), *old(app)),
        old(app).stage is Error && back ==> final(app).stage is Welcome,
        !(old(app).stage is Error && back) ==> *final(app) == *old(app),
{
}

/// The past session that is shown is one of the persona's, where it has any: the one that
/// is selected, or else its last.
#[verifier::rlimit(50)]
pub proof fn law_shown_session_is_the_personas<A>(app: &CoachApp<A>, r: Option<usize>)
    requires
        call_ensures(CoachApp::<A>::shown_session, (app,), r),
        app.wf(),
        app.sessions@.len() <= usize::MAX,
    ensures
        r matches Some(i) ==> {
            &&& i < app.sessions@.len()
            &&& app.sessions@[i as int].persona_name@ == app.persona().name@
        },
        app.stage matches Stage::History { selected } ==> {
            &&& r is None <==> forall|k: int|
                0 <= k < app.sessions@.len() ==> (#[trigger] app.sessions@[k]).persona_name@
                    != app.persona().name@
            &&& selected matches Some(i) ==> i < app.sessions@.len()
                && app.sessions@[i as int].persona_name@ == app.persona().name@ ==> r == selected
            &&& selected is None && r is Some ==> forall|k: int|
                r->0 < k < app.sessions@.len() ==> (#[trigger] app.sessions@[k]).persona_name@
                    != app.persona().name@
        },
        !(app.stage is History) ==> r is None,
{
    let own = app.own_sessions();
    crate::history::law_positions_are_exact(app.sessions@, app.persona().name@);
    if let Stage::History { selected } = app.stage {
        if own.len() > 0 {
            assert(own.contains(own[own.len() - 1]));
            let last = own[own.len() - 1];
            assert(app.sessions@[last as int].persona_name@ == app.persona().name@);
            if selected is None {
                assert forall|k: int| last < k < app.sessions@.len() implies (
                #[trigger] app.sessions@[k]).persona_name@ != app.persona().name@ by {
                    if app.sessions@[k].persona_name@ == app.persona().name@ {
                        assert(own.contains(k as usize));
                        let j = choose|j: int| 0 <= j < own.len() && own[j] == k as usize;
                        assert(own[j] <= own[own.len() - 1]);
                    }
                }
            }
        } else {
            assert forall|k: int| 0 <= k < app.sessions@.len() implies (
            #[trigger] app.sessions@[k]).persona_name@ != app.persona().name@ by {
                assert(!own.contains(k as usize));
            }
        }
    }
}

/// The past sessions lead to their charts and back to the start; otherwise one of them is
/// selected.
pub proof fn law_past_sessions_are_left<A>(
    app: &mut CoachApp<A>,
    back: bool,
    trends: bool,
    picked: Option<usize>,
)
    requires
        call_ensures(CoachApp::<A>::past_sessions, (app, back, trends, picked), ()),
        old(app).wf(),
    ensures
        is_undisturbed(*final(app), *old(app)),
        !(old(app).stage is History) ==> *final(app) == *old(app),
        old(app).stage is History && trends ==> final(app).stage is Trends,
        old(app).stage is History && !trends && back ==> final(app).stage is Welcome,
        old(app).stage is History && !trends && !back ==> {
            &&& final(app).stage matches Stage::History { selected }
            &&& picked matches Some(i) ==> old(app).own_sessions().contains(i) ==> selected
                == picked
            &&& picked is None && old(app).own_sessions().len() > 0 && selected is Some
                ==> old(app).own_sessions().contains(selected->0) && old(app).stage
                == (Stage::<A>::History { selected })
        },
{
}

/// The charts lead to the past sessions and back to the start.
pub proof fn law_charts_are_left<A>(app: &mut CoachApp<A>, back: bool, history: bool)
    requires
        call_ensures(CoachApp::<A>::trends, (app, back, history), ()),
        old(app).wf(),
    ensures
        is_undisturbed(*final(app), *old(app)),
        !(old(app).stage is Trends) ==> *final(app) == *old(app),
        old(app).stage is Trends && history ==> final(app).stage == (Stage::<A>::History {
            selected: None,
        }),
        old(app).stage is Trends && !history && back ==> final(app).stage is Welcome,
        old(app).stage is Trends && !history && !back ==> final(app).stage is Trends,
{
}

/// What the list of personas does not offer does nothing. A history is cleared only once
/// that is confirmed, and under the persona's name; a persona that is deleted leaves the
/// others and their sessions.
#[verifier::rlimit(50)]
pub proof fn law_list_of_personas<A>(app: &mut CoachApp<A>, press: PersonaPress, r: Vec<Action>)
    requires
        call_ensures(CoachApp::<A>::personas_list, (app, press), r),
        old(app).wf(),
    ensures
        final(app).sessions == old(app).sessions,
        !(old(app).stage is Personas) ==> *final(app) == *old(app) && r@.len() == 0,
        r@.len() > 0 && r@[0] is ClearHistory ==> {
            &&& press matches PersonaPress::ConfirmClear(i)
            &&& old(app).confirm_clear_idx == Some(i)
            &&& r@[0] matches Action::ClearHistory(name)
            &&& name@ == old(app).persona_store.personas@[i as int].name@
            &&& final(app).confirm_clear_idx is None
        },
        final(app).confirm_clear_idx != old(app).confirm_clear_idx
            && final(app).confirm_clear_idx is Some ==> press == PersonaPress::ClearHistory(
            final(app).confirm_clear_idx->0,
        ),
        final(app).persona_store.personas@.len() >= 1,
        final(app).persona_store.personas@.len() != old(app).persona_store.personas@.len() ==> (
        press matches PersonaPress::Delete(i) && final(app).persona_store.personas@
            == old(app).persona_store.personas@.remove(i as int)),
        r@.contains(Action::SavePersonas) <==> final(app).persona_store
            != old(app).persona_store || (press matches PersonaPress::Delete(i) && old(app).offers(press)),
        old(app).stage is Personas ==> {
            &&& press is Back ==> final(app).stage is Welcome
            &&& press is Create ==> (final(app).stage matches Stage::EditPersona { draft }
                && draft.edit_idx is None && draft.name@.len() == 0)
            &&& press matches PersonaPress::Edit(i) ==> i
                < old(app).persona_store.personas@.len() ==> (
            final(app).stage matches Stage::EditPersona { draft } && draft.edit_idx == Some(i)
                && draft.name@ == old(app).persona_store.personas@[i as int].name@)
            &&& press matches PersonaPress::SetActive(i) ==> i
                < old(app).persona_store.personas@.len() ==> final(app).persona_store.active == i
        },
{
    if old(app).offers(press) {
        match press {
            PersonaPress::SetActive(_) => {
                assert(r@[0] == Action::SavePersonas);
            },
            PersonaPress::Delete(i) => {
                assert(r@[0] == Action::SavePersonas);
                crate::personas::law_active_stays_in_the_list(
                    old(app).persona_store.active as int,
                    i as int,
                    old(app).persona_store.personas@.len() as int,
                );
            },
            _ => {},
        }
    }
}

/// A draft is saved only if it has a name; then it takes its place in the list or comes
/// last, and the personas are written down. Left without that, it changes nothing.
#[verifier::rlimit(50)]
pub proof fn law_draft_is_saved_or_left<A>(
    app: &mut CoachApp<A>,
    preview: bool,
    save: bool,
    cancel: bool,
    busy: bool,
    r: Vec<Action>,
)
    requires
        call_ensures(CoachApp::<A>::edit_persona, (app, preview, save, cancel, busy), r),
        old(app).wf(),
    ensures
        final(app).sessions == old(app).sessions,
        !(old(app).stage is EditPersona) ==> *final(app) == *old(app) && r@.len() == 0,
        old(app).stage matches Stage::EditPersona { draft } ==> {
            let named = text::trimmed(draft.name@).len() > 0;
            &&& save && named ==> {
                &&& final(app).stage is Personas
                &&& r@.len() >= 1 && r@[r@.len() - 1] is SavePersonas
                &&& draft.edit_idx matches Some(i) ==> {
                    &&& final(app).persona_store.personas@.len()
                        == old(app).persona_store.personas@.len()
                    &&& final(app).persona_store.personas@[i as int].name@ == text::trimmed(
                        draft.name@,
                    )
                    &&& final(app).persona_store.active == old(app).persona_store.active
                }
                &&& draft.edit_idx is None ==> {
                    &&& final(app).persona_store.personas@.len()
                        == old(app).persona_store.personas@.len() + 1
                    &&& final(app).persona().name@ == text::trimmed(draft.name@)
                }
            }
            &&& !(save && named) ==> {
                &&& final(app).persona_store == old(app).persona_store
                &&& cancel ==> final(app).stage is Personas
                &&& !cancel ==> final(app).stage == old(app).stage
            }
            &&& preview && old(app).tts_ready && !busy ==> {
                &&& r@.len() >= 1
                &&& r@[0] matches Action::Speak { text, voice_id }
                &&& text@ == "Hello! This is a preview of the selected voice."@
                &&& voice_id == draft.voice_id
            }
        },
{
    if let Stage::EditPersona { draft } = old(app).stage {
        let spoken: int = if old(app).replays(preview, busy) {
            1
        } else {
            0
        };
        let rest = r@.skip(spoken);
        assert(rest.len() == r@.len() - spoken);
        if save && draft.has_name() {
            assert(rest[0] == r@[spoken]);
        }
    }
}

/// A test of the microphone begins when it is asked for and ends when it is stopped or
/// after ten seconds; left before that, it is dropped.
#[verifier::rlimit(50)]
pub proof fn law_microphone_is_tested<A>(
    app: &mut CoachApp<A>,
    back: bool,
    start: bool,
    stop: bool,
    elapsed: u64,
    r: Vec<Action>,
)
    requires
        call_ensures(CoachApp::<A>::debug, (app, back, start, stop, elapsed), r),
        old(app).wf(),
    ensures
        is_undisturbed(*final(app), *old(app)),
        !(old(app).stage is Debug) ==> *final(app) == *old(app) && r@.len() == 0,
        old(app).stage matches Stage::Debug { test_recording, test_result } ==> {
            &&& r@.len() <= 1
            &&& back ==> final(app).stage is Welcome
            &&& !back ==> (final(app).stage matches Stage::Debug { test_result: shown, .. } && shown
                == test_result)
            &&& r@.contains(Action::DropRecording) <==> back && test_recording
            &&& r@.contains(Action::OpenMic) <==> !back && start && !test_recording
            &&& r@.contains(Action::FinishRecording) <==> !back && test_recording && (stop
                || elapsed > 10_000_000_000)
        },
{
    if let Stage::Debug { test_recording, .. } = old(app).stage {
        if back && test_recording {
            assert(r@[0] == Action::DropRecording);
        } else if !back && !test_recording && start {
            assert(r@[0] == Action::OpenMic);
        } else if !back && test_recording && (stop || elapsed > app::TEST_MAX) {
            assert(r@[0] == Action::FinishRecording);
        }
    }
}

// ---------------------------------------------------------------- the beginning

/// A session begins at the start, with the personas that were loaded and the sessions of the
/// past, each with its owner named; what is missing for transcripts or for reading aloud is
/// told.
pub proof fn law_session_begins<A>(
    model: Option<String>,
    store: crate::personas::PersonaStore,
    sessions: Vec<Session>,
    transcriber: Result<(), String>,
    tts: Result<(), String>,
    voice_named: Option<String>,
    r: CoachApp<A>,
)
    requires
        call_ensures(
            CoachApp::<A>::new,
            (model, store, sessions, transcriber, tts, voice_named),
            r,
        ),
        store.wf(),
    ensures
        r.wf(),
        r.stage is Welcome,
        r.persona_store == store,
        r.voice_named == voice_named,
        r.confirm_clear_idx is None,
        model is None ==> r.model_name@ == "llama3.1:8b"@,
        model matches Some(m) ==> r.model_name == m,
        r.transcriber_ready <==> r.transcriber_error is None,
        transcriber matches Err(e) ==> r.transcriber_error == Some(e),
        transcriber is Ok ==> r.transcriber_ready,
        r.tts_ready <==> r.tts_error is None,
        tts matches Err(e) ==> r.tts_error == Some(e),
        tts is Ok ==> r.tts_ready,
        r.sessions@.len() == sessions@.len(),
        forall|i: int|
            0 <= i < sessions@.len() ==> {
                &&& (#[trigger] r.sessions@[i]).persona_name@.len() > 0
                &&& sessions@[i].persona_name@.len() > 0 ==> r.sessions@[i].persona_name@
                    == sessions@[i].persona_name@
                &&& r.sessions@[i].timestamp == sessions@[i].timestamp
                &&& r.sessions@[i].feedback == sessions@[i].feedback
            },
{
    assert forall|i: int| 0 <= i < sessions@.len() implies {
        &&& (#[trigger] r.sessions@[i]).persona_name@.len() > 0
        &&& sessions@[i].persona_name@.len() > 0 ==> r.sessions@[i].persona_name@
            == sessions@[i].persona_name@
        &&& r.sessions@[i].timestamp == sessions@[i].timestamp
        &&& r.sessions@[i].feedback == sessions@[i].feedback
    } by {
        crate::history::law_naming_changes_the_name_only(r.sessions@[i], sessions@[i]);
    }
}

/// A text is read aloud as it is, in the persona's voice unless the settings name another.
pub proof fn law_text_is_read_aloud<A>(app: &CoachApp<A>, said: String, r: Action, v: u32)
    requires
        call_ensures(CoachApp::<A>::speak, (app, said), r),
        app.wf(),
    ensures
        r matches Action::Speak { text, voice_id } && {
            &&& text@ == said@
            &&& app.voice_named is None ==> voice_id
                == app.persona_store.personas@[app.persona_store.active as int].voice_id
            &&& app.voice_named matches Some(s) ==> v <= 10 && s@ == text::decimal(v as nat)
                ==> voice_id == v
        },
{
    if let Action::Speak { voice_id, .. } = r {
        app::law_voice_is_settled(*app, voice_id, v);
    }
}

/// The screen is drawn again while an answer is recorded and while a text is read aloud.
pub proof fn law_screen_keeps_up<A>(app: &CoachApp<A>, busy: bool, r: bool)
    requires
        call_ensures(CoachApp::<A>::needs_repaint, (app, busy), r),
    ensures
        busy ==> r,
        app.stage is Recording || app.stage is RecordingFollowup ==> r,
        r && !busy ==> app.stage.records() && !(app.stage is Debug),
{
}

/// Past sessions that were read again take the place of those before, each with its owner
/// named, and nothing else changes.
pub proof fn law_sessions_are_read_again<A>(app: &mut CoachApp<A>, sessions: Vec<Session>, i: int)
    requires
        call_ensures(CoachApp::<A>::reload_sessions, (app, sessions), ()),
    ensures
        final(app).stage == old(app).stage,
        final(app).persona_store == old(app).persona_store,
        final(app).sessions@.len() == sessions@.len(),
        0 <= i < sessions@.len() ==> {
            &&& final(app).sessions@[i].persona_name@.len() > 0
            &&& sessions@[i].persona_name@.len() > 0 ==> final(app).sessions@[i].persona_name@
                == sessions@[i].persona_name@
            &&& final(app).sessions@[i].timestamp == sessions@[i].timestamp
            &&& final(app).sessions@[i].transcript == sessions@[i].transcript
        },
{
    if 0 <= i < sessions@.len() {
        crate::history::law_naming_changes_the_name_only(final(app).sessions@[i], sessions@[i]);
    }
}

} // verus!
