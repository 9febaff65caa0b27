use speakflow::analysis::{DeliveryMetrics, Measure};
use speakflow::app;
use speakflow::app::{Action, CoachApp, Stage};
use speakflow::history::Session;
use speakflow::manage::PersonaPress;
use speakflow::personas::{Persona, PersonaStore};
use speakflow::stt::TranscriptionResult;

type App = CoachApp<u32>;

const SECOND: u64 = 1_000_000_000;

fn measure(shown: &str) -> Measure {
    Measure { bits: 0, shown: shown.to_string() }
}

fn metrics() -> DeliveryMetrics {
    DeliveryMetrics {
        duration_secs: measure("61.2"),
        words: 150,
        words_per_minute: measure("147"),
        speech_ratio: measure("0.80"),
        total_pause_secs: measure("4.4"),
        long_pause_count: 3,
        energy_cv: measure("0.50"),
        filler_count: 2,
        filler_examples: vec![],
    }
}

fn session(persona_name: &str) -> Session {
    Session {
        timestamp: 5,
        theme: "T".to_string(),
        prompt: "P".to_string(),
        transcript: "said".to_string(),
        followups: vec![],
        followup_answers: vec![],
        metrics: metrics(),
        feedback: "good".to_string(),
        persona_name: persona_name.to_string(),
    }
}

fn persona(name: &str, voice_id: u32) -> Persona {
    Persona {
        name: name.to_string(),
        description: "a coach".to_string(),
        topics: vec!["Topic".to_string()],
        background: String::new(),
        voice_id,
    }
}

fn app_with(sessions: Vec<Session>, transcriber: Result<(), String>) -> App {
    let store = PersonaStore {
        active: 0,
        personas: vec![persona("Engineering Leader", 4), persona("B", 5), persona("C", 6)],
    };
    CoachApp::new(None, store, sessions, transcriber, Ok(()), None)
}

fn new_app() -> App {
    app_with(vec![], Ok(()))
}

fn result(text: &str) -> TranscriptionResult {
    TranscriptionResult { text: text.to_string(), stdout: String::new(), stderr: String::new() }
}

fn is_speech(action: &Action, expected: &str, voice: u32) -> bool {
    matches!(action, Action::Speak { text, voice_id } if text == expected && *voice_id == voice)
}

fn asks(action: &Action, part: &str, temperature: u32, tokens: i32) -> bool {
    match action {
        Action::Ask { messages, temperature_tenths, max_tokens } => {
            messages.len() == 2
                && messages[1].content.contains(part)
                && *temperature_tenths == temperature
                && *max_tokens == tokens
        }
        _ => false,
    }
}

/// An app that waits for the answer to the first of two follow-ups.
fn before_followups() -> App {
    let mut a = new_app();
    a.stage = Stage::AskingFollowups {
        theme: "T".to_string(),
        prompt: "P".to_string(),
        transcript: "main answer".to_string(),
        samples: 7,
    };
    a.handle_stream_done(Ok("1. Why?\n2. How?".to_string()));
    a
}

fn feedback_stage(saved: bool) -> Stage<u32> {
    Stage::Feedback {
        theme: "T".to_string(),
        prompt: "P".to_string(),
        transcript: "said".to_string(),
        followups: vec!["q".to_string()],
        followup_answers: vec!["a".to_string()],
        metrics: metrics(),
        feedback: "good".to_string(),
        saved,
    }
}

// ---------------------------------------------------------------- a session

#[test]
fn a_new_app_has_not_begun() {
    let a: App = CoachApp::new(
        Some("mistral".to_string()),
        PersonaStore::default(),
        vec![session("")],
        Err("no whisper".to_string()),
        Err("no voice".to_string()),
        None,
    );
    assert!(matches!(a.stage, Stage::Welcome));
    assert_eq!(a.model_name, "mistral");
    assert_eq!(a.sessions[0].persona_name, "Engineering Leader");
    assert_eq!(a.active_persona_indices(), vec![0]);
    assert!(!a.transcriber_ready);
    assert_eq!(a.transcriber_error, Some("no whisper".to_string()));
    assert!(!a.tts_enabled());
    assert_eq!(a.tts_error, Some("no voice".to_string()));
    assert_eq!(new_app().model_name, "llama3.1:8b");
}

#[test]
fn a_session_runs_from_start_to_feedback() {
    let mut a = new_app();
    let r = a.welcome(true, true, true);
    assert_eq!(r.len(), 1);
    assert!(asks(&r[0], "Topic", 8, 200));
    assert!(matches!(a.stage, Stage::ProposingTheme));

    let r = a.handle_stream_done(Ok("THEME: T\nPROMPT: Tell me.".to_string()));
    assert!(is_speech(&r[0], "Tell me.", 4));
    assert!(matches!(&a.stage, Stage::ConfirmReady { theme, prompt }
        if theme == "T" && prompt == "Tell me."));

    let r = a.confirm(false, true, false, false);
    assert!(matches!(r[..], [Action::StopSpeaking, Action::OpenMic]));
    assert!(matches!(a.stage, Stage::Recording { .. }));
    assert!(a.stage.is_recording());
    assert!(!a.stage.is_stable());

    assert!(a.recording(19 * SECOND, true).is_empty());
    let r = a.recording(20 * SECOND, true);
    assert!(matches!(r[..], [Action::FinishRecording]));
    let r = a.recording_finished(7);
    assert!(matches!(r[..], [Action::Transcribe]));
    assert!(matches!(a.stage, Stage::Transcribing { samples: 7, .. }));

    let r = a.handle_stt_done(result("main answer"));
    assert!(asks(&r[0], "main answer", 5, 300));
    assert!(matches!(&a.stage, Stage::AskingFollowups { transcript, samples: 7, .. }
        if transcript == "main answer"));

    let r = a.handle_stream_done(Ok("1. Why?\n2. How?".to_string()));
    assert!(is_speech(&r[0], "Why?", 4));
    assert!(matches!(r[1], Action::OpenMic));

    assert!(a.recording_followup(false, false, 89 * SECOND, false).is_empty());
    let r = a.recording_followup(false, false, 3 * SECOND, true);
    assert!(matches!(r[..], [Action::StopSpeaking, Action::FinishRecording]));
    a.recording_finished(8);
    let r = a.handle_stt_done(result("because"));
    assert!(is_speech(&r[0], "How?", 4));
    assert!(matches!(r[1], Action::OpenMic));

    let r = a.recording_followup(false, false, 90 * SECOND, false);
    assert!(matches!(r[..], [Action::StopSpeaking, Action::FinishRecording]));
    a.recording_finished(9);
    let r = a.handle_stt_done(result("like so"));
    assert!(matches!(r[..], [Action::Measure]));
    assert!(matches!(&a.stage, Stage::Measuring { transcript, samples: 7, .. }
        if transcript == "main answer"));

    let r = a.measured(metrics());
    assert!(asks(&r[0], "words_per_minute: 147", 4, 700));
    let r = a.handle_stream_done(Ok("Well done.".to_string()));
    assert!(r.is_empty());
    match &a.stage {
        Stage::Feedback { theme, followups, followup_answers, feedback, saved, .. } => {
            assert_eq!(theme, "T");
            assert_eq!(followups, &vec!["Why?".to_string(), "How?".to_string()]);
            assert_eq!(followup_answers, &vec!["because".to_string(), "like so".to_string()]);
            assert_eq!(feedback, "Well done.");
            assert!(!saved);
        }
        _ => panic!("no feedback"),
    }
}

#[test]
fn followups_take_turns() {
    let mut a = before_followups();
    for (n, answer) in ["one", "two"].iter().enumerate() {
        match &a.stage {
            Stage::RecordingFollowup { current, followup_answers, .. } => {
                assert_eq!(*current, n);
                assert_eq!(followup_answers.len(), n);
            }
            _ => panic!("no follow-up"),
        }
        a.recording_finished(0);
        a.handle_stt_done(result(answer));
    }
    assert!(matches!(&a.stage, Stage::Measuring { followup_answers, .. }
        if followup_answers == &vec!["one".to_string(), "two".to_string()]));
}

#[test]
fn without_followups_the_answer_is_measured_at_once() {
    let mut a = new_app();
    a.stage = Stage::AskingFollowups {
        theme: "T".to_string(),
        prompt: "P".to_string(),
        transcript: "main".to_string(),
        samples: 7,
    };
    let r = a.handle_stream_done(Ok("No questions.".to_string()));
    assert!(matches!(r[..], [Action::Measure]));
    assert!(matches!(&a.stage, Stage::Measuring { followups, followup_answers, samples: 7, .. }
        if followups.is_empty() && followup_answers.is_empty()));
}

#[test]
fn a_recording_is_no_longer_than_allowed() {
    let mut a = new_app();
    a.stage = Stage::Recording { theme: "T".to_string(), prompt: "P".to_string() };
    assert!(a.recording(180 * SECOND - 1, false).is_empty());
    assert!(matches!(a.recording(180 * SECOND, false)[..], [Action::FinishRecording]));
    assert_eq!(app::MIN_RECORD, 20 * SECOND);
    assert!(new_app().recording(500 * SECOND, true).is_empty());
}

#[test]
fn an_unreachable_model_is_an_error() {
    let mut a = new_app();
    a.stage = Stage::ProposingTheme;
    assert!(a.handle_stream_done(Err("refused".to_string())).is_empty());
    assert!(matches!(&a.stage, Stage::Error(m) if m
        == "Ollama error: refused\n\nIs `ollama serve` running and is the model `llama3.1:8b` \
            pulled?\nTry: `ollama pull llama3.1:8b`"));
    a.error(false);
    assert!(matches!(a.stage, Stage::Error(_)));
    a.error(true);
    assert!(matches!(a.stage, Stage::Welcome));
}

#[test]
fn a_reply_that_nothing_waits_for_changes_nothing() {
    let mut a = new_app();
    assert!(a.handle_stream_done(Ok("1. Why?".to_string())).is_empty());
    assert!(a.handle_stt_done(result("x")).is_empty());
    assert!(a.measured(metrics()).is_empty());
    assert!(a.recording_finished(3).is_empty());
    assert!(a.mic_failed("x").is_none());
    assert!(matches!(a.stage, Stage::Welcome));
}

#[test]
fn a_failed_transcript_is_an_error() {
    let mut a = before_followups();
    a.recording_finished(1);
    assert!(a.handle_stt_error("exit 1".to_string()).is_empty());
    assert!(matches!(&a.stage, Stage::Error(m) if m == "Transcription error: exit 1"));
}

#[test]
fn an_error_closes_the_microphone() {
    let mut a = before_followups();
    assert!(matches!(a.handle_stt_error("late".to_string())[..], [Action::DropRecording]));
    assert!(matches!(a.stage, Stage::Error(_)));

    let mut a = new_app();
    a.stage = Stage::Recording { theme: "T".to_string(), prompt: "P".to_string() };
    assert!(matches!(a.handle_stream_done(Err("late".to_string()))[..], [Action::DropRecording]));
    assert!(matches!(a.stage, Stage::Error(_)));

    let mut a = new_app();
    a.stage = Stage::Debug { test_recording: true, test_result: None };
    assert!(a.handle_stt_error("x".to_string()).is_empty());
    assert!(a.stage.is_recording());
    assert!(matches!(a.handle_stream_done(Err("x".to_string()))[..], [Action::DropRecording]));
}

#[test]
fn a_closed_microphone_is_an_error() {
    let mut a = before_followups();
    assert!(a.mic_failed("no device").is_none());
    assert!(matches!(&a.stage, Stage::Error(m) if m == "Mic error: no device"));
}

#[test]
fn without_a_program_there_is_no_transcript() {
    let mut a = app_with(vec![], Err("not installed".to_string()));
    a.stage = Stage::Recording { theme: "T".to_string(), prompt: "P".to_string() };
    let r = a.recording_finished(1);
    assert!(matches!(&r[..], [Action::TranscriptionFailed(e)] if e == "not installed"));
    a.transcriber_error = None;
    assert!(matches!(a.launch_transcription(),
        Action::TranscriptionFailed(e) if e == "whisper not loaded"));
}

#[test]
fn the_prompt_is_read_again_once_it_has_been_read() {
    let mut a = new_app();
    a.stage = Stage::ConfirmReady { theme: "T".to_string(), prompt: "P".to_string() };
    assert!(a.confirm(true, false, false, true).is_empty());
    let r = a.confirm(true, false, false, false);
    assert!(r.len() == 1 && is_speech(&r[0], "P", 4));
    a.tts_ready = false;
    assert!(a.confirm(true, false, false, false).is_empty());
    let r = a.confirm(false, false, true, false);
    assert!(matches!(r[..], [Action::StopSpeaking]));
    assert!(matches!(a.stage, Stage::Welcome));
    let r = before_followups().recording_followup(true, false, 0, false);
    assert!(r.len() == 1 && is_speech(&r[0], "Why?", 4));
}

#[test]
fn a_named_voice_speaks_in_place_of_the_persona_s() {
    let mut a = new_app();
    a.voice_named = Some("9".to_string());
    assert!(is_speech(&a.speak("x".to_string()), "x", 9));
    a.voice_named = Some("99".to_string());
    assert!(is_speech(&a.speak("x".to_string()), "x", 4));
}

#[test]
fn a_session_is_kept_once() {
    let mut a = new_app();
    a.stage = feedback_stage(false);
    let r = a.save_session(Some(77));
    assert!(matches!(r[..], [Action::AppendSession]));
    assert!(a.save_session(Some(78)).is_empty());
    assert_eq!(a.sessions.len(), 1);
    let s = &a.sessions[0];
    assert_eq!((s.timestamp, s.theme.as_str(), s.feedback.as_str()), (77, "T", "good"));
    assert_eq!(s.followups, vec!["q".to_string()]);
    assert_eq!(s.followup_answers, vec!["a".to_string()]);
    assert_eq!(s.persona_name, "Engineering Leader");
    assert_eq!(s.metrics.words, 150);
    assert!(matches!(a.stage, Stage::Feedback { saved: true, .. }));
    assert!(new_app().save_session(None).is_empty());
}

#[test]
fn feedback_can_be_copied_and_left() {
    let mut a = new_app();
    a.stage = feedback_stage(true);
    let r = a.feedback(false, true, false, false);
    assert!(matches!(&r[..], [Action::CopyText(s)] if s == "good"));
    assert!(matches!(a.stage, Stage::Feedback { .. }));
    a.feedback(false, false, false, true);
    assert!(matches!(a.stage, Stage::Trends));
    a.stage = feedback_stage(true);
    a.feedback(false, false, true, true);
    assert!(matches!(a.stage, Stage::History { selected: None }));
    a.stage = feedback_stage(true);
    a.feedback(true, false, true, true);
    assert!(matches!(a.stage, Stage::Welcome));
}

#[test]
fn the_past_opens_only_where_there_is_one() {
    let mut a = new_app();
    a.welcome(false, true, true);
    assert!(matches!(a.stage, Stage::Welcome));
    let mut a = app_with(vec![session("B")], Ok(()));
    a.welcome(false, true, false);
    assert!(matches!(a.stage, Stage::Welcome));
    let mut a = app_with(vec![session("")], Ok(()));
    a.welcome(false, false, true);
    assert!(matches!(a.stage, Stage::Trends));
    let mut a = app_with(vec![session("")], Ok(()));
    a.welcome(false, true, true);
    assert!(matches!(a.stage, Stage::History { selected: None }));
}

#[test]
fn the_screen_is_drawn_again_while_something_runs() {
    let mut a = new_app();
    assert!(!a.needs_repaint(false));
    assert!(a.needs_repaint(true));
    a.stage = Stage::Recording { theme: "T".to_string(), prompt: "P".to_string() };
    assert!(a.needs_repaint(false));
    assert!(before_followups().needs_repaint(false));
}

// ---------------------------------------------------------------- the top bar

#[test]
fn the_persona_is_switched_between_sessions() {
    let mut a = app_with(vec![session("")], Ok(()));
    a.stage = Stage::History { selected: Some(0) };
    let r = a.top_bar(Some(1), false, false);
    assert!(matches!(r[..], [Action::SavePersonas]));
    assert_eq!(a.persona_store.active, 1);
    assert!(matches!(a.stage, Stage::History { selected: None }));
    assert!(a.top_bar(Some(1), false, false).is_empty());
    assert!(a.top_bar(Some(3), false, false).is_empty());
    a.top_bar(None, true, false);
    assert!(matches!(a.stage, Stage::Personas));
    a.top_bar(None, true, true);
    assert!(matches!(a.stage, Stage::Debug { test_recording: false, test_result: None }));
}

#[test]
fn the_persona_is_locked_during_a_session() {
    let mut a = before_followups();
    assert!(a.top_bar(Some(1), true, true).is_empty());
    assert_eq!(a.persona_store.active, 0);
    assert!(matches!(a.stage, Stage::RecordingFollowup { .. }));
}

#[test]
fn leaving_a_test_drops_its_recording() {
    let mut a = new_app();
    a.stage = Stage::Debug { test_recording: true, test_result: None };
    let r = a.top_bar(Some(2), true, false);
    assert!(matches!(r[..], [Action::SavePersonas, Action::DropRecording]));
    a.stage = Stage::Debug { test_recording: true, test_result: None };
    assert!(a.top_bar(None, false, false).is_empty());
    assert!(a.stage.is_recording());
}

// ---------------------------------------------------------------- past sessions

#[test]
fn a_past_session_is_selected() {
    let mut a = app_with(vec![session(""), session("B"), session("")], Ok(()));
    a.stage = Stage::History { selected: None };
    assert_eq!(a.shown_session(), Some(2));
    a.past_sessions(false, false, Some(0));
    assert_eq!(a.shown_session(), Some(0));
    a.past_sessions(false, false, Some(1));
    assert!(matches!(a.stage, Stage::History { selected: Some(0) }));
    a.stage = Stage::History { selected: Some(1) };
    assert_eq!(a.shown_session(), Some(2));
    a.past_sessions(false, false, None);
    assert!(matches!(a.stage, Stage::History { selected: None }));
    a.past_sessions(true, true, None);
    assert!(matches!(a.stage, Stage::Trends));
    a.trends(true, true);
    assert!(matches!(a.stage, Stage::History { selected: None }));
    a.past_sessions(true, false, None);
    assert!(matches!(a.stage, Stage::Welcome));
    assert_eq!(a.shown_session(), None);
}

#[test]
fn without_past_sessions_none_is_shown() {
    let mut a = new_app();
    a.stage = Stage::History { selected: Some(4) };
    assert_eq!(a.shown_session(), None);
    a.past_sessions(false, false, Some(0));
    assert!(matches!(a.stage, Stage::History { selected: Some(4) }));
    a.stage = Stage::Trends;
    a.trends(false, false);
    assert!(matches!(a.stage, Stage::Trends));
    a.trends(true, false);
    assert!(matches!(a.stage, Stage::Welcome));
}

// ---------------------------------------------------------------- personas

fn in_personas(sessions: Vec<Session>) -> App {
    let mut a = app_with(sessions, Ok(()));
    a.stage = Stage::Personas;
    a
}

#[test]
fn a_history_is_cleared_in_two_steps() {
    let mut a = in_personas(vec![session("B"), session("")]);
    assert!(!a.is_offered(&PersonaPress::ClearHistory(2)));
    assert!(!a.is_offered(&PersonaPress::ConfirmClear(1)));
    assert!(a.personas_list(PersonaPress::ConfirmClear(1)).is_empty());
    assert!(a.personas_list(PersonaPress::ClearHistory(1)).is_empty());
    assert_eq!(a.confirm_clear_idx, Some(1));
    a.personas_list(PersonaPress::CancelClear(1));
    assert_eq!(a.confirm_clear_idx, None);
    a.personas_list(PersonaPress::ClearHistory(1));
    let r = a.personas_list(PersonaPress::ConfirmClear(1));
    assert!(matches!(&r[..], [Action::ClearHistory(name)] if name == "B"));
    assert_eq!(a.confirm_clear_idx, None);
    a.reload_sessions(vec![session("")]);
    assert_eq!(a.exercise_count(1), 0);
    assert_eq!(a.exercise_count(0), 1);
}

#[test]
fn personas_are_listed_and_changed() {
    let mut a = in_personas(vec![]);
    let r = a.personas_list(PersonaPress::SetActive(2));
    assert!(matches!(r[..], [Action::SavePersonas]));
    assert_eq!(a.persona_store.active, 2);
    assert!(!a.is_offered(&PersonaPress::SetActive(2)));
    assert!(!a.is_offered(&PersonaPress::SetActive(3)));
    let r = a.personas_list(PersonaPress::Delete(0));
    assert!(matches!(r[..], [Action::SavePersonas]));
    assert_eq!(a.persona_store.active().name, "C");
    a.personas_list(PersonaPress::Delete(0));
    assert_eq!(a.persona_store.personas.len(), 1);
    assert!(!a.is_offered(&PersonaPress::Delete(0)));
    assert!(a.personas_list(PersonaPress::Delete(0)).is_empty());
    assert_eq!(a.persona_store.personas.len(), 1);
    a.personas_list(PersonaPress::Back);
    assert!(matches!(a.stage, Stage::Welcome));
    assert!(!a.is_offered(&PersonaPress::Back));
}

#[test]
fn a_persona_is_edited() {
    let mut a = in_personas(vec![]);
    a.personas_list(PersonaPress::Edit(1));
    if let Stage::EditPersona { draft } = &mut a.stage {
        assert_eq!(draft.edit_idx, Some(1));
        draft.name = " Bea ".to_string();
        draft.voice_id = 8;
    } else {
        panic!("no draft");
    }
    assert!(!a.stage.is_stable());
    let r = a.edit_persona(true, false, false, false);
    assert!(r.len() == 1
        && is_speech(&r[0], "Hello! This is a preview of the selected voice.", 8));
    assert!(a.edit_persona(true, false, false, true).is_empty());
    let r = a.edit_persona(false, true, true, false);
    assert!(matches!(r[..], [Action::SavePersonas]));
    assert_eq!(a.persona_store.personas[1].name, "Bea");
    assert_eq!(a.persona_store.active, 0);
    assert!(matches!(a.stage, Stage::Personas));
}

#[test]
fn a_new_persona_becomes_active() {
    let mut a = in_personas(vec![]);
    a.personas_list(PersonaPress::Create);
    assert!(a.edit_persona(false, true, false, false).is_empty());
    assert!(matches!(a.stage, Stage::EditPersona { .. }));
    if let Stage::EditPersona { draft } = &mut a.stage {
        draft.name = "New".to_string();
        draft.topics_text = "x\ny".to_string();
    }
    a.edit_persona(false, true, false, false);
    assert_eq!(a.persona_store.active().name, "New");
    assert_eq!(a.persona_store.active().topics.len(), 2);
    assert_eq!(a.persona_store.personas.len(), 4);
}

#[test]
fn a_new_persona_becomes_active_beside_an_equal_one() {
    let mut a = in_personas(vec![]);
    let twin = speakflow::draft::PersonaDraft::from_persona(None, &persona("B", 5));
    a.stage = Stage::EditPersona { draft: twin };
    a.edit_persona(false, true, false, false);
    assert_eq!(a.persona_store.personas[3].name, a.persona_store.personas[1].name);
    assert_eq!(a.persona_store.active, 3);
}

#[test]
fn an_edit_can_be_cancelled() {
    let mut a = in_personas(vec![]);
    a.personas_list(PersonaPress::Create);
    assert!(a.edit_persona(false, false, true, false).is_empty());
    assert!(matches!(a.stage, Stage::Personas));
    assert_eq!(a.persona_store.personas.len(), 3);
}

// ---------------------------------------------------------------- configuration

#[test]
fn the_microphone_is_tested() {
    let mut a = new_app();
    a.top_bar(None, false, true);
    let r = a.debug(false, true, false, 0);
    assert!(matches!(r[..], [Action::OpenMic]));
    assert!(a.stage.is_recording());
    assert!(a.debug(false, false, false, 10 * SECOND).is_empty());
    assert!(matches!(a.debug(false, false, false, 10 * SECOND + 1)[..], [Action::FinishRecording]));
    assert!(matches!(a.debug(false, false, true, SECOND)[..], [Action::FinishRecording]));
    assert!(matches!(a.recording_finished(3)[..], [Action::Transcribe]));
    assert!(!a.stage.is_recording());
    a.handle_stt_done(result("test"));
    assert!(matches!(&a.stage, Stage::Debug { test_result: Some(Ok(t)), .. } if t.text == "test"));
    a.handle_stt_error("bad".to_string());
    assert!(matches!(&a.stage, Stage::Debug { test_result: Some(Err(e)), .. } if e == "bad"));
    assert!(a.debug(true, false, false, 0).is_empty());
    assert!(matches!(a.stage, Stage::Welcome));
}

#[test]
fn a_test_without_a_microphone_says_so() {
    let mut a = new_app();
    a.top_bar(None, false, true);
    a.debug(false, true, false, 0);
    assert_eq!(a.mic_failed("no device"), Some("Mic error: no device".to_string()));
    assert!(matches!(a.stage, Stage::Debug { test_recording: false, .. }));
    a.debug(false, true, false, 0);
    assert!(matches!(a.debug(true, false, false, 0)[..], [Action::DropRecording]));
}
