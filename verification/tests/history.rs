use speakflow::analysis::{DeliveryMetrics, Measure};
use speakflow::history;
use speakflow::history::Session;
use speakflow::labels;
use speakflow::personas::Persona;
use speakflow::rows;

fn measure(shown: &str) -> Measure {
    Measure { bits: 0, shown: shown.to_string() }
}

fn metrics() -> DeliveryMetrics {
    DeliveryMetrics {
        duration_secs: measure("61.2"),
        words: 150,
        words_per_minute: measure("147"),
        speech_ratio: measure("0.80"),
        total_pause_secs: measure("4.4"),
        long_pause_count: 3,
        energy_cv: measure("0.50"),
        filler_count: 2,
        filler_examples: vec![],
    }
}

fn session(timestamp: i64, theme: &str, persona_name: &str) -> Session {
    Session {
        timestamp,
        theme: theme.to_string(),
        prompt: "p".to_string(),
        transcript: "t".to_string(),
        followups: vec![],
        followup_answers: vec![],
        metrics: metrics(),
        feedback: "f".to_string(),
        persona_name: persona_name.to_string(),
    }
}

fn themes(sessions: &[Session]) -> Vec<&str> {
    sessions.iter().map(|s| s.theme.as_str()).collect()
}

fn persona(name: &str, topics: usize, background: &str) -> Persona {
    Persona {
        name: name.to_string(),
        description: String::new(),
        topics: vec!["t".to_string(); topics],
        background: background.to_string(),
        voice_id: 0,
    }
}

#[test]
fn a_session_ends_now() {
    let s = Session::now(
        Some(1_700_000_000),
        "T".to_string(),
        "P".to_string(),
        "said".to_string(),
        vec!["q".to_string()],
        vec!["a".to_string()],
        metrics(),
        "good".to_string(),
        "A".to_string(),
    );
    assert_eq!(s.timestamp, 1_700_000_000);
    assert_eq!(s.formatted_timestamp(), "2023-11-14 22:13 UTC");
    assert_eq!((s.theme.as_str(), s.feedback.as_str()), ("T", "good"));
    assert_eq!(s.followup_answers, vec!["a".to_string()]);
}

#[test]
fn a_clock_before_its_start_reads_zero() {
    let s = Session::now(
        None,
        String::new(),
        String::new(),
        String::new(),
        vec![],
        vec![],
        metrics(),
        String::new(),
        String::new(),
    );
    assert_eq!(s.timestamp, 0);
}

#[test]
fn sessions_are_put_in_order() {
    let rows = vec![
        Some(session(30, "c", "")),
        None,
        Some(session(10, "a1", "")),
        Some(session(20, "b", "")),
        Some(session(10, "a2", "")),
        Some(session(-5, "z", "")),
    ];
    assert_eq!(themes(&history::load_all(rows)), vec!["z", "a1", "a2", "b", "c"]);
    assert!(history::load_all(vec![None]).is_empty());
}

#[test]
fn order_does_not_depend_on_the_rows() {
    let a = history::load_all(vec![Some(session(2, "b", "")), Some(session(1, "a", ""))]);
    let b = history::load_all(vec![Some(session(1, "a", "")), Some(session(2, "b", ""))]);
    assert_eq!(themes(&a), themes(&b));
}

/// A row holds a time and a theme.
fn parse(row: &str) -> Option<Session> {
    let (time, theme) = row.split_once(' ')?;
    Some(session(time.parse().ok()?, theme, ""))
}

fn logged(log: &[u8]) -> Vec<Session> {
    history::load_all(rows::rows_in(log).iter().map(|r| parse(r)).collect())
}

#[test]
fn an_appended_session_comes_back_in_its_place() {
    let mut log = b"30 c\nno row\n10 a\n20 b\n".to_vec();
    assert_eq!(themes(&logged(&log)), vec!["a", "b", "c"]);
    log.extend_from_slice(rows::row_line("20 new").as_bytes());
    assert_eq!(themes(&logged(&log)), vec!["a", "b", "new", "c"]);
    log.extend_from_slice(rows::row_line("40 last").as_bytes());
    assert_eq!(themes(&logged(&log)), vec!["a", "b", "new", "c", "last"]);
}

#[test]
fn unnamed_sessions_belong_to_the_engineering_coach() {
    assert!(session(1, "x", "").belongs_to("Engineering Leader"));
    assert!(!session(1, "x", "").belongs_to(""));
    assert!(session(1, "x", "A").belongs_to("A"));
    assert!(!session(1, "x", "A").belongs_to("Engineering Leader"));
}

#[test]
fn clearing_is_exact() {
    let all = vec![
        session(1, "a", "A"),
        session(2, "b", ""),
        session(3, "c", "B"),
        session(4, "d", "Engineering Leader"),
    ];
    let left = history::delete_for_persona(all.clone(), "Engineering Leader");
    assert_eq!(themes(&left), vec!["a", "c"]);
    assert_eq!(history::count_for_persona(&left, "Engineering Leader"), 0);
    assert_eq!(history::count_for_persona(&left, "A"), history::count_for_persona(&all, "A"));
    assert_eq!(themes(&history::delete_for_persona(all, "B")), vec!["a", "b", "d"]);
}

#[test]
fn naming_keeps_owners() {
    let all = vec![session(1, "a", "A"), session(2, "b", "")];
    assert_eq!(history::count_for_persona(&all, "Engineering Leader"), 1);
    assert!(history::sessions_naming(&all, "Engineering Leader").is_empty());
    let named = history::name_owners(all);
    assert_eq!(named[0].persona_name, "A");
    assert_eq!(named[1].persona_name, "Engineering Leader");
    assert_eq!(history::sessions_naming(&named, "Engineering Leader"), vec![1]);
    assert_eq!(history::sessions_naming(&named, "A"), vec![0]);
    assert_eq!(history::count_for_persona(&named, "Engineering Leader"), 1);
}

#[test]
fn the_place_of_the_log_is_shown() {
    assert_eq!(history::history_path_display(Some("/x/history.jsonl".to_string())), "/x/history.jsonl");
    assert_eq!(history::history_path_display(None), "<unavailable>");
}

// ---------------------------------------------------------------- texts

#[test]
fn the_start_screen_counts() {
    assert_eq!(
        labels::persona_line(&persona("A", 1, ""), 1),
        "Persona: A · 1 topic · 1 past session"
    );
    assert_eq!(
        labels::persona_line(&persona("A", 0, ""), 12),
        "Persona: A · 0 topics · 12 past sessions"
    );
    assert_eq!(labels::history_label(0), "📜  Past exercises");
    assert_eq!(labels::history_label(3), "📜  Past exercises (3)");
}

#[test]
fn followups_are_numbered_from_one() {
    assert_eq!(labels::followup_line(0, 3), "Follow-up 1 of 3");
    assert_eq!(labels::transcribing_line(2, 3), "Transcribing follow-up 3/3…");
    let pairs = labels::questions_and_answers(
        &vec!["Why?".to_string(), "How?".to_string()],
        &vec!["Because".to_string()],
    );
    assert_eq!(pairs, vec![
        ("Q1: Why?".to_string(), Some("Because".to_string())),
        ("Q2: How?".to_string(), None),
    ]);
}

#[test]
fn measurements_are_named() {
    let chips = labels::metric_chips(&metrics());
    let expected = [
        ("Duration", "61.2s"),
        ("Words", "150"),
        ("Pace", "147 wpm"),
        ("Long pauses", "3"),
        ("Pause time", "4.4s"),
        ("Energy CV", "0.50"),
        ("Fillers", "2"),
    ];
    assert_eq!(chips.len(), expected.len());
    for (chip, (name, value)) in chips.iter().zip(expected) {
        assert_eq!((chip.0, chip.1.as_str()), (name, value));
    }
}

#[test]
fn past_sessions_are_labelled() {
    assert_eq!(labels::sessions_line("A", 1, false), "A · 1 session");
    assert_eq!(labels::sessions_line("A", 2, true), "A · 2 sessions plotted");
    assert_eq!(labels::no_sessions_line("A", false), "No past exercises for A yet.");
    assert_eq!(labels::no_sessions_line("A", true), "Nothing to chart for A yet.");
    assert_eq!(labels::session_label("", "now"), "(untitled)\nnow");
    assert_eq!(labels::session_label("T", "now"), "T\nnow");
    assert_eq!(
        labels::latest_line("now", &metrics()),
        "Latest (now): 147 wpm · 2 fillers · 3 long pauses · CV 0.50"
    );
}

#[test]
fn personas_are_labelled() {
    assert_eq!(labels::persona_label("A", true), "●  A");
    assert_eq!(labels::persona_label("A", false), "○  A");
    assert_eq!(
        labels::persona_details(&persona("A", 2, " x "), 1),
        "2 topics · background provided · 1 exercise"
    );
    assert_eq!(
        labels::persona_details(&persona("A", 1, " \n"), 0),
        "1 topic · no background · 0 exercises"
    );
    assert_eq!(labels::voice_line(1), "1 — af_bella");
    assert_eq!(labels::voice_line(99), "99 — unknown");
}

#[test]
fn a_test_transcript_is_shown() {
    assert_eq!(labels::test_line(""), "(Empty transcript text)");
    assert_eq!(labels::test_line("hi"), "Cleaned: hi");
}
