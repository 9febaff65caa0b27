use speakflow::analysis::{DeliveryMetrics, Measure};
use speakflow::coach;
use speakflow::personas::Persona;

fn persona(background: &str) -> Persona {
    Persona {
        name: "A".to_string(),
        description: "  a kind coach \n".to_string(),
        topics: vec!["One".to_string()],
        background: background.to_string(),
        voice_id: 0,
    }
}

fn measure(shown: &str) -> Measure {
    Measure { bits: 0, shown: shown.to_string() }
}

#[test]
fn the_system_prompt_opens_with_the_description() {
    let s = coach::coach_system(&persona(""));
    assert!(s.starts_with("You are a kind coach."), "{}", s);
    assert!(!s.contains("I write"));
    let s = coach::coach_system(&persona("  I write \n"));
    assert!(s.ends_with("I write"), "{}", s);
}

#[test]
fn an_exercise_is_asked_for() {
    let p = persona("");
    let m = coach::theme_messages(&p, "Hiring");
    assert_eq!(m.len(), 2);
    assert_eq!(m[0].role, "system");
    assert_eq!(m[0].content, coach::coach_system(&p));
    assert_eq!(m[1].role, "user");
    assert!(m[1].content.contains("Hiring"));
    assert!(m[1].content.contains("THEME:"));
    assert!(m[1].content.contains("PROMPT:"));
}

#[test]
fn followups_are_asked_for() {
    let m = coach::followup_messages(&persona(""), "T1", "P1", "my answer");
    assert_eq!(m.len(), 2);
    let q = &m[1].content;
    let (t, p, a) = (q.find("T1").unwrap(), q.find("P1").unwrap(), q.find("my answer").unwrap());
    assert!(t < p && p < a);
}

#[test]
fn feedback_is_asked_for_with_the_metrics() {
    let metrics = DeliveryMetrics {
        duration_secs: measure("61.2"),
        words: 150,
        words_per_minute: measure("147"),
        speech_ratio: measure("0.80"),
        total_pause_secs: measure("4.4"),
        long_pause_count: 3,
        energy_cv: measure("0.50"),
        filler_count: 0,
        filler_examples: vec![],
    };
    let m = coach::feedback_messages(&persona(""), "T1", "P1", "my answer", &metrics);
    assert_eq!(m.len(), 2);
    assert!(m[1].content.contains(&metrics.for_prompt()));
    assert!(m[1].content.contains("my answer"));
}

#[test]
fn a_topic_is_picked_from_the_persona() {
    assert_eq!(coach::pick_topic(&persona("")), "One");
}

#[test]
fn a_proposal_is_read() {
    let (theme, prompt) = coach::parse_theme_response("THEME: Trust\nPROMPT: Tell a story.");
    assert_eq!((theme.as_str(), prompt.as_str()), ("Trust", "Tell a story."));
    let (theme, prompt) =
        coach::parse_theme_response("Sure!\n  Theme:  Trust \nPrompt: Tell\n\n a story.\nNow.");
    assert_eq!((theme.as_str(), prompt.as_str()), ("Trust", "Tell a story. Now."));
}

#[test]
fn a_reply_without_a_prompt_is_the_prompt() {
    let (theme, prompt) = coach::parse_theme_response("  Just talk about it. \n");
    assert_eq!((theme.as_str(), prompt.as_str()), (coach::UNNAMED_THEME, "Just talk about it."));
    let (theme, prompt) = coach::parse_theme_response("THEME: Trust");
    assert_eq!((theme.as_str(), prompt.as_str()), ("Trust", "THEME: Trust"));
}

#[test]
fn numbered_questions_are_read() {
    let q = coach::parse_numbered_questions("Here:\n1. Why?\n 2) How? \n3: When?\n4. Where?");
    assert_eq!(q, vec!["Why?".to_string(), "How?".to_string(), "When?".to_string()]);
    let q = coach::parse_numbered_questions("1-Why?\n2 - How?\n3\t-  When?");
    assert_eq!(q, vec!["Why?".to_string(), "How?".to_string(), "When?".to_string()]);
    let q = coach::parse_numbered_questions("10. Why?");
    assert_eq!(q, vec!["Why?".to_string()]);
}

#[test]
fn other_lines_are_no_questions() {
    assert!(coach::parse_numbered_questions("").is_empty());
    assert!(coach::parse_numbered_questions("Why?\n- How?\n1 When?\n1.\n2.   \n. Where?\n12").is_empty());
}

#[test]
fn only_a_dash_may_stand_apart_from_its_number() {
    for line in ["1 . Why?", "1 ) Why?", "1 : Why?", "1  .Why?"] {
        assert!(coach::parse_numbered_questions(line).is_empty(), "{}", line);
    }
    assert_eq!(coach::parse_numbered_questions("1 -Why?"), vec!["Why?".to_string()]);
}

#[test]
fn followups_of_two_texts_add_up() {
    for (a, b) in [
        ("1. a\n2. b", "1. c\n2. d"),
        ("", "1. c"),
        ("1. a\r", "x"),
        ("1. a\n\n", "2 - b"),
        ("1. a\n2. b\n3. c\n4. d", "1. e"),
    ] {
        let mut expected = coach::parse_numbered_questions(a);
        expected.extend(coach::parse_numbered_questions(b));
        expected.truncate(3);
        assert_eq!(coach::parse_numbered_questions(&format!("{}\n{}", a, b)), expected);
    }
}

#[test]
fn a_proposal_may_write_its_labels_either_way_and_go_on() {
    for theme in ["THEME", "Theme"] {
        for prompt in ["PROMPT", "Prompt"] {
            let raw = format!("{}: Trust\n{}: Tell\na story.\nNow.", theme, prompt);
            let (t, p) = coach::parse_theme_response(&raw);
            assert_eq!((t.as_str(), p.as_str()), ("Trust", "Tell a story. Now."));
        }
    }
}

#[test]
fn at_most_three_questions_are_kept() {
    let q = coach::parse_numbered_questions("1. a\n2. b\n3. c\n4. d\n5. e");
    assert_eq!(q.len(), coach::MAX_FOLLOWUPS);
    assert_eq!(q[2], "c");
}
