use speakflow::draft::PersonaDraft;
use speakflow::personas;
use speakflow::personas::{Persona, PersonaStore};

fn persona(name: &str) -> Persona {
    Persona {
        name: name.to_string(),
        description: "a coach".to_string(),
        topics: vec!["One".to_string(), "Two".to_string()],
        background: "I write".to_string(),
        voice_id: 3,
    }
}

fn names(store: &PersonaStore) -> Vec<&str> {
    store.personas.iter().map(|p| p.name.as_str()).collect()
}

fn store(list: &[&str], active: usize) -> PersonaStore {
    PersonaStore { active, personas: list.iter().map(|n| persona(n)).collect() }
}

#[test]
fn two_personas_are_built_in() {
    let s = PersonaStore::default();
    assert_eq!(s.active, 0);
    assert_eq!(names(&s), vec!["Engineering Leader", "Social & Banter"]);
    assert_eq!(s.active().name, "Engineering Leader");
    let e = personas::default_engineering_leader();
    assert_eq!(e.topics.len(), 16);
    assert_eq!(e.topics[0], "Engineering leadership");
    assert_eq!(e.topics[15], "Roadmapping under uncertainty");
    assert!(e.description.starts_with("an executive communications coach. Your client is"));
    assert_eq!(e.background, "");
    assert_eq!(e.voice_id, 0);
    let b = personas::default_social_banter();
    assert_eq!(b.topics.len(), 13);
    assert_eq!(b.topics[12], "Bumping into someone you half-know");
    assert!(b.description.ends_with("and conversations with strangers"));
}

#[test]
fn voices_have_names() {
    assert_eq!(personas::voice_label(0), "af");
    assert_eq!(personas::voice_label(10), "bm_lewis");
    assert_eq!(personas::voice_label(11), "unknown");
    assert_eq!(personas::voice_label(u32::MAX), "unknown");
    assert_eq!(personas::KOKORO_VOICES.len(), 11);
}

#[test]
fn stored_personas_are_taken_over() {
    let s = personas::load(Some(store(&["A", "B"], 1)));
    assert_eq!(names(&s), vec!["A", "B"]);
    assert_eq!(s.active, 1);
}

#[test]
fn a_position_past_the_end_gives_way_to_the_first() {
    assert_eq!(personas::load(Some(store(&["A", "B"], 2))).active, 0);
}

#[test]
fn without_personas_the_built_in_ones_are_used() {
    assert_eq!(names(&personas::load(Some(store(&[], 0)))).len(), 2);
    assert_eq!(names(&personas::load(None)), vec!["Engineering Leader", "Social & Banter"]);
}

#[test]
fn the_last_persona_stands_in_past_the_end() {
    assert_eq!(store(&["A", "B"], 5).active().name, "B");
}

#[test]
fn removal_keeps_the_active_persona() {
    let mut s = store(&["A", "B", "C"], 2);
    s.remove(0);
    assert_eq!((names(&s), s.active().name.as_str()), (vec!["B", "C"], "C"));
    let mut s = store(&["A", "B", "C"], 0);
    s.remove(2);
    assert_eq!((names(&s), s.active().name.as_str()), (vec!["A", "B"], "A"));
    let mut s = store(&["A", "B", "C"], 1);
    s.remove(1);
    assert_eq!((names(&s), s.active().name.as_str()), (vec!["A", "C"], "C"));
    let mut s = store(&["A", "B", "C"], 2);
    s.remove(2);
    assert_eq!((names(&s), s.active().name.as_str()), (vec!["A", "B"], "B"));
    let mut s = store(&["A"], 0);
    s.remove(0);
    assert_eq!((s.personas.len(), s.active), (0, 0));
}

#[test]
fn an_edited_persona_keeps_its_place_and_a_new_one_becomes_active() {
    let mut s = store(&["A", "B"], 0);
    s.put(Some(1), persona("X"));
    assert_eq!((names(&s), s.active), (vec!["A", "X"], 0));
    s.put(None, persona("Y"));
    assert_eq!((names(&s), s.active), (vec!["A", "X", "Y"], 2));
    s.set_active(1);
    assert_eq!(s.active().name, "X");
}

#[test]
fn a_topic_is_one_of_the_list() {
    let p = persona("A");
    let mut seen = [false, false];
    for _ in 0..200 {
        match personas::pick_random_topic(&p).as_str() {
            "One" => seen[0] = true,
            "Two" => seen[1] = true,
            other => panic!("{}", other),
        }
    }
    assert_eq!(seen, [true, true]);
}

#[test]
fn without_topics_the_exercise_is_open() {
    let mut p = persona("A");
    p.topics.clear();
    assert_eq!(personas::pick_random_topic(&p), "An open-ended speaking prompt");
    assert_eq!(personas::topic_or_open(None), "An open-ended speaking prompt");
    assert_eq!(personas::topic_or_open(Some(&"T".to_string())), "T");
}

#[test]
fn a_new_draft_is_empty() {
    let d = PersonaDraft::new();
    assert_eq!(d.edit_idx, None);
    assert_eq!((d.name.as_str(), d.topics_text.as_str(), d.voice_id), ("", "", 0));
    assert!(!d.can_save());
}

#[test]
fn a_draft_shows_a_persona() {
    let d = PersonaDraft::from_persona(Some(4), &persona("A"));
    assert_eq!(d.edit_idx, Some(4));
    assert_eq!(d.topics_text, "One\nTwo");
    assert_eq!(d.voice_id, 3);
    assert!(d.can_save());
}

#[test]
fn a_saved_persona_is_tidy() {
    let d = PersonaDraft {
        edit_idx: None,
        name: "  Ann \n".to_string(),
        description: "\ta coach ".to_string(),
        topics_text: " One \r\n\n   \nTwo words\n".to_string(),
        background: "  ".to_string(),
        voice_id: 7,
    };
    let p = d.into_persona();
    assert_eq!(p.name, "Ann");
    assert_eq!(p.description, "a coach");
    assert_eq!(p.topics, vec!["One".to_string(), "Two words".to_string()]);
    assert_eq!(p.background, "");
    assert_eq!(p.voice_id, 7);
}

#[test]
fn editing_nothing_changes_nothing() {
    let before = persona("A");
    let after = PersonaDraft::from_persona(Some(0), &before).into_persona();
    assert_eq!(after.name, before.name);
    assert_eq!(after.description, before.description);
    assert_eq!(after.topics, before.topics);
    assert_eq!(after.background, before.background);
    assert_eq!(after.voice_id, before.voice_id);
}

#[test]
fn a_blank_name_cannot_be_saved() {
    let mut d = PersonaDraft::from_persona(None, &persona("A"));
    d.name = " \t ".to_string();
    assert!(!d.can_save());
}
