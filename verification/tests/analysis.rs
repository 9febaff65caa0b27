use speakflow::analysis;
use speakflow::analysis::{DeliveryMetrics, Measure};

fn bits(levels: &[f32]) -> Vec<u32> {
    levels.iter().map(|l| l.to_bits()).collect()
}

fn measure(value: f32, shown: &str) -> Measure {
    Measure { bits: value.to_bits(), shown: shown.to_string() }
}

fn metrics(notes: Vec<String>) -> DeliveryMetrics {
    DeliveryMetrics {
        duration_secs: measure(61.25, "61.2"),
        words: 150,
        words_per_minute: measure(147.0, "147"),
        speech_ratio: measure(0.8, "0.80"),
        total_pause_secs: measure(4.4, "4.4"),
        long_pause_count: 3,
        energy_cv: measure(0.5, "0.50"),
        filler_count: 2,
        filler_examples: notes,
    }
}

#[test]
fn floor_and_peak_are_a_fifth_and_four_fifths_up() {
    assert_eq!(analysis::floor_and_peak(&[]), None);
    assert_eq!(analysis::floor_and_peak(&[7]), Some((7, 7)));
    let levels = bits(&[0.9, 0.1, 0.5, 0.3, 0.7, 0.0, 0.2, 0.8, 0.4, 0.6]);
    let (floor, peak) = analysis::floor_and_peak(&levels).unwrap();
    assert_eq!(f32::from_bits(floor), 0.2);
    assert_eq!(f32::from_bits(peak), 0.8);
}

#[test]
fn speech_is_louder_than_the_threshold() {
    let levels = bits(&[0.1, 0.3, 0.2, 0.0]);
    let speech = analysis::speech_frames(&levels, 0.2f32.to_bits());
    assert_eq!(speech, vec![false, true, false, false]);
}

fn runs(parts: &[(bool, usize)]) -> Vec<bool> {
    let mut out = Vec::new();
    for (speech, n) in parts {
        for _ in 0..*n {
            out.push(*speech);
        }
    }
    out
}

#[test]
fn silence_between_speech_is_a_pause() {
    let p = analysis::find_pauses(&runs(&[(true, 20), (false, 15), (true, 20)]));
    assert_eq!((p.frames, p.speech_frames, p.pause_frames, p.long_pause_count), (55, 40, 15, 0));
    let p = analysis::find_pauses(&runs(&[(true, 5), (false, 17), (true, 5)]));
    assert_eq!((p.frames, p.speech_frames, p.pause_frames, p.long_pause_count), (27, 10, 17, 0));
    let p = analysis::find_pauses(&runs(&[(true, 5), (false, 18), (true, 5)]));
    assert_eq!((p.frames, p.speech_frames, p.pause_frames, p.long_pause_count), (28, 10, 18, 1));
    let p = analysis::find_pauses(&runs(&[
        (true, 1),
        (false, 20),
        (true, 1),
        (false, 3),
        (true, 1),
        (false, 30),
        (true, 1),
    ]));
    assert_eq!((p.pause_frames, p.long_pause_count), (53, 2));
    let p = analysis::find_pauses(&[]);
    assert_eq!((p.frames, p.speech_frames, p.pause_frames, p.long_pause_count), (0, 0, 0, 0));
}

#[test]
fn a_short_gap_counts_in_the_total_and_not_as_a_long_pause() {
    let mut levels = vec![0.5f32.to_bits(); 20];
    levels.extend(vec![0.0f32.to_bits(); 15]);
    levels.extend(vec![0.5f32.to_bits(); 20]);
    let c = analysis::analyze(&levels, 0.1501f32.to_bits(), "");
    assert_eq!((c.pauses.pause_frames, c.pauses.long_pause_count), (15, 0));
}

#[test]
fn outer_silence_is_no_pause() {
    let inner = runs(&[(true, 3), (false, 25), (true, 4)]);
    let mut outer = runs(&[(false, 100)]);
    outer.extend(&inner);
    outer.extend(runs(&[(false, 200)]));
    let a = analysis::find_pauses(&inner);
    let b = analysis::find_pauses(&outer);
    assert_eq!(a.pause_frames, b.pause_frames);
    assert_eq!(a.long_pause_count, b.long_pause_count);
    assert_eq!(a.speech_frames, b.speech_frames);
    assert!(a.speech_frames + a.pause_frames <= a.frames);
    assert!(a.long_pause_count * analysis::LONG_PAUSE_FRAMES <= a.pause_frames);
}

#[test]
fn words_count_where_they_stand_alone() {
    assert_eq!(analysis::count_word_occurrences("um, um. umm um", "um"), 3);
    assert_eq!(analysis::count_word_occurrences("likely like alike", "like"), 1);
    assert_eq!(analysis::count_word_occurrences("you know, you knowing", "you know"), 1);
    assert_eq!(analysis::count_word_occurrences("", "um"), 0);
    assert_eq!(analysis::count_word_occurrences("um", ""), 0);
    assert_eq!(analysis::count_word_occurrences("u", "um"), 0);
    assert_eq!(analysis::count_word_occurrences("a a a", "a a"), 1);
    assert_eq!(analysis::count_word_occurrences("éum um", "um"), 2);
}

#[test]
fn fillers_count_in_any_case() {
    let (count, notes) = analysis::count_fillers("Um, so UH I mean, um basically right?");
    assert_eq!(count, 6);
    assert_eq!(notes, vec![
        "um (×2)".to_string(),
        "uh (×1)".to_string(),
        "basically (×1)".to_string(),
        "i mean (×1)".to_string(),
        "right (×1)".to_string(),
    ]);
}

#[test]
fn a_wish_is_no_filler() {
    assert_eq!(analysis::count_fillers("I would like to begin"), (0, vec![]));
    assert_eq!(
        analysis::count_fillers("I would LIKE that, like, a lot"),
        (1, vec!["like (×1)".to_string()])
    );
}

#[test]
fn no_filler_means_no_note() {
    assert_eq!(analysis::count_fillers("We shipped the migration on Tuesday."), (0, vec![]));
}

#[test]
fn lower_case_text_is_searched_as_it_is() {
    assert_eq!(analysis::count_lowercase_fillers("um Um"), (1, vec!["um (×1)".to_string()]));
}

#[test]
fn an_answer_is_counted() {
    let mut levels = vec![9u32; 4];
    levels.extend(vec![1u32; 18]);
    levels.push(9);
    let c = analysis::analyze(&levels, 5, "Well, um, we did it");
    assert_eq!(c.pauses.frames, 23);
    assert_eq!(c.pauses.speech_frames, 5);
    assert_eq!(c.pauses.pause_frames, 18);
    assert_eq!(c.pauses.long_pause_count, 1);
    assert_eq!(c.words, 5);
    assert_eq!(c.filler_count, 1);
    assert_eq!(c.filler_examples, vec!["um (×1)".to_string()]);
}

#[test]
fn metrics_are_shown_to_the_model() {
    let m = metrics(vec!["um (×1)".to_string(), "like (×1)".to_string()]);
    assert_eq!(
        m.for_prompt(),
        "duration_secs: 61.2\nwords: 150\nwords_per_minute: 147\nspeech_ratio: 0.80\n\
         total_mid_utterance_pause_secs: 4.4\nlong_pauses_over_350ms: 3\n\
         energy_coefficient_of_variation: 0.50\nfiller_count: 2\n\
         filler_breakdown: um (×1), like (×1)"
    );
    assert!(metrics(vec![]).for_prompt().ends_with("filler_breakdown: none"));
}

#[test]
fn metrics_are_copied_whole() {
    let m = metrics(vec!["um (×1)".to_string()]);
    let c = m.clone();
    assert_eq!(c.for_prompt(), m.for_prompt());
    assert_eq!(c.duration_secs.bits, 61.25f32.to_bits());
}

#[test]
fn fillers_of_two_sentences_add_up() {
    for (a, b) in [
        ("Um, I mean, like", "like I would like that"),
        ("", "uh"),
        ("you", "know. You know"),
        ("i would", "like it. Like"),
        ("right", ""),
    ] {
        let both = format!("{}. {}", a, b);
        assert_eq!(
            analysis::count_fillers(&both).0,
            analysis::count_fillers(a).0 + analysis::count_fillers(b).0
        );
    }
    assert_eq!(analysis::count_fillers("i would. like it").0, 1);
}
