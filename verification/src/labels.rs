//! The texts on the screens that depend on what there is to show.

use vstd::prelude::*;

use crate::analysis::DeliveryMetrics;
use crate::personas;
use crate::personas::Persona;
use crate::text;

verus! {

/// What a noun ends in after a number.
pub open spec fn plural(n: int) -> Seq<char> {
    if n == 1 {
        ""@
    } else {
        "s"@
    }
}

/// A number and a noun.
pub open spec fn counted(n: int, noun: Seq<char>) -> Seq<char> {
    text::decimal(n as nat) + " "@ + noun + plural(n)
}

fn push_counted(out: &mut String, n: usize, noun: &str)
    ensures
        final(out)@ == old(out)@ + counted(n as int, noun@),
{
    text::push_number(out, n as u128);
    out.append(" ");
    out.append(noun);
    out.append(
        if n == 1 {
            ""
        } else {
            "s"
        },
    );
    assert(out@ == old(out)@ + counted(n as int, noun@));
}

// ---------------------------------------------------------------- start

/// The line on the start screen about the active persona.
pub fn persona_line(persona: &Persona, session_count: usize) -> (r: String)
    ensures
        r@ == "Persona: "@ + persona.name@ + " · "@ + counted(
            persona.topics@.len() as int,
            "topic"@,
        ) + " · "@ + counted(session_count as int, "past session"@),
{
    let mut out = String::from_str("Persona: ");
    out.append(persona.name.as_str());
    out.append(" · ");
    push_counted(&mut out, persona.topics.len(), "topic");
    out.append(" · ");
    push_counted(&mut out, session_count, "past session");
    out
}

/// The button that leads to the past sessions.
pub fn history_label(session_count: usize) -> (r: String)
    ensures
        session_count == 0 ==> r@ == "📜  Past exercises"@,
        session_count > 0 ==> r@ == "📜  Past exercises"@ + " ("@ + text::decimal(
            session_count as nat,
        ) + ")"@,
{
    let mut out = String::from_str("📜  Past exercises");
    if session_count > 0 {
        out.append(" (");
        text::push_number(&mut out, session_count as u128);
        out.append(")");
    }
    out
}

// ---------------------------------------------------------------- a session

/// The line above a follow-up: which one it is, counted from one.
pub fn followup_line(current: usize, followups: usize) -> (r: String)
    ensures
        r@ == "Follow-up "@ + text::decimal((current + 1) as nat) + " of "@ + text::decimal(
            followups as nat,
        ),
{
    let mut out = String::from_str("Follow-up ");
    text::push_number(&mut out, current as u128 + 1);
    out.append(" of ");
    text::push_number(&mut out, followups as u128);
    out
}

/// What is shown while the answer to a follow-up is transcribed.
pub fn transcribing_line(current: usize, followups: usize) -> (r: String)
    ensures
        r@ == "Transcribing follow-up "@ + text::decimal((current + 1) as nat) + "/"@
            + text::decimal(followups as nat) + "…"@,
{
    let mut out = String::from_str("Transcribing follow-up ");
    text::push_number(&mut out, current as u128 + 1);
    out.append("/");
    text::push_number(&mut out, followups as u128);
    out.append("…");
    out
}

/// A follow-up with its number, counted from one.
pub open spec fn question_text(i: int, question: Seq<char>) -> Seq<char> {
    "Q"@ + text::decimal((i + 1) as nat) + ": "@ + question
}

/// The follow-ups of a session, numbered, each with its answer where there is one.
pub fn questions_and_answers(followups: &Vec<String>, answers: &Vec<String>) -> (r: Vec<
    (String, Option<String>),
>)
    ensures
        r@.len() == followups@.len(),
        forall|i: int|
            0 <= i < r@.len() ==> (#[trigger] r@[i]).0@ == question_text(i, followups@[i]@),
        forall|i: int|
            0 <= i < r@.len() ==> match (#[trigger] r@[i]).1 {
                Some(a) => i < answers@.len() && a@ == answers@[i]@,
                None => i >= answers@.len(),
            },
{
    let mut out: Vec<(String, Option<String>)> = Vec::new();
    let mut i: usize = 0;
    while i < followups.len()
        invariant
            i <= followups.len(),
            out@.len() == i,
            forall|k: int|
                0 <= k < i ==> (#[trigger] out@[k]).0@ == question_text(k, followups@[k]@),
            forall|k: int|
                0 <= k < i ==> match (#[trigger] out@[k]).1 {
                    Some(a) => k < answers@.len() && a@ == answers@[k]@,
                    None => k >= answers@.len(),
                },
        decreases followups.len() - i,
    {
        let mut q = String::from_str("Q");
        text::push_number(&mut q, i as u128 + 1);
        q.append(": ");
        q.append(followups[i].as_str());
        let answer = if i < answers.len() {
            Some(answers[i].clone())
        } else {
            None
        };
        out.push((q, answer));
        i += 1;
    }
    out
}

/// The measurements of an answer, each with its name.
pub open spec fn metric_texts(m: DeliveryMetrics) -> Seq<(Seq<char>, Seq<char>)> {
    seq![
        ("Duration"@, m.duration_secs.shown@ + "s"@),
        ("Words"@, text::decimal(m.words as nat)),
        ("Pace"@, m.words_per_minute.shown@ + " wpm"@),
        ("Long pauses"@, text::decimal(m.long_pause_count as nat)),
        ("Pause time"@, m.total_pause_secs.shown@ + "s"@),
        ("Energy CV"@, m.energy_cv.shown@),
        ("Fillers"@, text::decimal(m.filler_count as nat)),
    ]
}

fn with_unit(shown: &String, unit: &str) -> (r: String)
    ensures
        r@ == shown@ + unit@,
{
    let mut out = shown.clone();
    out.append(unit);
    out
}

/// The measurements of an answer, each with its name.
pub fn metric_chips(m: &DeliveryMetrics) -> (r: Vec<(&'static str, String)>)
    ensures
        r@.len() == metric_texts(*m).len(),
        forall|i: int|
            0 <= i < r@.len() ==> (#[trigger] r@[i]).0@ == metric_texts(*m)[i].0 && r@[i].1@
                == metric_texts(*m)[i].1,
{
    let mut out: Vec<(&'static str, String)> = Vec::new();
    out.push(("Duration", with_unit(&m.duration_secs.shown, "s")));
    out.push(("Words", text::number(m.words as u128)));
    out.push(("Pace", with_unit(&m.words_per_minute.shown, " wpm")));
    out.push(("Long pauses", text::number(m.long_pause_count as u128)));
    out.push(("Pause time", with_unit(&m.total_pause_secs.shown, "s")));
    out.push(("Energy CV", m.energy_cv.shown.clone()));
    out.push(("Fillers", text::number(m.filler_count as u128)));
    out
}

// ---------------------------------------------------------------- past sessions

/// The line above the past sessions of a persona, or above their charts.
pub fn sessions_line(name: &str, session_count: usize, plotted: bool) -> (r: String)
    ensures
        r@ == name@ + " · "@ + counted(session_count as int, "session"@) + if plotted {
            " plotted"@
        } else {
            ""@
        },
{
    let mut out = String::from_str(name);
    out.append(" · ");
    push_counted(&mut out, session_count, "session");
    out.append(
        if plotted {
            " plotted"
        } else {
            ""
        },
    );
    out
}

/// What is shown where a persona has no past sessions.
pub fn no_sessions_line(name: &str, plotted: bool) -> (r: String)
    ensures
        r@ == (if plotted {
            "Nothing to chart for "@
        } else {
            "No past exercises for "@
        }) + name@ + " yet."@,
{
    let mut out = String::from_str(
        if plotted {
            "Nothing to chart for "
        } else {
            "No past exercises for "
        },
    );
    out.append(name);
    out.append(" yet.");
    out
}

/// A past session in the list: its theme, and below it when it ended.
pub fn session_label(theme: &str, timestamp: &str) -> (r: String)
    ensures
        r@ == (if theme@.len() == 0 {
            "(untitled)"@
        } else {
            theme@
        }) + "\n"@ + timestamp@,
{
    let mut out = String::from_str(
        if theme.is_empty() {
            "(untitled)"
        } else {
            theme
        },
    );
    out.append("\n");
    out.append(timestamp);
    out
}

/// The line about the last session.
pub fn latest_line(timestamp: &str, m: &DeliveryMetrics) -> (r: String)
    ensures
        r@ == "Latest ("@ + timestamp@ + "): "@ + m.words_per_minute.shown@ + " wpm · "@
            + text::decimal(m.filler_count as nat) + " fillers · "@ + text::decimal(
            m.long_pause_count as nat,
        ) + " long pauses · CV "@ + m.energy_cv.shown@,
{
    let mut out = String::from_str("Latest (");
    out.append(timestamp);
    out.append("): ");
    out.append(m.words_per_minute.shown.as_str());
    out.append(" wpm · ");
    text::push_number(&mut out, m.filler_count as u128);
    out.append(" fillers · ");
    text::push_number(&mut out, m.long_pause_count as u128);
    out.append(" long pauses · CV ");
    out.append(m.energy_cv.shown.as_str());
    out
}

// ---------------------------------------------------------------- personas

/// The name of a persona in the list, marked where it is the active one.
pub fn persona_label(name: &str, is_active: bool) -> (r: String)
    ensures
        r@ == (if is_active {
            "●  "@
        } else {
            "○  "@
        }) + name@,
{
    let mut out = String::from_str(
        if is_active {
            "●  "
        } else {
            "○  "
        },
    );
    out.append(name);
    out
}

/// What a persona in the list consists of.
pub fn persona_details(persona: &Persona, exercise_count: usize) -> (r: String)
    ensures
        r@ == counted(persona.topics@.len() as int, "topic"@) + " · "@ + (if text::trimmed(
            persona.background@,
        ).len() > 0 {
            "background provided"@
        } else {
            "no background"@
        }) + " · "@ + counted(exercise_count as int, "exercise"@),
{
    let mut out = String::new();
    push_counted(&mut out, persona.topics.len(), "topic");
    out.append(" · ");
    out.append(
        if text::is_blank(persona.background.as_str()) {
            "no background"
        } else {
            "background provided"
        },
    );
    out.append(" · ");
    push_counted(&mut out, exercise_count, "exercise");
    assert(Seq::<char>::empty() + counted(persona.topics@.len() as int, "topic"@) == counted(
        persona.topics@.len() as int,
        "topic"@,
    ));
    out
}

/// A voice with its number and its name.
pub fn voice_line(voice_id: u32) -> (r: String)
    ensures
        r@ == text::decimal(voice_id as nat) + " — "@ + personas::voice_name(voice_id as int),
{
    let mut out = text::number(voice_id as u128);
    out.append(" — ");
    out.append(personas::voice_label(voice_id));
    out
}

// ---------------------------------------------------------------- configuration

/// What is shown of the transcript in a test of the microphone.
pub fn test_line(transcript: &str) -> (r: String)
    ensures
        transcript@.len() == 0 ==> r@ == "(Empty transcript text)"@,
        transcript@.len() > 0 ==> r@ == "Cleaned: "@ + transcript@,
{
    if transcript.is_empty() {
        return String::from_str("(Empty transcript text)");
    }
    let mut out = String::from_str("Cleaned: ");
    out.append(transcript);
    out
}

// ---------------------------------------------------------------- laws

/// One of a thing is written without an ending, any other number with one.
pub proof fn law_one_is_no_plural(n: nat, noun: Seq<char>)
    ensures
        counted(1, noun) == "1 "@ + noun,
        n != 1 ==> counted(n as int, noun) == text::decimal(n) + " "@ + noun + "s"@,
{
    reveal_strlit("");
    reveal_strlit(" ");
    reveal_strlit("1 ");
    assert(text::decimal(1) == seq!['1']) by {
        text::law_decimals_grow(0, 1);
    }
    assert(counted(1, noun) == "1 "@ + noun);
}

/// Follow-ups are numbered from one, and the question stands as it is.
pub proof fn law_questions_are_numbered_from_one(i: nat, question: Seq<char>)
    ensures
        question_text(i as int, question) == "Q"@ + (text::decimal(i + 1) + (": "@ + question)),
        question_text(0, question) == "Q1: "@ + question,
{
    reveal_strlit("Q");
    reveal_strlit(": ");
    reveal_strlit("Q1: ");
    assert(text::decimal(1) == seq!['1']) by {
        text::law_decimals_grow(0, 1);
    }
    assert(question_text(0, question) == "Q1: "@ + question);
    assert(question_text(i as int, question) == "Q"@ + (text::decimal(i + 1) + (": "@
        + question)));
}

/// Seven measurements are shown, each under its own name.
pub proof fn law_measurements_are_shown_by_name(m: DeliveryMetrics)
    ensures
        metric_texts(m).len() == 7,
        metric_texts(m).contains(("Duration"@, m.duration_secs.shown@ + "s"@)),
        metric_texts(m).contains(("Words"@, text::decimal(m.words as nat))),
        metric_texts(m).contains(("Pace"@, m.words_per_minute.shown@ + " wpm"@)),
        metric_texts(m).contains(("Long pauses"@, text::decimal(m.long_pause_count as nat))),
        metric_texts(m).contains(("Pause time"@, m.total_pause_secs.shown@ + "s"@)),
        metric_texts(m).contains(("Energy CV"@, m.energy_cv.shown@)),
        metric_texts(m).contains(("Fillers"@, text::decimal(m.filler_count as nat))),
{
    let t = metric_texts(m);
    assert(t[0] == ("Duration"@, m.duration_secs.shown@ + "s"@));
    assert(t[1] == ("Words"@, text::decimal(m.words as nat)));
    assert(t[2] == ("Pace"@, m.words_per_minute.shown@ + " wpm"@));
    assert(t[3] == ("Long pauses"@, text::decimal(m.long_pause_count as nat)));
    assert(t[4] == ("Pause time"@, m.total_pause_secs.shown@ + "s"@));
    assert(t[5] == ("Energy CV"@, m.energy_cv.shown@));
    assert(t[6] == ("Fillers"@, text::decimal(m.filler_count as nat)));
}

} // verus!
