//! What the library promises of the functions themselves: what comes back for what goes
//! in, however it is computed.

use vstd::prelude::*;

use crate::analysis;
use crate::analysis::{AnswerCounts, DeliveryMetrics, Pauses};
use crate::calendar;
use crate::coach;
use crate::draft::PersonaDraft;
use crate::history;
use crate::history::Session;
use crate::llm::{ChatChunk, ChatMessage, ChatStream, LlmUpdate, UpdateModel};
use crate::personas::{Persona, PersonaStore};
use crate::rows;
use crate::stt;
use crate::stt::{TranscriptionResult, WhisperDialect};
use crate::text;
use crate::tts;

verus! {

// ---------------------------------------------------------------- texts

/// What trimming hands back is what stands between white space.
pub proof fn law_trimmed_text(s: &str, r: String, lead: Seq<char>, core: Seq<char>, trail: Seq<char>)
    requires
        call_ensures(text::trim_text, (s,), r),
        s@ == lead + core + trail,
        text::all_space(lead),
        text::all_space(trail),
        core.len() > 0 ==> !text::is_space(core[0]) && !text::is_space(core.last()),
    ensures
        r@ == core,
{
    text::law_trimming_is_exact(lead, core, trail);
}

/// The words of two texts with white space between them add up.
pub proof fn law_counted_words(a: &str, b: &str, both: &str, space: char, x: usize, y: usize, z: usize)
    requires
        call_ensures(text::count_words, (a,), x),
        call_ensures(text::count_words, (b,), y),
        call_ensures(text::count_words, (both,), z),
        text::is_space(space),
        both@ == a@.push(space) + b@,
    ensures
        z == x + y,
        (forall|i: int| 0 <= i < a@.len() ==> !text::is_space(#[trigger] a@[i])) ==> x
            == if a@.len() == 0 {
            0int
        } else {
            1int
        },
{
    text::law_words_add_up(a@, space, b@);
    if forall|i: int| 0 <= i < a@.len() ==> !text::is_space(#[trigger] a@[i]) {
        text::law_one_word(a@);
    }
}

/// A text is blank just where it holds white space alone.
pub proof fn law_blank_text(s: &str, r: bool)
    requires
        call_ensures(text::is_blank, (s,), r),
    ensures
        r <==> forall|i: int| 0 <= i < s@.len() ==> text::is_space(#[trigger] s@[i]),
{
    if text::all_space(s@) {
        let none = Seq::<char>::empty();
        text::law_trimming_is_exact(s@, none, none);
        assert(s@ + none + none == s@);
    } else {
        let i = choose|i: int| 0 <= i < s@.len() && !text::is_space(#[trigger] s@[i]);
        text::lemma_trimmed_keeps(s@, i);
    }
}

// ---------------------------------------------------------------- the delivery

/// Silence between two stretches of speech is one pause, wherever the recording begins and
/// ends, and a long one from 350 ms on.
pub proof fn law_pause_between_speech(
    speech: &[bool],
    r: Pauses,
    lead: nat,
    n: nat,
    k: nat,
    m: nat,
    trail: nat,
)
    requires
        call_ensures(analysis::find_pauses, (speech,), r),
        n > 0,
        m > 0,
        speech@ == analysis::silent(lead) + (analysis::spoken(n) + analysis::silent(k)
            + analysis::spoken(m)) + analysis::silent(trail),
    ensures
        r.frames == lead + n + k + m + trail,
        r.speech_frames == n + m,
        r.pause_frames == k,
        r.long_pause_count == if k * 20 >= 350 {
            1int
        } else {
            0int
        },
{
    let inner = analysis::spoken(n) + analysis::silent(k) + analysis::spoken(m);
    analysis::law_silence_between_speech_is_one_pause(n, k, m);
    analysis::law_outer_silence_is_no_pause(inner, lead, trail);
}

/// The pauses of two stretches that share a frame of speech add up.
pub proof fn law_pauses_of_stretches(
    a: &[bool],
    b: &[bool],
    both: &[bool],
    x: Pauses,
    y: Pauses,
    z: Pauses,
)
    requires
        call_ensures(analysis::find_pauses, (a,), x),
        call_ensures(analysis::find_pauses, (b,), y),
        call_ensures(analysis::find_pauses, (both,), z),
        a@.len() > 0,
        b@.len() > 0,
        a@.last(),
        b@[0],
        both@ == a@ + b@.drop_first(),
    ensures
        z.frames + 1 == x.frames + y.frames,
        z.speech_frames + 1 == x.speech_frames + y.speech_frames,
        z.pause_frames == x.pause_frames + y.pause_frames,
        z.long_pause_count == x.long_pause_count + y.long_pause_count,
{
    analysis::law_stretches_add_up(a@, b@);
}

/// A frame is speech just where it is louder than the threshold.
pub proof fn law_loud_frames(levels: &[u32], threshold: u32, r: Vec<bool>, i: int)
    requires
        call_ensures(analysis::speech_frames, (levels, threshold), r),
    ensures
        r@.len() == levels@.len(),
        0 <= i < levels@.len() ==> (r@[i] <==> levels@[i] > threshold),
{
    analysis::law_louder_frames_are_speech(levels@, threshold);
    if 0 <= i < levels@.len() {
        assert(analysis::louder(levels@, threshold)[i] == r@[i]);
    }
}

/// The noise floor parts off a fifth of the levels, and the peak four fifths.
pub proof fn law_floor_and_peak(levels: &[u32], r: Option<(u32, u32)>)
    requires
        call_ensures(analysis::floor_and_peak, (levels,), r),
    ensures
        r is None <==> levels@.len() == 0,
        r matches Some((floor, peak)) ==> {
            let n = levels@.len();
            &&& levels@.contains(floor) && levels@.contains(peak)
            &&& 5 * analysis::below(levels@, floor as int) <= n < 5 * analysis::below(
                levels@,
                floor + 1,
            )
            &&& 5 * analysis::below(levels@, peak as int) <= 4 * n < 5 * analysis::below(
                levels@,
                peak + 1,
            )
        },
{
    if levels@.len() > 0 {
        analysis::law_floor_and_peak_divide_the_levels(levels@);
    }
}

/// A word is counted where it is found when the text is read from the left.
pub proof fn law_counted_occurrences(haystack: &str, needle: &str, r: usize)
    requires
        call_ensures(analysis::count_word_occurrences, (haystack, needle), r),
    ensures
        needle@.len() == 0 ==> r == 0,
        needle@.len() > 0 ==> exists|places: Seq<int>| #[trigger]
            analysis::are_places(
                vstd::utf8::encode_utf8(haystack@),
                vstd::utf8::encode_utf8(needle@),
                0,
                places,
            ) && r == places.len(),
{
    analysis::law_occurrences_are_found(haystack@, needle@);
}

/// All the fillers of a text count together, and none of them but the sixteen.
pub proof fn law_counted_fillers(lower: &str, r: (usize, Vec<String>))
    requires
        call_ensures(analysis::count_lowercase_fillers, (lower,), r),
    ensures
        r.0 + analysis::occurrences(lower@, "would like"@) == analysis::occurrences(lower@, "um"@)
            + analysis::occurrences(lower@, "uh"@) + analysis::occurrences(lower@, "uhm"@)
            + analysis::occurrences(lower@, "erm"@) + analysis::occurrences(lower@, "ah"@)
            + analysis::occurrences(lower@, "er"@) + analysis::occurrences(lower@, "hmm"@)
            + analysis::occurrences(lower@, "like"@) + analysis::occurrences(lower@, "basically"@)
            + analysis::occurrences(lower@, "literally"@) + analysis::occurrences(
            lower@,
            "honestly"@,
        ) + analysis::occurrences(lower@, "you know"@) + analysis::occurrences(lower@, "i mean"@)
            + analysis::occurrences(lower@, "sort of"@) + analysis::occurrences(lower@, "kind of"@)
            + analysis::occurrences(lower@, "right"@),
        r.0 == 0 <==> r.1@.len() == 0,
{
    analysis::law_sixteen_fillers_count(lower@);
    analysis::law_notes_match_count(lower@);
    assert(text::texts(r.1@).len() == r.1@.len());
}

/// The fillers of two sentences in ASCII are those of the one and those of the other,
/// whatever their case.
pub proof fn law_fillers_of_sentences(
    a: &str,
    b: &str,
    both: &str,
    x: (usize, Vec<String>),
    y: (usize, Vec<String>),
    z: (usize, Vec<String>),
)
    requires
        call_ensures(analysis::count_fillers, (a,), x),
        call_ensures(analysis::count_fillers, (b,), y),
        call_ensures(analysis::count_fillers, (both,), z),
        vstd::utf8::is_ascii_chars(a@),
        vstd::utf8::is_ascii_chars(b@),
        both@ == a@ + ". "@ + b@,
    ensures
        z.0 == x.0 + y.0,
{
    reveal_strlit(". ");
    assert(vstd::utf8::is_ascii_chars(both@)) by {
        assert forall|i: int| 0 <= i < both@.len() implies (0 <= #[trigger] both@[i] as nat
            && (both@[i] as nat) < 128) by {
            if i < a@.len() {
                assert(both@[i] == a@[i]);
            } else if i < a@.len() + 2 {
                assert(both@[i] == ". "@[i - a@.len()]);
            } else {
                assert(both@[i] == b@[i - a@.len() - 2]);
            }
        }
    }
    analysis::law_fillers_add_up(a@, b@);
}

/// An answer is analysed as its parts are: its pauses are those of its loud frames, and its
/// words and fillers those of its transcript.
pub proof fn law_analysed_answer(
    levels: &[u32],
    threshold: u32,
    transcript: &str,
    r: AnswerCounts,
    speech: &[bool],
    loud: Vec<bool>,
    pauses: Pauses,
    words: usize,
    fillers: (usize, Vec<String>),
)
    requires
        call_ensures(analysis::analyze, (levels, threshold, transcript), r),
        call_ensures(analysis::speech_frames, (levels, threshold), loud),
        speech@ == loud@,
        call_ensures(analysis::find_pauses, (speech,), pauses),
        call_ensures(text::count_words, (transcript,), words),
        call_ensures(analysis::count_fillers, (transcript,), fillers),
    ensures
        r.pauses.frames == pauses.frames,
        r.pauses.speech_frames == pauses.speech_frames,
        r.pauses.pause_frames == pauses.pause_frames,
        r.pauses.long_pause_count == pauses.long_pause_count,
        r.words == words,
        r.filler_count == fillers.0,
        text::texts(r.filler_examples@) == text::texts(fillers.1@),
{
}

/// The metrics go into a prompt line by line.
pub proof fn law_metrics_in_a_prompt(metrics: &DeliveryMetrics, r: String)
    requires
        call_ensures(DeliveryMetrics::for_prompt, (metrics,), r),
    ensures
        r@ == text::joined(
            seq![
                "duration_secs: "@ + metrics.duration_secs.shown@,
                "words: "@ + text::decimal(metrics.words as nat),
                "words_per_minute: "@ + metrics.words_per_minute.shown@,
                "speech_ratio: "@ + metrics.speech_ratio.shown@,
                "total_mid_utterance_pause_secs: "@ + metrics.total_pause_secs.shown@,
                "long_pauses_over_350ms: "@ + text::decimal(metrics.long_pause_count as nat),
                "energy_coefficient_of_variation: "@ + metrics.energy_cv.shown@,
                "filler_count: "@ + text::decimal(metrics.filler_count as nat),
                "filler_breakdown: "@ + if metrics.filler_examples@.len() == 0 {
                    "none"@
                } else {
                    text::joined(text::texts(metrics.filler_examples@), ", "@)
                },
            ],
            "\n"@,
        ),
{
    analysis::law_prompt_has_a_line_for_each_metric(*metrics);
}

// ---------------------------------------------------------------- asking the coach

/// The exercise is asked for by its topic.
pub proof fn law_asking_for_an_exercise(persona: &Persona, bucket: &str, r: Vec<ChatMessage>)
    requires
        call_ensures(coach::theme_messages, (persona, bucket), r),
    ensures
        r@.len() == 2,
        r@[0].role@ == "system"@ && r@[1].role@ == "user"@,
        text::stands_under(
            r@[0].content@,
            "You are "@,
            text::trimmed(persona.description@),
            ". Your bar is high. Avoid platitudes, generic encouragement, and filler praise. Be specific, candid, and concise. Speak to them as a peer-level coach."@,
        ),
        text::stands_under(
            r@[1].content@,
            "Propose ONE speaking exercise for today's session in the area: \""@,
            bucket@,
            "\".\n\nFormat your reply EXACTLY as:\nTHEME: <a 4–8 word title>\nPROMPT: <one to two sentences asking the client to speak for 1–3 minutes on something concrete — a position to take, a story to tell, or a specific scenario to navigate. Not a definition or textbook recap.>\n\nNo preamble, no closing remarks."@,
        ),
{
    lemma_coach_is_described(*persona);
    coach::law_exercise_is_asked_for(r@, *persona, bucket@);
    let none = Seq::<char>::empty();
    let a = "Propose ONE speaking exercise for today's session in the area: \""@;
    let b = "\".\n\nFormat your reply EXACTLY as:\nTHEME: <a 4–8 word title>\nPROMPT: <one to two sentences asking the client to speak for 1–3 minutes on something concrete — a position to take, a story to tell, or a specific scenario to navigate. Not a definition or textbook recap.>\n\nNo preamble, no closing remarks."@;
    assert(r@[1].content@ == none + a + bucket@ + b + none);
}

proof fn lemma_coach_is_described(persona: Persona)
    ensures
        text::stands_under(
            coach::system_text(persona),
            "You are "@,
            text::trimmed(persona.description@),
            ". Your bar is high. Avoid platitudes, generic encouragement, and filler praise. Be specific, candid, and concise. Speak to them as a peer-level coach."@,
        ),
{
    coach::law_system_prompt_describes_the_coach(persona);
    let none = Seq::<char>::empty();
    let a = "You are "@;
    let description = text::trimmed(persona.description@);
    let b = ". Your bar is high. Avoid platitudes, generic encouragement, and filler praise. Be specific, candid, and concise. Speak to them as a peer-level coach."@;
    let c = "\n\nBackground on your client (use this to ground your feedback):\n"@;
    let background = text::trimmed(persona.background@);
    if background.len() > 0 {
        assert(coach::system_text(persona) == none + a + description + b + (c + background));
    } else {
        assert(coach::system_text(persona) == none + a + description + b + none);
    }
}

/// Whoever asks for follow-ups sends the theme, the exercise and the answer, each under its
/// own heading.
pub proof fn law_asking_for_followups(
    persona: &Persona,
    theme: &str,
    prompt: &str,
    transcript: &str,
    r: Vec<ChatMessage>,
)
    requires
        call_ensures(coach::followup_messages, (persona, theme, prompt, transcript), r),
    ensures
        r@.len() == 2,
        r@[0].role@ == "system"@ && r@[0].content@ == coach::system_text(*persona),
        r@[1].role@ == "user"@,
        text::stands_under(
            r@[1].content@,
            "The speaker just answered the following exercise.\n\nTHEME: "@,
            theme@,
            "\nORIGINAL PROMPT: "@,
        ),
        text::stands_under(
            r@[1].content@,
            "\nORIGINAL PROMPT: "@,
            prompt@,
            "\n\nWHAT THEY SAID (auto-transcribed, may have minor STT errors):\n---\n"@,
        ),
        text::stands_under(
            r@[1].content@,
            "\n\nWHAT THEY SAID (auto-transcribed, may have minor STT errors):\n---\n"@,
            transcript@,
            "\n---\n\nWrite 1 to 3 sharp follow-up questions a thoughtful listener would ask after hearing that answer. Each question should probe a weak point, an unstated assumption, or something they glossed over. Number them. No preamble. Maximum 3 questions."@,
        ),
{
    coach::law_followups_are_asked_on_the_answer(r@, *persona, theme@, prompt@, transcript@);
}

/// Whoever asks for feedback sends the theme, the exercise, the answer and the measured
/// delivery, each under its own heading.
pub proof fn law_asking_for_feedback(
    persona: &Persona,
    theme: &str,
    prompt: &str,
    transcript: &str,
    metrics: &DeliveryMetrics,
    r: Vec<ChatMessage>,
    block: String,
)
    requires
        call_ensures(coach::feedback_messages, (persona, theme, prompt, transcript, metrics), r),
        call_ensures(DeliveryMetrics::for_prompt, (metrics,), block),
    ensures
        r@.len() == 2,
        r@[0].role@ == "system"@ && r@[0].content@ == coach::system_text(*persona),
        r@[1].role@ == "user"@,
        text::stands_under(
            r@[1].content@,
            "Provide structured spoken-communication feedback on the answer below.\n\nTHEME: "@,
            theme@,
            "\nORIGINAL PROMPT: "@,
        ),
        text::stands_under(
            r@[1].content@,
            "\nORIGINAL PROMPT: "@,
            prompt@,
            "\n\nAUTO-TRANSCRIPT (verbatim, may include STT errors — do not nitpick spelling):\n---\n"@,
        ),
        text::stands_under(
            r@[1].content@,
            "\n\nAUTO-TRANSCRIPT (verbatim, may include STT errors — do not nitpick spelling):\n---\n"@,
            transcript@,
            "\n---\n\nMEASURED DELIVERY METRICS (computed from the audio):\n---\n"@,
        ),
        text::stands_under(
            r@[1].content@,
            "\n---\n\nMEASURED DELIVERY METRICS (computed from the audio):\n---\n"@,
            block@,
            coach::FEEDBACK_RULES@,
        ),
{
    coach::law_feedback_is_asked_on_the_answer(
        r@,
        *persona,
        theme@,
        prompt@,
        transcript@,
        *metrics,
    );
}

// ---------------------------------------------------------------- reading the coach

/// A proposal in the form that is asked for is read as it is meant.
pub proof fn law_read_proposal(
    raw: &str,
    r: (String, String),
    theme: Seq<char>,
    prompt: Seq<char>,
    more: Seq<Seq<char>>,
)
    requires
        call_ensures(coach::parse_theme_response, (raw,), r),
        text::is_clean(theme),
        text::is_clean(prompt),
        forall|i: int|
            0 <= i < more.len() ==> text::is_clean(#[trigger] more[i]) && !coach::is_labelled(
                more[i],
            ),
        raw@ == text::joined(
            seq!["THEME:"@ + " "@ + theme, "PROMPT:"@ + " "@ + prompt] + more,
            "\n"@,
        ),
    ensures
        r.0@ == theme,
        r.1@ == text::joined(seq![prompt] + more, " "@),
{
    coach::law_proposal_is_read("THEME:"@, theme, "PROMPT:"@, prompt, more);
}

/// Blank lines change nothing in a proposal that names its prompt, wherever they stand.
pub proof fn law_blank_lines_in_a_proposal(
    raw: &str,
    other: &str,
    r: (String, String),
    s: (String, String),
    a: Seq<Seq<char>>,
    blank: Seq<char>,
    b: Seq<Seq<char>>,
)
    requires
        call_ensures(coach::parse_theme_response, (raw,), r),
        call_ensures(coach::parse_theme_response, (other,), s),
        text::trimmed(blank).len() == 0,
        text::lines_of(raw@) == a + seq![blank] + b,
        text::lines_of(other@) == a + b,
    ensures
        r.0@ == s.0@,
        coach::read_lines(a + b).1.len() > 0 ==> r.1@ == s.1@,
{
    coach::law_blank_lines_say_nothing(a, blank, b);
}

/// A reply that names nothing is a prompt without a theme.
pub proof fn law_read_reply_without_labels(raw: &str, r: (String, String))
    requires
        call_ensures(coach::parse_theme_response, (raw,), r),
        forall|i: int|
            0 <= i < text::lines_of(raw@).len() ==> coach::names_nothing(
                #[trigger] text::lines_of(raw@)[i],
            ),
    ensures
        r.0@ == "Speaking exercise"@,
        r.1@ == text::trimmed(raw@),
{
    coach::law_reply_without_labels_is_the_prompt(raw@);
}

/// A question behind its number is read, and up to three of them are kept, in their order.
pub proof fn law_read_questions(
    raw: &str,
    r: Vec<String>,
    number: Seq<char>,
    gap: Seq<char>,
    marker: char,
    rest: Seq<char>,
)
    requires
        call_ensures(coach::parse_numbered_questions, (raw,), r),
    ensures
        ({
            let all = coach::numbered_questions(text::lines_of(raw@));
            &&& r@.len() == if all.len() <= 3 {
                all.len()
            } else {
                3
            }
            &&& forall|i: int| 0 <= i < r@.len() ==> (#[trigger] r@[i])@ == all[i]
        }),
        !raw@.contains('\n') && raw@.len() > 0 && coach::is_numbered(
            raw@,
            number,
            gap,
            marker,
            rest,
        ) && text::trimmed(rest).len() > 0 ==> r@.len() == 1 && r@[0]@ == text::trimmed(rest),
{
    let all = coach::numbered_questions(text::lines_of(raw@));
    coach::law_first_three_are_kept(raw@);
    assert(text::texts(r@).len() == r@.len());
    assert forall|i: int| 0 <= i < r@.len() implies (#[trigger] r@[i])@ == all[i] by {
        assert(text::texts(r@)[i] == r@[i]@);
    }
    if !raw@.contains('\n') && raw@.len() > 0 && coach::is_numbered(
        raw@,
        number,
        gap,
        marker,
        rest,
    ) && text::trimmed(rest).len() > 0 {
        text::lemma_only_line(raw@);
        coach::law_numbered_line_holds_its_question(raw@, number, gap, marker, rest);
        let none = Seq::<Seq<char>>::empty();
        coach::law_questions_are_read_line_by_line(none, none, raw@);
        assert(all == seq![text::trimmed(rest)]);
    }
}

// ---------------------------------------------------------------- the stream of a reply

/// What has been received is the bytes that came, in their order, and each line is handed
/// out once its line feed is there.
pub proof fn law_received_lines(
    stream: &mut ChatStream,
    lines: Vec<Vec<u8>>,
    line: Seq<u8>,
    rest: Seq<u8>,
)
    requires
        call_ensures(ChatStream::take_lines, (stream,), lines),
        !line.contains(10u8),
        !rest.contains(10u8),
        line.len() > 0,
        old(stream).pending@ == line + seq![10u8] + rest,
    ensures
        lines@.len() == 1,
        lines@[0]@ == line,
        final(stream).pending@ == rest,
        final(stream).full == old(stream).full,
{
    crate::llm::law_lines_end_at_feeds(line, rest);
    crate::llm::law_lines_end_at_feeds(rest, rest);
    assert(crate::llm::line_bytes(lines@)[0] == lines@[0]@);
    assert(crate::llm::line_bytes(lines@).len() == lines@.len());
}

/// The reply is what the lines add, unchanged, and each text that is not empty is a
/// fragment.
pub proof fn law_streamed_reply(
    stream: &mut ChatStream,
    chunks: Vec<Option<ChatChunk>>,
    r: (Vec<LlmUpdate>, bool),
    contents: Seq<Seq<char>>,
)
    requires
        call_ensures(ChatStream::accept_lines, (stream, chunks), r),
        crate::llm::adds(chunks@, contents),
        forall|i: int|
            0 <= i < chunks@.len() - 1 ==> !(#[trigger] chunks@[i] matches Some(chunk)
                && chunk.done),
    ensures
        final(stream).full@ == old(stream).full@ + contents.flatten(),
        final(stream).pending == old(stream).pending,
        r.1 <==> chunks@.len() > 0 && (chunks@.last() matches Some(chunk) && chunk.done),
        r.1 ==> crate::llm::update_models(r.0@) == crate::llm::fragments(contents).push(
            UpdateModel::Done(old(stream).full@ + contents.flatten()),
        ),
        !r.1 ==> crate::llm::update_models(r.0@) == crate::llm::fragments(contents),
{
    crate::llm::law_reply_is_what_the_lines_add(old(stream).full@, chunks@, contents);
}

/// The daemon is asked at its path, on this machine unless another place is given.
pub proof fn law_place_of_the_daemon(
    model: String,
    host: Option<String>,
    client: crate::llm::OllamaClient,
    url: String,
)
    requires
        call_ensures(crate::llm::OllamaClient::new, (model, host), client),
        call_ensures(crate::llm::OllamaClient::chat_url, (&client,), url),
    ensures
        client.model@ == model@,
        host matches Some(h) ==> url@ == h@ + "/api/chat"@,
        host is None ==> url@ == "http://localhost:11434/api/chat"@,
{
    reveal_strlit("http://localhost:11434");
    reveal_strlit("/api/chat");
    reveal_strlit("http://localhost:11434/api/chat");
    assert("http://localhost:11434"@ + "/api/chat"@ == "http://localhost:11434/api/chat"@);
}

// ---------------------------------------------------------------- transcripts

/// A line of a transcript is what was spoken; one that the program prints about itself
/// says nothing.
pub proof fn law_cleaned_line(line: &str, r: String, rest: Seq<char>)
    requires
        call_ensures(stt::clean_transcript, (line,), r),
        !line@.contains('\n'),
    ensures
        text::trimmed(line@) == "whisper_"@ + rest || text::trimmed(line@) == "system_info"@
            + rest || text::trimmed(line@) == "main:"@ + rest ==> r@.len() == 0,
        stt::is_no_log(line@) && (text::trimmed(line@).len() > 0 ==> text::trimmed(line@)[0]
            != '[') ==> r@ == text::trimmed(line@),
{
    if text::trimmed(line@) == "whisper_"@ + rest || text::trimmed(line@) == "system_info"@ + rest
        || text::trimmed(line@) == "main:"@ + rest {
        stt::law_log_lines_say_nothing(line@, rest);
    }
    if stt::is_no_log(line@) && (text::trimmed(line@).len() > 0 ==> text::trimmed(line@)[0]
        != '[') {
        stt::law_line_is_spoken_verbatim(line@);
    }
}

/// A line behind a time stamp is spoken without it.
pub proof fn law_cleaned_stamp(
    line: &str,
    r: String,
    from: Seq<char>,
    to: Seq<char>,
    rest: Seq<char>,
)
    requires
        call_ensures(stt::clean_transcript, (line,), r),
        !line@.contains('\n'),
        !from.contains(']'),
        !to.contains(']'),
        text::trimmed(line@) == seq!['['] + (from + " --> "@ + to) + seq![']'] + rest,
    ensures
        r@ == text::trimmed(rest),
{
    reveal_strlit(" --> ");
    let stamp = from + " --> "@ + to;
    assert forall|i: int| 0 <= i < stamp.len() implies stamp[i] != ']' by {
        if i < from.len() {
            assert(from.contains(from[i]));
        } else if i >= from.len() + 5 {
            assert(to.contains(to[i - from.len() - 5]));
        }
    }
    let l = text::trimmed(line@);
    assert(text::has_part(l, " --> "@)) by {
        text::law_parts_are_parts(l, " --> "@);
        assert(l == (seq!['['] + from) + " --> "@ + (to + seq![']'] + rest));
    }
    stt::law_time_stamp_is_dropped(line@, stamp, rest);
}

/// What is spoken in two outputs, one after the other, is put in one line.
pub proof fn law_cleaned_outputs(
    a: &str,
    b: &str,
    both: &str,
    x: String,
    y: String,
    z: String,
)
    requires
        call_ensures(stt::clean_transcript, (a,), x),
        call_ensures(stt::clean_transcript, (b,), y),
        call_ensures(stt::clean_transcript, (both,), z),
        both@ == a@ + seq!['\n'] + b@,
    ensures
        x@.len() == 0 ==> z@ == y@,
        y@.len() == 0 ==> z@ == x@,
        x@.len() > 0 && y@.len() > 0 ==> z@ == x@ + " "@ + y@,
{
    stt::law_transcripts_add_up(a@, b@);
}

/// A run that went well is read as its transcript; one that failed tells what was printed.
pub proof fn law_read_run(
    success: bool,
    status: &str,
    stdout: String,
    stderr: String,
    r: Result<TranscriptionResult, String>,
    out: &str,
    said: String,
)
    requires
        call_ensures(stt::read_texts, (success, status, stdout, stderr), r),
        out@ == stdout@,
        call_ensures(stt::clean_transcript, (out,), said),
    ensures
        r is Ok <==> success,
        r matches Ok(t) ==> t.text@ == said@ && t.stdout@ == stdout@ && t.stderr@ == stderr@,
        r matches Err(e) ==> {
            &&& text::stands_under(e@, "whisper-cli exited with "@, status@, ":\nSTDOUT: "@)
            &&& text::stands_under(e@, ":\nSTDOUT: "@, text::trimmed(stdout@), "\nSTDERR: "@)
            &&& text::stands_under(e@, "\nSTDERR: "@, text::trimmed(stderr@), seq![])
        },
{
    stt::law_failure_tells_what_was_printed(status@, stdout@, stderr@);
}

/// One to eight threads transcribe where any are available, as many as there are.
pub proof fn law_threads_for_a_transcript(available: Option<usize>, r: usize)
    requires
        call_ensures(stt::thread_count, (available,), r),
    ensures
        r <= 8,
        available is None ==> r == 2,
        available matches Some(n) ==> r <= n && (r == n || r == 8),
{
}

/// The C++ program needs its model file; nothing else keeps a program from being used.
pub proof fn law_loading_a_transcriber<P>(
    bin: crate::tools::Place<P>,
    model: crate::tools::Place<P>,
    help: &str,
    dialect: WhisperDialect,
    r: Result<stt::Transcriber<P>, String>,
)
    requires
        call_ensures(stt::Transcriber::<P>::load, (bin, model, help), r),
        call_ensures(WhisperDialect::detect, (help,), dialect),
    ensures
        dialect == WhisperDialect::Cpp <==> text::has_part(help@, "ggerganov"@) || text::has_part(
            help@,
            "whisper.cpp"@,
        ),
        model.is_there || dialect == WhisperDialect::OpenAi ==> r is Ok,
        !model.is_there && dialect == WhisperDialect::Cpp ==> r is Err,
        r matches Ok(t) ==> t.bin == bin.path && t.model == model.path && t.dialect == dialect,
        r matches Err(e) ==> text::stands_under(
            e@,
            "Whisper model not found at "@,
            model.shown@,
            ". Download e.g. ggml-base.en.bin from https://huggingface.co/ggerganov/whisper.cpp and place it there, or set WHISPER_MODEL."@,
        ),
{
    stt::law_dialect_is_told(help@, seq![], seq![]);
    if let Err(e) = r {
        let none = Seq::<char>::empty();
        let a = "Whisper model not found at "@;
        let b = ". Download e.g. ggml-base.en.bin from https://huggingface.co/ggerganov/whisper.cpp and place it there, or set WHISPER_MODEL."@;
        assert(e@ == none + a + model.shown@ + b + none);
    }
}

// ---------------------------------------------------------------- reading aloud

/// The voice is the one whose number is given, or else the persona's.
pub proof fn law_chosen_voice(named: Option<&str>, persona_voice: u32, r: u32, v: u32)
    requires
        call_ensures(tts::choose_voice, (named, persona_voice), r),
    ensures
        named is None ==> r == persona_voice,
        named matches Some(s) ==> {
            &&& v <= 10 && s@ == text::decimal(v as nat) ==> r == v
            &&& (forall|w: nat| w <= 10 ==> s@ != #[trigger] text::decimal(w)) ==> r
                == persona_voice
        },
{
    if let Some(s) = named {
        if v <= 10 && s@ == text::decimal(v as nat) {
            assert(tts::names_voice(s@, v));
            if tts::names_voice(s@, r) {
                tts::law_named_voice_is_unique(s@, r, v);
            }
        }
        if tts::names_voice(s@, r) {
            assert(s@ == text::decimal(r as nat));
        }
    }
}

/// A speech program is used where all of its model is there. Otherwise the first file that
/// is missing is told, or that the data are.
#[verifier::rlimit(50)]
pub proof fn law_loading_a_voice<P>(
    bin: P,
    model_dir: crate::tools::Place<P>,
    files: tts::ModelFiles<P>,
    available: Option<usize>,
    r: Result<tts::Tts<P>, String>,
)
    requires
        call_ensures(tts::Tts::<P>::load, (bin, model_dir, files, available), r),
    ensures
        r is Ok <==> files.model.is_there && files.voices.is_there && files.tokens.is_there
            && files.data.is_there,
        r matches Ok(t) ==> {
            &&& t.bin == bin
            &&& t.model_dir == model_dir.path
            &&& t.files == files
            &&& 1 <= t.threads <= 4
            &&& available is None ==> t.threads == 2
            &&& available matches Some(n) ==> 1 <= n <= 4 ==> t.threads == n
        },
        r matches Err(e) ==> {
            &&& !files.model.is_there ==> is_told_missing(e@, files.model.shown@)
            &&& files.model.is_there && !files.voices.is_there ==> is_told_missing(
                e@,
                files.voices.shown@,
            )
            &&& files.model.is_there && files.voices.is_there && !files.tokens.is_there
                ==> is_told_missing(e@, files.tokens.shown@)
            &&& files.model.is_there && files.voices.is_there && files.tokens.is_there ==> e@
                == "espeak-ng-data directory missing under "@ + model_dir.shown@
        },
{
    tts::law_first_missing_file_is_told(files);
    tts::law_missing_file_is_named(files.model.shown@);
    tts::law_missing_file_is_named(files.voices.shown@);
    tts::law_missing_file_is_named(files.tokens.shown@);
}

/// Whether a message says that a file of the model is missing.
pub open spec fn is_told_missing(said: Seq<char>, file: Seq<char>) -> bool {
    text::stands_under(
        said,
        "Kokoro model file missing: "@,
        file,
        "\nDownload kokoro-en-v0_19 from https://github.com/k2-fsa/sherpa-onnx/releases/tag/tts-models"@,
    )
}

/// A run of the speech program went well where it ended well and left a sound file.
pub proof fn law_read_speech_run(
    success: bool,
    status: &str,
    stderr: &str,
    out_path: &crate::tools::Place<String>,
    r: Result<(), String>,
)
    requires
        call_ensures(tts::read_texts, (success, status, stderr, out_path), r),
    ensures
        r is Ok <==> success && out_path.is_there,
        r matches Err(e) ==> {
            &&& !success ==> text::stands_under(
                e@,
                "sherpa-onnx-offline-tts exited with "@,
                status@,
                ": "@ + text::trimmed(stderr@),
            )
            &&& success ==> text::stands_under(
                e@,
                "sherpa-onnx-offline-tts did not produce "@,
                out_path.shown@,
                seq![],
            )
        },
{
    tts::law_failure_is_told(status@, stderr@);
    if let Err(e) = r {
        if success {
            let none = Seq::<char>::empty();
            let a = "sherpa-onnx-offline-tts did not produce "@;
            assert(e@ == none + a + out_path.shown@ + none + none);
        }
    }
}

/// Speech that has begun is not forgotten: the player is busy, what was playing is about to
/// be stopped, and the text has a number that no text before it waits for.
pub proof fn law_speech_begins(
    player: &mut tts::Player,
    enabled: bool,
    said: &str,
    r: Option<u64>,
)
    requires
        call_ensures(tts::Player::begin_speaking, (player, enabled, said), r),
        old(player).wf(),
    ensures
        final(player).wf(),
        !enabled || (forall|i: int| 0 <= i < said@.len() ==> text::is_space(#[trigger] said@[i]))
            ==> r is None,
        r is None ==> *final(player) == *old(player),
        r matches Some(number) ==> {
            &&& final(player).busy
            &&& final(player).making == Some(number)
            &&& old(player).making != Some(number)
            &&& final(player).queue@ == old(player).queue@.push(tts::PlayCmd::Stop)
            &&& final(player).loaded == old(player).loaded
            &&& !tts::loaded_after(final(player).loaded, final(player).queue@)
            &&& final(player).next != number
        },
{
    if text::all_space(said@) {
        let none = Seq::<char>::empty();
        text::law_trimming_is_exact(said@, none, none);
        assert(said@ + none + none == said@);
    }
    if r is Some {
        tts::law_sound_is_what_is_left(*final(player));
        tts::law_numbers_go_up(r->0);
    }
}

/// A sound file is played only if nothing has overtaken it; one that has been overtaken
/// changes nothing.
pub proof fn law_speech_is_overtaken(player: &mut tts::Player, number: u64, clip: Option<Vec<u8>>)
    requires
        call_ensures(tts::Player::finish_speaking, (player, number, clip), ()),
        old(player).wf(),
    ensures
        final(player).wf(),
        old(player).making != Some(number) ==> *final(player) == *old(player),
        old(player).making == Some(number) ==> {
            &&& final(player).making is None
            &&& final(player).next == old(player).next
            &&& clip is Some ==> final(player).busy && tts::loaded_after(
                final(player).loaded,
                final(player).queue@,
            )
            &&& clip is None ==> !final(player).busy && !tts::loaded_after(
                final(player).loaded,
                final(player).queue@,
            )
        },
{
    tts::law_sound_is_what_is_left(*final(player));
}

/// Whoever stops the player ends all: it is not busy, nothing is being made, and once the
/// requests are met there is no clip.
pub proof fn law_stopping_ends_all(player: &mut tts::Player)
    requires
        call_ensures(tts::Player::stop, (player,), ()),
    ensures
        !final(player).busy,
        final(player).making is None,
        !tts::loaded_after(final(player).loaded, final(player).queue@),
        final(player).next == old(player).next,
{
    tts::law_sound_is_what_is_left(*final(player));
}

/// Requests are met one by one, in the order in which they were made, and a clip that has
/// ended leaves the player busy only if a sound file is being made.
#[verifier::rlimit(50)]
pub proof fn law_player_steps(player: &mut tts::Player, clip_ended: bool, r: tts::PlayerAction)
    requires
        call_ensures(tts::Player::step, (player, clip_ended), r),
    ensures
        final(player).making == old(player).making && final(player).next == old(player).next,
        old(player).queue@.len() > 0 ==> {
            &&& old(player).queue@ == seq![old(player).queue@[0]] + final(player).queue@
            &&& final(player).loaded == old(player).queue@[0] is Play
            &&& old(player).queue@[0] matches tts::PlayCmd::Play(bytes) ==> r
                == tts::PlayerAction::Replace(bytes)
            &&& old(player).queue@[0] is Stop ==> r is StopClip
            &&& tts::loaded_after(final(player).loaded, final(player).queue@)
                == tts::loaded_after(old(player).loaded, old(player).queue@)
            &&& old(player).busy ==> final(player).busy
            &&& old(player).queue@[0] is Stop ==> final(player).busy == old(player).busy
            &&& old(player).queue@[0] is Play && !old(player).busy ==> (final(player).busy
                <==> forall|i: int|
                0 <= i < final(player).queue@.len() ==> !(
                #[trigger] final(player).queue@[i] is Stop))
        },
        old(player).queue@.len() == 0 ==> {
            &&& r is Nothing
            &&& final(player).queue@.len() == 0
            &&& !clip_ended ==> final(player).loaded == old(player).loaded
                && final(player).busy == old(player).busy
            &&& clip_ended ==> !final(player).loaded
            &&& clip_ended && old(player).loaded ==> final(player).busy == (
            old(player).making is Some)
        },
{
    if old(player).queue@.len() > 0 {
        let q = old(player).queue@;
        assert(q == seq![q[0]] + q.drop_first());
    }
}

// ---------------------------------------------------------------- personas

/// A tidy persona that is opened and saved unchanged stays as it is.
pub proof fn law_unchanged_draft(
    idx: Option<usize>,
    p: &Persona,
    draft: PersonaDraft,
    r: Persona,
)
    requires
        call_ensures(PersonaDraft::from_persona, (idx, p), draft),
        call_ensures(PersonaDraft::into_persona, (draft,), r),
        crate::draft::is_tidy(*p),
    ensures
        draft.edit_idx == idx,
        draft.name@ == p.name@ && r.name@ == p.name@,
        draft.description@ == p.description@ && r.description@ == p.description@,
        draft.background@ == p.background@ && r.background@ == p.background@,
        text::texts(r.topics@) == text::texts(p.topics@),
        draft.voice_id == p.voice_id && r.voice_id == p.voice_id,
{
    crate::draft::law_draft_shows_each_entry(draft, idx, *p);
    crate::draft::law_editing_nothing_changes_nothing(draft, idx, *p, r);
}

/// What is typed is saved without the white space around it, each entry in its own place,
/// and each line that is not blank is a topic.
#[verifier::rlimit(50)]
pub proof fn law_saved_draft(
    draft: PersonaDraft,
    r: Persona,
    name: Seq<char>,
    description: Seq<char>,
    background: Seq<char>,
    line: Seq<char>,
    rest: Seq<char>,
)
    requires
        call_ensures(PersonaDraft::into_persona, (draft,), r),
        draft.name@ == seq![' '] + name + seq!['\n'],
        draft.description@ == seq!['\t'] + description,
        draft.background@ == background + seq![' '],
        draft.topics_text@ == line + seq!['\n'] + rest,
        name.len() > 0 && !text::is_space(name[0]) && !text::is_space(name.last()),
        description.len() > 0 && !text::is_space(description[0]) && !text::is_space(
            description.last(),
        ),
        background.len() > 0 && !text::is_space(background[0]) && !text::is_space(
            background.last(),
        ),
        !line.contains('\n'),
    ensures
        r.name@ == name,
        r.description@ == description,
        r.background@ == background,
        r.voice_id == draft.voice_id,
        text::texts(r.topics@) == (if text::trimmed(line).len() > 0 {
            seq![text::trimmed(line)]
        } else {
            seq![]
        }) + crate::draft::topics_in(rest),
{
    let none = Seq::<char>::empty();
    text::law_trimming_is_exact(seq![' '], name, seq!['\n']);
    text::law_trimming_is_exact(seq!['\t'], description, none);
    assert(seq!['\t'] + description + none == seq!['\t'] + description);
    text::law_trimming_is_exact(none, background, seq![' ']);
    assert(none + background + seq![' '] == background + seq![' ']);
    crate::draft::law_topics_add_up(line, rest);
    crate::draft::law_line_is_a_topic(line);
    if text::trimmed(line).len() == 0 {
        assert(crate::draft::topics_in(line) == Seq::<Seq<char>>::empty());
    }
}

/// Stored personas are taken over as they are, as long as there are any. The active one is
/// in the list.
pub proof fn law_loaded_personas(stored: Option<PersonaStore>, r: PersonaStore)
    requires
        call_ensures(crate::personas::load, (stored,), r),
    ensures
        r.active < r.personas@.len(),
        stored matches Some(s) ==> s.personas@.len() > 0 ==> {
            &&& r.personas@ == s.personas@
            &&& s.active < s.personas@.len() ==> r.active == s.active
            &&& s.active >= s.personas@.len() ==> r.active == 0
        },
        (stored is None || stored->0.personas@.len() == 0) ==> {
            &&& r.personas@.len() == 2
            &&& r.active == 0
            &&& r.personas@[0].name@ == "Engineering Leader"@
            &&& r.personas@[1].name@ == "Social & Banter"@
        },
{
}

/// A persona that leaves the list takes no other with it, and the active one stays active.
pub proof fn law_removed_persona(store: &mut PersonaStore, i: usize)
    requires
        call_ensures(PersonaStore::remove, (store, i), ()),
        i < old(store).personas@.len(),
        old(store).active < old(store).personas@.len(),
        old(store).personas@.len() > 1,
    ensures
        final(store).active < final(store).personas@.len(),
        final(store).personas@.len() == old(store).personas@.len() - 1,
        forall|k: int|
            0 <= k < i ==> #[trigger] final(store).personas@[k] == old(store).personas@[k],
        forall|k: int|
            i <= k < final(store).personas@.len() ==> #[trigger] final(store).personas@[k]
                == old(store).personas@[k + 1],
        i != old(store).active ==> final(store).personas@[final(store).active as int]
            == old(store).personas@[old(store).active as int],
{
}

/// A persona that was edited takes its place, and a new one comes last and is active.
pub proof fn law_put_persona(store: &mut PersonaStore, place: Option<usize>, persona: Persona)
    requires
        call_ensures(PersonaStore::put, (store, place, persona), ()),
        place matches Some(i) ==> i < old(store).personas@.len(),
    ensures
        place matches Some(i) ==> {
            &&& final(store).active == old(store).active
            &&& final(store).personas@.len() == old(store).personas@.len()
            &&& final(store).personas@[i as int] == persona
            &&& forall|k: int|
                0 <= k < old(store).personas@.len() && k != i
                    ==> #[trigger] final(store).personas@[k] == old(store).personas@[k]
        },
        place is None ==> {
            &&& final(store).personas@.len() == old(store).personas@.len() + 1
            &&& final(store).personas@[final(store).active as int] == persona
            &&& final(store).active == final(store).personas@.len() - 1
            &&& forall|k: int|
                0 <= k < old(store).personas@.len() ==> #[trigger] final(store).personas@[k]
                    == old(store).personas@[k]
        },
{
}

// ---------------------------------------------------------------- past sessions

/// Past sessions come oldest first, and none is lost.
pub proof fn law_loaded_sessions(rows: Vec<Option<Session>>, r: Vec<Session>, s: Session)
    requires
        call_ensures(history::load_all, (rows,), r),
    ensures
        forall|i: int, j: int|
            0 <= i <= j < r@.len() ==> (#[trigger] r@[i]).timestamp <= (#[trigger] r@[j]).timestamp,
        r@.contains(s) <==> rows@.contains(Some(s)),
{
    let read = history::readable(rows@);
    history::law_order_keeps_sessions(r@, read, s);
    lemma_read_rows(rows@, s);
}

proof fn lemma_read_rows(rows: Seq<Option<Session>>, s: Session)
    ensures
        history::readable(rows).contains(s) <==> rows.contains(Some(s)),
    decreases rows.len(),
{
    if rows.len() > 0 {
        let front = rows.drop_last();
        let before = history::readable(front);
        let all = history::readable(rows);
        lemma_read_rows(front, s);
        if rows.contains(Some(s)) {
            let i = choose|i: int| 0 <= i < rows.len() && rows[i] == Some(s);
            if i < front.len() {
                assert(front[i] == Some(s));
                let k = choose|k: int| 0 <= k < before.len() && before[k] == s;
                assert(all[k] == s);
            } else {
                assert(all[before.len() as int] == s);
            }
        }
        if all.contains(s) {
            let k = choose|k: int| 0 <= k < all.len() && all[k] == s;
            if k < before.len() {
                assert(before[k] == s);
                let i = choose|i: int| 0 <= i < front.len() && front[i] == Some(s);
                assert(rows[i] == Some(s));
            } else {
                assert(rows[rows.len() - 1] == Some(s));
            }
        }
    }
}

/// Rows that came in the order of time come back as they are.
pub proof fn law_loaded_in_order(rows: Vec<Option<Session>>, r: Vec<Session>, sessions: Seq<Session>)
    requires
        call_ensures(history::load_all, (rows,), r),
        history::readable(rows@) == sessions,
        forall|i: int, j: int|
            0 <= i <= j < sessions.len() ==> sessions[i].timestamp <= sessions[j].timestamp,
    ensures
        r@ == sessions,
{
    history::law_ordered_sessions_stay(r@, sessions);
}

/// Clearing the history of a persona leaves all the sessions of the others and none of its
/// own; the counts agree.
pub proof fn law_cleared_history(
    sessions: Vec<Session>,
    name: &str,
    r: Vec<Session>,
    mine: usize,
    left: usize,
)
    requires
        call_ensures(history::delete_for_persona, (sessions, name), r),
        call_ensures(history::count_for_persona, (&sessions, name), mine),
        call_ensures(history::count_for_persona, (&r, name), left),
    ensures
        left == 0,
        r@.len() + mine == sessions@.len(),
{
    history::law_clearing_is_exact(sessions@, name@, name@);
    if sessions@.len() > 0 {
        history::law_clearing_goes_session_by_session(
            sessions@,
            sessions@,
            sessions@[0],
            name@,
        );
    } else {
        reveal(Seq::filter);
    }
}

/// A session belongs to the persona that it names, and to the engineering coach where it
/// names none.
pub proof fn law_owned_session(session: &Session, name: &str, r: bool)
    requires
        call_ensures(Session::belongs_to, (session, name), r),
    ensures
        session.persona_name@.len() > 0 ==> (r <==> session.persona_name@ == name@),
        session.persona_name@.len() == 0 ==> (r <==> name@ == "Engineering Leader"@),
{
}

/// Sessions that name no persona are given one, and nothing else of any session changes.
pub proof fn law_named_owners(sessions: Vec<Session>, r: Vec<Session>, i: int)
    requires
        call_ensures(history::name_owners, (sessions,), r),
        0 <= i < sessions@.len(),
    ensures
        r@.len() == sessions@.len(),
        r@[i].persona_name@.len() > 0,
        sessions@[i].persona_name@.len() > 0 ==> r@[i].persona_name@ == sessions@[i].persona_name@,
        sessions@[i].persona_name@.len() == 0 ==> r@[i].persona_name@ == "Engineering Leader"@,
        r@[i].timestamp == sessions@[i].timestamp && r@[i].theme == sessions@[i].theme,
        r@[i].prompt == sessions@[i].prompt && r@[i].transcript == sessions@[i].transcript,
        r@[i].followups == sessions@[i].followups,
        r@[i].followup_answers == sessions@[i].followup_answers,
        r@[i].metrics == sessions@[i].metrics && r@[i].feedback == sessions@[i].feedback,
{
    history::law_naming_changes_the_name_only(r@[i], sessions@[i]);
}

/// The sessions of a persona are found, all of them and in their order.
pub proof fn law_found_sessions(sessions: &Vec<Session>, name: &str, r: Vec<usize>, at: usize)
    requires
        call_ensures(history::sessions_naming, (sessions, name), r),
        sessions@.len() <= usize::MAX,
    ensures
        r@.contains(at) <==> at < sessions@.len() && sessions@[at as int].persona_name@ == name@,
        forall|i: int, j: int| 0 <= i < j < r@.len() ==> #[trigger] r@[i] < #[trigger] r@[j],
{
    history::law_positions_are_exact(sessions@, name@);
}

/// A row that is written behind a log is read behind all that was there.
pub proof fn law_written_row(
    log: &[u8],
    row: &str,
    line: String,
    longer: &[u8],
    before: Vec<String>,
    after: Vec<String>,
)
    requires
        call_ensures(rows::row_line, (row,), line),
        call_ensures(rows::rows_in, (log,), before),
        call_ensures(rows::rows_in, (longer,), after),
        log@.len() == 0 || log@.last() == 10u8,
        text::is_clean(row@),
        longer@ == log@ + vstd::utf8::encode_utf8(line@),
    ensures
        line@ == row@.push('\n'),
        text::texts(after@) == text::texts(before@).push(row@),
{
    rows::law_appended_row_is_read(log@, row@);
}

/// A moment is shown as its date, hour and minute.
pub proof fn law_shown_moment(unix_secs: i64, r: String, date: calendar::CivilDate)
    requires
        call_ensures(calendar::format_utc, (unix_secs,), r),
        calendar::FIRST_SECOND <= unix_secs <= calendar::LAST_SECOND,
        date.valid(),
        date.day_number() * 86_400 <= unix_secs < (date.day_number() + 1) * 86_400,
    ensures
        r@ == calendar::written_out(
            date,
            unix_secs as int / 3600 % 24,
            unix_secs as int / 60 % 60,
        ),
{
    assert(date.day_number() == unix_secs as int / 86_400);
    assert(calendar::is_day_of(date, unix_secs as int));
    calendar::law_minute_is_written_out(date, unix_secs as int);
}

// ---------------------------------------------------------------- programs and devices

/// A program is searched for place by place, and the first that is there is taken.
pub proof fn law_searched_places<P>(
    places: Vec<crate::tools::Place<P>>,
    r: Option<crate::tools::Place<P>>,
)
    requires
        call_ensures(crate::tools::which_on_path::<P>, (places,), r),
    ensures
        r is None <==> forall|i: int|
            0 <= i < places@.len() ==> !(#[trigger] places@[i]).is_there,
        r is Some ==> exists|i: int|
            0 <= i < places@.len() && r == Some(#[trigger] places@[i]) && places@[i].is_there
                && forall|k: int| 0 <= k < i ==> !(#[trigger] places@[k]).is_there,
{
    crate::tools::law_first_place_is_taken(places@);
}

/// A program that a variable names is used where it exists, and no other is; without a
/// name the first one that was found is.
pub proof fn law_resolved_program<P>(
    named: Option<crate::tools::Place<P>>,
    found: Vec<Option<crate::tools::Place<P>>>,
    r: Result<crate::tools::Place<P>, String>,
)
    requires
        call_ensures(stt::resolve_binary::<P>, (named, found), r),
    ensures
        named matches Some(place) ==> {
            &&& r is Ok <==> place.is_there
            &&& r matches Ok(p) ==> p == place
            &&& r matches Err(e) ==> e@ == "WHISPER_BIN"@ + (" points to "@ + (place.shown@
                + " which doesn't exist"@))
        },
        named is None ==> {
            &&& r is Ok <==> exists|i: int| 0 <= i < found@.len() && (#[trigger] found@[i]) is Some
            &&& r matches Ok(p) ==> found@.contains(Some(p))
            &&& r matches Err(e) ==> e@
                == "whisper-cli not found. Either add it to PATH or set WHISPER_BIN. Download from https://github.com/ggerganov/whisper.cpp/releases (Windows: whisper-bin-x64.zip)."@
        },
{
    crate::tools::law_named_program_decides(
        r,
        named,
        found@,
        stt::BINARY_VARIABLE@,
        stt::BINARY_NOT_FOUND@,
    );
}

/// The same holds of the speech program.
pub proof fn law_resolved_speech_program<P>(
    named: Option<crate::tools::Place<P>>,
    found: Option<crate::tools::Place<P>>,
    r: Result<crate::tools::Place<P>, String>,
)
    requires
        call_ensures(tts::resolve_binary::<P>, (named, found), r),
    ensures
        named matches Some(place) ==> {
            &&& r is Ok <==> place.is_there
            &&& r matches Ok(p) ==> p == place
            &&& r matches Err(e) ==> e@ == "SHERPA_BIN"@ + (" points to "@ + (place.shown@
                + " which doesn't exist"@))
        },
        named is None ==> {
            &&& found matches Some(p) ==> r == Ok::<crate::tools::Place<P>, String>(p)
            &&& found is None ==> (r matches Err(e) && e@
                == "sherpa-onnx-offline-tts not found. Either add it to PATH or set SHERPA_BIN. Download a prebuilt from https://github.com/k2-fsa/sherpa-onnx/releases."@)
        },
{
    let list = seq![found];
    crate::tools::law_named_program_decides(
        r,
        named,
        list,
        tts::BINARY_VARIABLE@,
        tts::BINARY_NOT_FOUND@,
    );
    if named is None {
        assert(list[0] == found);
        if let Ok(p) = r {
            let i = choose|i: int| 0 <= i < list.len() && list[i] == Some(p);
            assert(i == 0);
        }
    }
}

/// The devices that have a name are listed, in their order.
pub proof fn law_listed_devices(
    a: Vec<Option<String>>,
    b: Vec<Option<String>>,
    both: Vec<Option<String>>,
    x: Vec<String>,
    y: Vec<String>,
    z: Vec<String>,
)
    requires
        call_ensures(crate::audio::list_devices, (Some(a),), x),
        call_ensures(crate::audio::list_devices, (Some(b),), y),
        call_ensures(crate::audio::list_devices, (Some(both),), z),
        both@ == a@ + b@,
    ensures
        text::texts(z@) == text::texts(x@) + text::texts(y@),
        a@.len() == 1 && a@[0] is Some ==> x@.len() == 1 && x@[0]@ == (a@[0]->0)@,
        a@.len() == 1 && a@[0] is None ==> x@.len() == 0,
{
    let name = if a@.len() == 1 && a@[0] is Some {
        a@[0]->0
    } else {
        arbitrary()
    };
    crate::audio::law_names_are_listed_one_by_one(a@, b@, name);
    assert(text::texts(x@).len() == x@.len());
    if a@.len() == 1 && a@[0] is Some {
        assert(a@ == seq![Some(name)]);
        assert(text::texts(x@)[0] == x@[0]@);
    }
    if a@.len() == 1 && a@[0] is None {
        assert(a@ == seq![None::<String>]);
    }
}

/// The samples of a block are parted into frames that do not overlap: one begins where the
/// one before it ends, the first at the beginning.
pub proof fn law_frame_bounds(
    len: usize,
    channels: u16,
    frame: usize,
    a: (usize, usize),
    b: (usize, usize),
)
    requires
        frame + 1 < len as int / crate::audio::frame_width(channels),
        call_ensures(crate::audio::frame_bounds, (len, channels, frame), a),
        call_ensures(crate::audio::frame_bounds, (len, channels, (frame + 1) as usize), b),
    ensures
        a.1 == b.0,
        frame == 0 ==> a.0 == 0,
        channels > 0 ==> a.1 - a.0 == channels,
        channels == 0 ==> a.1 - a.0 == 1,
{
    let width = crate::audio::frame_width(channels);
    assert((frame + 1) * width == frame * width + width) by (nonlinear_arith);
    assert(0 * width == 0) by (nonlinear_arith);
}

// ---------------------------------------------------------------- texts on the screens

/// The line about a persona counts its topics and its past sessions, one without a plural.
#[verifier::rlimit(50)]
pub proof fn law_persona_line(persona: &Persona, n: usize, r: String)
    requires
        call_ensures(crate::labels::persona_line, (persona, n), r),
    ensures
        persona.topics@.len() == 1 ==> text::stands_under(
            r@,
            "Persona: "@,
            persona.name@,
            " · "@ + "1 topic"@,
        ),
        persona.topics@.len() != 1 ==> text::stands_under(
            r@,
            "Persona: "@,
            persona.name@,
            " · "@ + text::decimal(persona.topics@.len()) + " topics"@,
        ),
        n == 1 ==> text::stands_under(r@, " · "@, "1 past session"@, seq![]),
        n != 1 ==> text::stands_under(r@, " · "@, text::decimal(n as nat), " past sessions"@),
{
    let none = Seq::<char>::empty();
    let topics = crate::labels::counted(persona.topics@.len() as int, "topic"@);
    let sessions = crate::labels::counted(n as int, "past session"@);
    crate::labels::law_one_is_no_plural(persona.topics@.len(), "topic"@);
    crate::labels::law_one_is_no_plural(n as nat, "past session"@);
    reveal_strlit("1 ");
    reveal_strlit(" ");
    reveal_strlit("s");
    reveal_strlit("topic");
    reveal_strlit("1 topic");
    reveal_strlit(" topics");
    reveal_strlit("past session");
    reveal_strlit("1 past session");
    reveal_strlit(" past sessions");
    let head = "Persona: "@;
    let dot = " · "@;
    assert("1 topic"@ == "1 "@ + "topic"@);
    assert(" topics"@ == " "@ + "topic"@ + "s"@);
    assert("1 past session"@ == "1 "@ + "past session"@);
    assert(" past sessions"@ == " "@ + "past session"@ + "s"@);
    assert(r@ == none + head + persona.name@ + (dot + topics) + (dot + sessions));
    if persona.topics@.len() != 1 {
        assert(dot + topics == dot + text::decimal(persona.topics@.len()) + " topics"@);
    }
    let before = head + persona.name@ + dot + topics;
    if n == 1 {
        assert(r@ == before + dot + "1 past session"@ + none + none);
    } else {
        assert(r@ == before + dot + text::decimal(n as nat) + " past sessions"@ + none);
    }
}

/// Follow-ups are shown numbered from one, each with its own answer where there is one.
pub proof fn law_questions_and_answers(
    followups: &Vec<String>,
    answers: &Vec<String>,
    r: Vec<(String, Option<String>)>,
    i: int,
)
    requires
        call_ensures(crate::labels::questions_and_answers, (followups, answers), r),
        0 <= i < followups@.len(),
    ensures
        r@.len() == followups@.len(),
        r@[i].0@ == "Q"@ + (text::decimal((i + 1) as nat) + (": "@ + followups@[i]@)),
        i < answers@.len() ==> (r@[i].1 matches Some(a) && a@ == answers@[i]@),
        i >= answers@.len() ==> r@[i].1 is None,
{
    crate::labels::law_questions_are_numbered_from_one(i as nat, followups@[i]@);
}

/// A measurement is shown under its own name.
pub proof fn law_shown_measurements(m: &DeliveryMetrics, r: Vec<(&'static str, String)>)
    requires
        call_ensures(crate::labels::metric_chips, (m,), r),
    ensures
        r@.len() == 7,
        exists|i: int|
            0 <= i < 7 && (#[trigger] r@[i]).0@ == "Pace"@ && r@[i].1@ == m.words_per_minute.shown@
                + " wpm"@,
        exists|i: int|
            0 <= i < 7 && (#[trigger] r@[i]).0@ == "Fillers"@ && r@[i].1@ == text::decimal(
                m.filler_count as nat,
            ),
        exists|i: int|
            0 <= i < 7 && (#[trigger] r@[i]).0@ == "Long pauses"@ && r@[i].1@ == text::decimal(
                m.long_pause_count as nat,
            ),
        exists|i: int|
            0 <= i < 7 && (#[trigger] r@[i]).0@ == "Pause time"@ && r@[i].1@
                == m.total_pause_secs.shown@ + "s"@,
        exists|i: int|
            0 <= i < 7 && (#[trigger] r@[i]).0@ == "Energy CV"@ && r@[i].1@ == m.energy_cv.shown@,
        exists|i: int|
            0 <= i < 7 && (#[trigger] r@[i]).0@ == "Words"@ && r@[i].1@ == text::decimal(
                m.words as nat,
            ),
        exists|i: int|
            0 <= i < 7 && (#[trigger] r@[i]).0@ == "Duration"@ && r@[i].1@
                == m.duration_secs.shown@ + "s"@,
{
    assert(r@[0].0@ == "Duration"@ && r@[1].0@ == "Words"@ && r@[2].0@ == "Pace"@);
    assert(r@[3].0@ == "Long pauses"@ && r@[4].0@ == "Pause time"@);
    assert(r@[5].0@ == "Energy CV"@ && r@[6].0@ == "Fillers"@);
}

/// The button to the past sessions counts them, where there are any.
pub proof fn law_history_label(n: usize, r: String)
    requires
        call_ensures(crate::labels::history_label, (n,), r),
    ensures
        n == 0 ==> r@ == "📜  Past exercises"@,
        n > 0 ==> text::stands_under(r@, " ("@, text::decimal(n as nat), ")"@) && text::begins_with(
            r@,
            "📜  Past exercises"@,
        ),
{
    let none = Seq::<char>::empty();
    let head = "📜  Past exercises"@;
    if n > 0 {
        let open = " ("@;
        let close = ")"@;
        assert(r@ == head + open + text::decimal(n as nat) + close + none);
        text::law_parts_are_parts(r@, head);
        assert(r@ == head + (open + text::decimal(n as nat) + close));
    }
}

/// A follow-up is counted from one, among all of them.
pub proof fn law_followup_lines(current: usize, followups: usize, line: String, busy: String)
    requires
        call_ensures(crate::labels::followup_line, (current, followups), line),
        call_ensures(crate::labels::transcribing_line, (current, followups), busy),
    ensures
        text::stands_under(line@, "Follow-up "@, text::decimal((current + 1) as nat), " of "@),
        text::stands_under(line@, " of "@, text::decimal(followups as nat), seq![]),
        text::stands_under(
            busy@,
            "Transcribing follow-up "@,
            text::decimal((current + 1) as nat),
            "/"@,
        ),
        text::stands_under(busy@, "/"@, text::decimal(followups as nat), "…"@),
{
    let none = Seq::<char>::empty();
    let n = text::decimal((current + 1) as nat);
    let all = text::decimal(followups as nat);
    let a = "Follow-up "@;
    let b = " of "@;
    let c = "Transcribing follow-up "@;
    let d = "/"@;
    let e = "…"@;
    assert(line@ == none + a + n + b + all);
    assert(line@ == (a + n) + b + all + none + none);
    assert(busy@ == none + c + n + d + (all + e));
    assert(busy@ == (c + n) + d + all + e + none);
}

/// A past session is listed by its theme and, below it, by when it ended.
pub proof fn law_session_label(theme: &str, timestamp: &str, r: String)
    requires
        call_ensures(crate::labels::session_label, (theme, timestamp), r),
    ensures
        theme@.len() > 0 ==> r@ == theme@ + ("\n"@ + timestamp@),
        theme@.len() == 0 ==> r@ == "(untitled)"@ + ("\n"@ + timestamp@),
{
    if theme@.len() > 0 {
        assert(r@ == theme@ + ("\n"@ + timestamp@));
    } else {
        let head = "(untitled)"@;
        assert(r@ == head + ("\n"@ + timestamp@));
    }
}

/// The line about the last session names each number by what it counts.
#[verifier::rlimit(50)]
pub proof fn law_latest_line(timestamp: &str, m: &DeliveryMetrics, r: String)
    requires
        call_ensures(crate::labels::latest_line, (timestamp, m), r),
    ensures
        text::stands_under(r@, "Latest ("@, timestamp@, "): "@),
        text::stands_under(r@, "): "@, m.words_per_minute.shown@, " wpm · "@),
        text::stands_under(r@, " wpm · "@, text::decimal(m.filler_count as nat), " fillers · "@),
        text::stands_under(
            r@,
            " fillers · "@,
            text::decimal(m.long_pause_count as nat),
            " long pauses · CV "@,
        ),
        text::stands_under(r@, " long pauses · CV "@, m.energy_cv.shown@, seq![]),
{
    let none = Seq::<char>::empty();
    let a = "Latest ("@;
    let b = "): "@;
    let c = " wpm · "@;
    let d = " fillers · "@;
    let e = " long pauses · CV "@;
    let t = timestamp@;
    let pace = m.words_per_minute.shown@;
    let fillers = text::decimal(m.filler_count as nat);
    let pauses = text::decimal(m.long_pause_count as nat);
    let cv = m.energy_cv.shown@;
    assert(r@ == none + a + t + b + (pace + c + fillers + d + pauses + e + cv));
    assert(r@ == (a + t) + b + pace + c + (fillers + d + pauses + e + cv));
    assert(r@ == (a + t + b + pace) + c + fillers + d + (pauses + e + cv));
    assert(r@ == (a + t + b + pace + c + fillers) + d + pauses + e + cv);
    assert(r@ == (a + t + b + pace + c + fillers + d + pauses) + e + cv + none + none);
}

/// The active persona is marked in the list, and only it.
pub proof fn law_persona_label(name: &str, is_active: bool, r: String)
    requires
        call_ensures(crate::labels::persona_label, (name, is_active), r),
    ensures
        is_active ==> r@ == "●  "@ + name@,
        !is_active ==> r@ == "○  "@ + name@,
{
}

/// A voice is shown with its number and its name.
pub proof fn law_voice_line(voice_id: u32, r: String, name: &'static str)
    requires
        call_ensures(crate::labels::voice_line, (voice_id,), r),
        call_ensures(crate::personas::voice_label, (voice_id,), name),
    ensures
        r@ == text::decimal(voice_id as nat) + " — "@ + name@,
        voice_id == 0 ==> name@ == "af"@,
        voice_id == 5 ==> name@ == "am_adam"@,
        voice_id == 10 ==> name@ == "bm_lewis"@,
        voice_id > 10 ==> name@ == "unknown"@,
{
    crate::personas::law_voices_have_their_names(voice_id as int);
}

/// What the programs say of themselves is all that they printed, or why they could not be
/// run.
pub proof fn law_help_text(run: Result<(String, String), String>, r: String)
    requires
        call_ensures(stt::help_text, (run,), r),
    ensures
        run matches Ok((stdout, stderr)) ==> {
            &&& text::begins_with(r@, stdout@)
            &&& r@.skip(stdout@.len() as int) == stderr@
        },
        run matches Err(e) ==> text::stands_under(r@, "Error running --help: "@, e@, seq![]),
{
    if let Ok((stdout, stderr)) = run {
        text::law_parts_are_parts(r@, stdout@);
        assert((stdout@ + stderr@).skip(stdout@.len() as int) == stderr@);
    }
    if let Err(e) = run {
        let none = Seq::<char>::empty();
        let a = "Error running --help: "@;
        assert(r@ == none + a + e@ + none + none);
    }
}

/// The Python program knows a model by its file name, without the other program's mark.
pub proof fn law_model_name(stem: Option<&str>, r: String, name: Seq<char>)
    requires
        call_ensures(stt::model_name, (stem,), r),
    ensures
        stem is None ==> r@ == "base"@,
        stem matches Some(s) ==> {
            &&& s@ == "ggml-"@ + name ==> r@ == name
            &&& (forall|rest: Seq<char>| s@ != #[trigger] ("ggml-"@ + rest)) ==> r@ == s@
        },
{
    if let Some(s) = stem {
        stt::law_model_mark_is_dropped(s@, name);
    }
}

/// Sound files and recordings made at different times have different names.
pub proof fn law_temporary_names_differ(a: u128, b: u128, x: String, y: String)
    requires
        call_ensures(stt::temp_wav_name, (a,), x),
        call_ensures(stt::temp_wav_name, (b,), y),
    ensures
        a != b ==> x@ != y@,
        text::stands_under(x@, "speakflow-"@, text::decimal(a as nat), ".wav"@),
{
    let none = Seq::<char>::empty();
    let head = "speakflow-"@;
    let tail = ".wav"@;
    let m = text::decimal(a as nat);
    let n = text::decimal(b as nat);
    assert(x@ == none + head + m + tail + none);
    if x@ == y@ {
        let k = head.len() as int;
        assert(m.len() == n.len());
        assert(x@.subrange(k, (k + m.len()) as int) == m);
        assert(y@.subrange(k, (k + n.len()) as int) == n);
        text::law_decimals_differ(a as nat, b as nat);
    }
}

/// A session that ends now holds all that was said, each part in its place.
pub proof fn law_session_ends_now(
    clock: Option<u64>,
    theme: String,
    prompt: String,
    transcript: String,
    followups: Vec<String>,
    followup_answers: Vec<String>,
    metrics: DeliveryMetrics,
    feedback: String,
    persona_name: String,
    r: Session,
)
    requires
        call_ensures(
            Session::now,
            (
                clock,
                theme,
                prompt,
                transcript,
                followups,
                followup_answers,
                metrics,
                feedback,
                persona_name,
            ),
            r,
        ),
    ensures
        r.theme == theme && r.prompt == prompt && r.transcript == transcript,
        r.followups == followups && r.followup_answers == followup_answers,
        r.metrics == metrics && r.feedback == feedback && r.persona_name == persona_name,
        clock is None ==> r.timestamp == 0,
        clock matches Some(secs) ==> secs <= i64::MAX ==> r.timestamp == secs,
{
}

/// What is shown while a reply arrives grows by its fragments alone; the end of the reply
/// is handed on as it came.
pub proof fn law_live_text_grows(
    buffer: &mut crate::llm::StreamBuffer,
    update: LlmUpdate,
    r: Option<Result<String, String>>,
)
    requires
        call_ensures(crate::llm::StreamBuffer::take_in, (buffer, update), r),
    ensures
        update matches LlmUpdate::Token(t) ==> final(buffer).text@ == old(buffer).text@ + t@ && r
            is None,
        update matches LlmUpdate::Done(t) ==> final(buffer).text@ == old(buffer).text@ && r == Some(
            Ok::<String, String>(t),
        ),
        update matches LlmUpdate::Error(t) ==> final(buffer).text@ == old(buffer).text@ && r
            == Some(Err::<String, String>(t)),
{
    match update {
        LlmUpdate::Token(t) => {
            crate::llm::law_only_fragments_are_shown(old(buffer).text@, t@);
        },
        LlmUpdate::Done(t) => {
            crate::llm::law_only_fragments_are_shown(old(buffer).text@, t@);
        },
        LlmUpdate::Error(t) => {
            crate::llm::law_only_fragments_are_shown(old(buffer).text@, t@);
        },
    }
}

/// Where there is nothing to play on, no request is left and no clip, and nobody waits for
/// one; a sound file that is being made is still waited for.
pub proof fn law_discarded_requests(player: &mut tts::Player)
    requires
        call_ensures(tts::Player::discard, (player,), ()),
        old(player).wf(),
    ensures
        final(player).wf(),
        final(player).queue@.len() == 0 && !final(player).loaded,
        final(player).making == old(player).making && final(player).next == old(player).next,
        old(player).making is Some ==> final(player).busy,
        old(player).making is None && (old(player).loaded || exists|i: int|
            0 <= i < old(player).queue@.len() && #[trigger] old(player).queue@[i] is Play)
            ==> !final(player).busy,
{
}

/// A clip that could not be played is none, and the player waits only for a sound file
/// that is being made.
pub proof fn law_clip_fails(player: &mut tts::Player)
    requires
        call_ensures(tts::Player::start_failed, (player,), ()),
    ensures
        !final(player).loaded,
        final(player).busy <==> old(player).making is Some,
        final(player).queue == old(player).queue,
        final(player).making == old(player).making && final(player).next == old(player).next,
{
}

/// A copy of metrics says the same as the metrics.
pub proof fn law_copied_metrics(metrics: &DeliveryMetrics, copy: DeliveryMetrics, x: String, y: String)
    requires
        call_ensures(DeliveryMetrics::clone, (metrics,), copy),
        call_ensures(DeliveryMetrics::for_prompt, (metrics,), x),
        call_ensures(DeliveryMetrics::for_prompt, (&copy,), y),
    ensures
        x@ == y@,
        copy.words == metrics.words && copy.filler_count == metrics.filler_count,
        copy.long_pause_count == metrics.long_pause_count,
        copy.duration_secs.bits == metrics.duration_secs.bits,
        copy.words_per_minute.bits == metrics.words_per_minute.bits,
        copy.energy_cv.bits == metrics.energy_cv.bits,
{
    analysis::law_same_metrics_agree(
        *metrics,
        copy,
        metrics.duration_secs,
        copy.duration_secs,
    );
}

/// A draft for a new persona is empty.
pub proof fn law_new_draft(draft: PersonaDraft)
    requires
        call_ensures(PersonaDraft::new, (), draft),
    ensures
        draft.edit_idx is None && draft.voice_id == 0,
        draft.name@.len() == 0 && draft.description@.len() == 0,
        draft.topics_text@.len() == 0 && draft.background@.len() == 0,
{
}

/// A draft can be saved if and only if its name is more than white space.
pub proof fn law_savable_draft(draft: &PersonaDraft, r: bool)
    requires
        call_ensures(PersonaDraft::can_save, (draft,), r),
    ensures
        r <==> exists|i: int|
            0 <= i < draft.name@.len() && !text::is_space(#[trigger] draft.name@[i]),
{
    crate::draft::law_only_a_name_is_needed(*draft);
}

/// What a persona consists of: its topics, whether it knows anything of the user, and its
/// exercises.
#[verifier::rlimit(50)]
pub proof fn law_persona_details(persona: &Persona, n: usize, r: String)
    requires
        call_ensures(crate::labels::persona_details, (persona, n), r),
    ensures
        text::trimmed(persona.background@).len() > 0 ==> text::stands_under(
            r@,
            " · "@,
            "background provided"@,
            " · "@,
        ),
        text::trimmed(persona.background@).len() == 0 ==> text::stands_under(
            r@,
            " · "@,
            "no background"@,
            " · "@,
        ),
        n == 1 ==> text::stands_under(r@, " · "@, "1 exercise"@, seq![]),
        n != 1 ==> text::stands_under(r@, " · "@, text::decimal(n as nat), " exercises"@),
{
    let none = Seq::<char>::empty();
    let dot = " · "@;
    let topics = crate::labels::counted(persona.topics@.len() as int, "topic"@);
    let exercises = crate::labels::counted(n as int, "exercise"@);
    let known = if text::trimmed(persona.background@).len() > 0 {
        "background provided"@
    } else {
        "no background"@
    };
    crate::labels::law_one_is_no_plural(n as nat, "exercise"@);
    reveal_strlit("1 ");
    reveal_strlit(" ");
    reveal_strlit("s");
    reveal_strlit("exercise");
    reveal_strlit("1 exercise");
    reveal_strlit(" exercises");
    assert("1 exercise"@ == "1 "@ + "exercise"@);
    assert(" exercises"@ == " "@ + "exercise"@ + "s"@);
    assert(r@ == topics + dot + known + dot + exercises);
    let before = topics + dot + known;
    if n == 1 {
        assert(r@ == before + dot + "1 exercise"@ + none + none);
    } else {
        assert(r@ == before + dot + text::decimal(n as nat) + " exercises"@ + none);
    }
}

/// The line above the past sessions counts them, and says where they are plotted.
#[verifier::rlimit(50)]
pub proof fn law_sessions_line(name: &str, n: usize, plotted: bool, r: String)
    requires
        call_ensures(crate::labels::sessions_line, (name, n, plotted), r),
    ensures
        n == 1 && plotted ==> r@ == name@ + " · "@ + "1 session"@ + " plotted"@,
        n == 1 && !plotted ==> r@ == name@ + " · "@ + "1 session"@,
        n != 1 && plotted ==> r@ == name@ + " · "@ + text::decimal(n as nat)
            + " sessions plotted"@,
        n != 1 && !plotted ==> r@ == name@ + " · "@ + text::decimal(n as nat) + " sessions"@,
{
    crate::labels::law_one_is_no_plural(n as nat, "session"@);
    reveal_strlit("");
    reveal_strlit("1 ");
    reveal_strlit(" ");
    reveal_strlit("s");
    reveal_strlit("session");
    reveal_strlit("1 session");
    reveal_strlit(" sessions");
    reveal_strlit(" plotted");
    reveal_strlit(" sessions plotted");
    assert("1 session"@ == "1 "@ + "session"@);
    assert(" sessions"@ == " "@ + "session"@ + "s"@);
    assert(" sessions plotted"@ == " sessions"@ + " plotted"@);
    let dot = " · "@;
    let count = crate::labels::counted(n as int, "session"@);
    if n != 1 {
        assert(count == text::decimal(n as nat) + " sessions"@);
        if plotted {
            assert(name@ + dot + count + " plotted"@ == name@ + dot + text::decimal(n as nat)
                + " sessions plotted"@);
        } else {
            assert(name@ + dot + count + ""@ == name@ + dot + text::decimal(n as nat)
                + " sessions"@);
        }
    } else if !plotted {
        assert(name@ + dot + count + ""@ == name@ + dot + "1 session"@);
    }
}

/// Where there are no past sessions, or nothing was transcribed, that is said.
pub proof fn law_nothing_to_show(
    name: &str,
    plotted: bool,
    r: String,
    transcript: &str,
    shown: String,
)
    requires
        call_ensures(crate::labels::no_sessions_line, (name, plotted), r),
        call_ensures(crate::labels::test_line, (transcript,), shown),
    ensures
        plotted ==> text::stands_under(r@, "Nothing to chart for "@, name@, " yet."@),
        !plotted ==> text::stands_under(r@, "No past exercises for "@, name@, " yet."@),
        transcript@.len() == 0 ==> shown@ == "(Empty transcript text)"@,
        transcript@.len() > 0 ==> text::stands_under(shown@, "Cleaned: "@, transcript@, seq![]),
{
    let none = Seq::<char>::empty();
    let a = "Nothing to chart for "@;
    let b = "No past exercises for "@;
    let end = " yet."@;
    if plotted {
        assert(r@ == none + a + name@ + end + none);
    } else {
        assert(r@ == none + b + name@ + end + none);
    }
    if transcript@.len() > 0 {
        let c = "Cleaned: "@;
        assert(shown@ == none + c + transcript@ + none + none);
    }
}

/// A model is where a variable says, and otherwise where it usually is.
pub proof fn law_place_of_a_model<P>(named: Option<P>, usual: Option<P>, r: Result<P, String>)
    requires
        call_ensures(crate::tools::resolve_model_place::<P>, (named, usual), r),
    ensures
        r is Err <==> named is None && usual is None,
        r matches Ok(path) ==> named == Some(path) || (named is None && usual == Some(path)),
        r matches Err(e) ==> e@ == "no config dir"@,
{
}

/// The recording is what a program is run on, and the threads are as many as were asked
/// for. The C++ program gets its model by its place, the other one by its name.
#[verifier::rlimit(50)]
pub proof fn law_arguments_for_a_transcript<P>(
    program: &stt::Transcriber<P>,
    threads: usize,
    stem: Option<&str>,
    r: Vec<stt::CliArg>,
    name: String,
)
    requires
        call_ensures(stt::Transcriber::<P>::arguments, (program, threads, stem), r),
        call_ensures(stt::model_name, (stem,), name),
    ensures
        r@.len() >= 9,
        r@.last()@ == stt::ArgModel::AudioPath,
        follows(r@, "--threads"@, stt::ArgModel::Text(text::decimal(threads as nat))),
        follows(r@, "--language"@, stt::ArgModel::Text("en"@)),
        program.dialect == WhisperDialect::Cpp ==> follows(
            r@,
            "--model"@,
            stt::ArgModel::ModelPath,
        ),
        program.dialect == WhisperDialect::OpenAi ==> follows(
            r@,
            "--model"@,
            stt::ArgModel::Text(name@),
        ) && follows(r@, "--output_format"@, stt::ArgModel::Text("txt"@)) && follows(
            r@,
            "--device"@,
            stt::ArgModel::Text("cpu"@),
        ),
{
    let models = stt::arg_models(r@);
    assert(models.len() == r@.len());
    assert(models[models.len() - 1] == r@[r@.len() - 1]@);
    assert(models[0] == r@[0]@ && models[1] == r@[1]@);
    assert(models[2] == r@[2]@ && models[3] == r@[3]@);
    assert(models[4] == r@[4]@ && models[5] == r@[5]@);
    assert(is_pair(r@, 0, "--model"@, r@[1]@));
    assert(is_pair(r@, 2, "--language"@, stt::ArgModel::Text("en"@)));
    assert(is_pair(r@, 4, "--threads"@, stt::ArgModel::Text(text::decimal(threads as nat))));
    if program.dialect == WhisperDialect::OpenAi {
        assert(models[6] == r@[6]@ && models[7] == r@[7]@);
        assert(models[10] == r@[10]@ && models[11] == r@[11]@);
        assert(is_pair(r@, 6, "--device"@, stt::ArgModel::Text("cpu"@)));
        assert(is_pair(r@, 10, "--output_format"@, stt::ArgModel::Text("txt"@)));
    }
}

/// Whether an option stands at a position and its value right behind it.
pub open spec fn is_pair(
    args: Seq<stt::CliArg>,
    i: int,
    option: Seq<char>,
    value: stt::ArgModel,
) -> bool {
    0 <= i < args.len() - 1 && args[i]@ == stt::ArgModel::Text(option) && args[i + 1]@ == value
}

/// Whether an option is given with a value.
pub open spec fn follows(args: Seq<stt::CliArg>, option: Seq<char>, value: stt::ArgModel) -> bool {
    exists|i: int| #[trigger] is_pair(args, i, option, value)
}

/// The speech program is told its files, the voice and where the sound goes; the text
/// comes last and unchanged.
pub proof fn law_arguments_for_speech<P>(
    program: &tts::Tts<P>,
    said: &str,
    voice_id: u32,
    out_path: &str,
    r: Vec<String>,
)
    requires
        call_ensures(tts::Tts::<P>::arguments, (program, said, voice_id, out_path), r),
    ensures
        r@.len() == 8,
        r@.last()@ == said@,
        text::texts(r@).contains("--sid="@ + text::decimal(voice_id as nat)),
        text::texts(r@).contains("--output-filename="@ + out_path@),
        text::texts(r@).contains("--num-threads="@ + text::decimal(program.threads as nat)),
        text::texts(r@).contains("--kokoro-model="@ + program.files.model.shown@),
        text::texts(r@).contains("--kokoro-voices="@ + program.files.voices.shown@),
        text::texts(r@).contains("--kokoro-tokens="@ + program.files.tokens.shown@),
        text::texts(r@).contains("--kokoro-data-dir="@ + program.files.data.shown@),
{
    let t = text::texts(r@);
    assert(t.len() == r@.len());
    assert(t[7] == r@[7]@);
    assert(t[0] == "--kokoro-model="@ + program.files.model.shown@);
    assert(t[1] == "--kokoro-voices="@ + program.files.voices.shown@);
    assert(t[2] == "--kokoro-tokens="@ + program.files.tokens.shown@);
    assert(t[3] == "--kokoro-data-dir="@ + program.files.data.shown@);
    assert(t[4] == "--num-threads="@ + text::decimal(program.threads as nat));
    assert(t[5] == "--sid="@ + text::decimal(voice_id as nat));
    assert(t[6] == "--output-filename="@ + out_path@);
}

/// The topic of an exercise is one of the persona's, or the open one where it has none.
pub proof fn law_picked_topic(persona: &Persona, r: String)
    requires
        call_ensures(coach::pick_topic, (persona,), r),
    ensures
        persona.topics@.len() == 0 ==> r@ == "An open-ended speaking prompt"@,
        persona.topics@.len() > 0 ==> exists|i: int|
            0 <= i < persona.topics@.len() && (#[trigger] persona.topics@[i])@ == r@,
{
    if persona.topics@.len() > 0 {
        let topics = text::texts(persona.topics@);
        let i = choose|i: int| 0 <= i < topics.len() && topics[i] == r@;
        assert(persona.topics@[i]@ == r@);
    }
}

/// The active persona is the one at the active position, or the last one where that is past
/// the end.
pub proof fn law_active_persona(store: &PersonaStore, r: &Persona)
    requires
        call_ensures(PersonaStore::active, (store,), r),
        store.personas@.len() > 0,
    ensures
        store.active < store.personas@.len() ==> *r == store.personas@[store.active as int],
        store.active >= store.personas@.len() ==> *r == store.personas@.last(),
{
}

/// Pieces of an answer are gathered in the order in which they come, and the reply is what
/// has arrived when the answer ends.
pub proof fn law_gathered_pieces(
    stream: &mut ChatStream,
    bytes: &[u8],
    ended: ChatStream,
    last: LlmUpdate,
)
    requires
        call_ensures(ChatStream::receive, (stream, bytes), ()),
        call_ensures(ChatStream::end, (ended,), last),
    ensures
        final(stream).pending@.take(old(stream).pending@.len() as int) == old(stream).pending@,
        final(stream).pending@.skip(old(stream).pending@.len() as int) == bytes@,
        final(stream).full@ == old(stream).full@,
        last@ == UpdateModel::Done(ended.full@),
{
}

/// A sound file that is to be played comes after all that was asked for before, and nothing
/// else changes.
pub proof fn law_asked_to_play(player: &mut tts::Player, bytes: Vec<u8>)
    requires
        call_ensures(tts::Player::play_wav_bytes, (player, bytes), ()),
    ensures
        final(player).queue@.len() == old(player).queue@.len() + 1,
        final(player).queue@.last() == tts::PlayCmd::Play(bytes),
        final(player).queue@.drop_last() == old(player).queue@,
        final(player).busy == old(player).busy && final(player).loaded == old(player).loaded,
        final(player).making == old(player).making && final(player).next == old(player).next,
{
}

} // verus!
