//! What the coach asks the model, and how its reply is read.
//!
//! The coaching style comes from the active persona; the rules on tone and on the
//! form of the reply are the same for all of them.

use vstd::prelude::*;

use crate::analysis::DeliveryMetrics;
use crate::llm::ChatMessage;
use crate::personas;
use crate::personas::Persona;
use crate::text;

verus! {

/// How a system prompt begins.
pub const SYSTEM_OPENING: &'static str = "You are ";

/// The rules that every coach keeps to.
pub const SYSTEM_RULES: &'static str = ". Your bar is high. Avoid platitudes, generic encouragement, and filler praise. Be specific, candid, and concise. Speak to them as a peer-level coach.";

/// What introduces the background on the user.
pub const SYSTEM_BACKGROUND: &'static str = "\n\nBackground on your client (use this to ground your feedback):\n";

/// Asks for an exercise; the topic follows.
pub const THEME_OPENING: &'static str = "Propose ONE speaking exercise for today's session in the area: \"";

/// How the exercise is to be written down.
pub const THEME_RULES: &'static str = "\".\n\nFormat your reply EXACTLY as:\nTHEME: <a 4–8 word title>\nPROMPT: <one to two sentences asking the client to speak for 1–3 minutes on something concrete — a position to take, a story to tell, or a specific scenario to navigate. Not a definition or textbook recap.>\n\nNo preamble, no closing remarks.";

/// Asks for follow-up questions; the theme follows.
pub const FOLLOWUP_OPENING: &'static str = "The speaker just answered the following exercise.\n\nTHEME: ";

/// What introduces the exercise.
pub const FOLLOWUP_PROMPT: &'static str = "\nORIGINAL PROMPT: ";

/// What introduces the answer.
pub const FOLLOWUP_TRANSCRIPT: &'static str = "\n\nWHAT THEY SAID (auto-transcribed, may have minor STT errors):\n---\n";

/// How the questions are to be written down.
pub const FOLLOWUP_RULES: &'static str = "\n---\n\nWrite 1 to 3 sharp follow-up questions a thoughtful listener would ask after hearing that answer. Each question should probe a weak point, an unstated assumption, or something they glossed over. Number them. No preamble. Maximum 3 questions.";

/// Asks for feedback; the theme follows.
pub const FEEDBACK_OPENING: &'static str = "Provide structured spoken-communication feedback on the answer below.\n\nTHEME: ";

/// What introduces the exercise.
pub const FEEDBACK_PROMPT: &'static str = "\nORIGINAL PROMPT: ";

/// What introduces the answer.
pub const FEEDBACK_TRANSCRIPT: &'static str = "\n\nAUTO-TRANSCRIPT (verbatim, may include STT errors — do not nitpick spelling):\n---\n";

/// What introduces the metrics.
pub const FEEDBACK_METRICS: &'static str = "\n---\n\nMEASURED DELIVERY METRICS (computed from the audio):\n---\n";

/// How the feedback is to be written down.
pub const FEEDBACK_RULES: &'static str = "\n---\n\nReference numbers for context: a comfortable speaking pace is 130–160 wpm; frequent mid-utterance pauses can either signal weight or hesitation; energy_coefficient_of_variation below ~0.4 tends to read as monotone; more than ~3 fillers per minute starts to undercut presence.\n\nProduce feedback in EXACTLY this format using markdown headings:\n\n## Overall impression\nTwo sentences. State the strongest thing and the single biggest issue.\n\n## Pace & rhythm\nReference the measured wpm and pause behaviour. Say what to adjust.\n\n## Articulation & clarity\nComment on whether ideas landed crisply. Quote (briefly) any sentence that was structurally muddled and rewrite it more cleanly.\n\n## Intonation & energy\nUse the energy variation metric. If monotone, suggest where to vary. If varied well, say where it worked.\n\n## Filler words & verbal tics\nReference the measured filler counts. Be specific.\n\n## Substance\nWas the position or story clear? Did key ideas land? Would this work for the intended audience for this persona? Be candid.\n\n## One thing to practise next time\nA single, concrete drill they can run in 5 minutes.\n\nBe tight — the entire response should fit in roughly 350–500 words. No closing pep-talk.";

/// Picks one of a persona's topics by chance; the open one where it has none.
pub fn pick_topic(persona: &Persona) -> (r: String)
    ensures
        persona.topics@.len() == 0 ==> r@ == personas::OPEN_TOPIC@,
        persona.topics@.len() > 0 ==> text::texts(persona.topics@).contains(r@),
{
    personas::pick_random_topic(persona)
}

/// The system prompt for a persona: its description and, where there is one, its
/// background, without the white space around them.
pub open spec fn system_text(persona: Persona) -> Seq<char> {
    let shell = SYSTEM_OPENING@ + text::trimmed(persona.description@) + SYSTEM_RULES@;
    let background = text::trimmed(persona.background@);
    if background.len() > 0 {
        shell + SYSTEM_BACKGROUND@ + background
    } else {
        shell
    }
}

/// Builds the system prompt for a persona.
pub fn coach_system(persona: &Persona) -> (r: String)
    ensures
        r@ == system_text(*persona),
{
    let mut out = String::from_str(SYSTEM_OPENING);
    let description = text::trim_text(persona.description.as_str());
    out.append(description.as_str());
    out.append(SYSTEM_RULES);
    let background = text::trim_text(persona.background.as_str());
    if !background.as_str().is_empty() {
        out.append(SYSTEM_BACKGROUND);
        out.append(background.as_str());
    }
    out
}

/// Whether the messages are a persona's system prompt followed by one from the user.
pub open spec fn asks(messages: Seq<ChatMessage>, persona: Persona, question: Seq<char>) -> bool {
    &&& messages.len() == 2
    &&& messages[0].says("system"@, system_text(persona))
    &&& messages[1].says("user"@, question)
}

fn ask(persona: &Persona, question: String) -> (r: Vec<ChatMessage>)
    ensures
        asks(r@, *persona, question@),
{
    let mut out: Vec<ChatMessage> = Vec::new();
    out.push(ChatMessage::system(coach_system(persona)));
    out.push(ChatMessage::user(question));
    out
}

/// The question for an exercise on a topic.
pub open spec fn theme_question(bucket: Seq<char>) -> Seq<char> {
    THEME_OPENING@ + bucket + THEME_RULES@
}

/// Asks for one speaking exercise on a topic.
pub fn theme_messages(persona: &Persona, bucket: &str) -> (r: Vec<ChatMessage>)
    ensures
        asks(r@, *persona, theme_question(bucket@)),
{
    let mut q = String::from_str(THEME_OPENING);
    q.append(bucket);
    q.append(THEME_RULES);
    ask(persona, q)
}

/// The question for follow-ups to an answer.
pub open spec fn followup_question(
    theme: Seq<char>,
    prompt: Seq<char>,
    transcript: Seq<char>,
) -> Seq<char> {
    FOLLOWUP_OPENING@ + theme + FOLLOWUP_PROMPT@ + prompt + FOLLOWUP_TRANSCRIPT@ + transcript
        + FOLLOWUP_RULES@
}

/// Asks for one to three follow-up questions on what was said.
pub fn followup_messages(
    persona: &Persona,
    theme: &str,
    prompt: &str,
    transcript: &str,
) -> (r: Vec<ChatMessage>)
    ensures
        asks(r@, *persona, followup_question(theme@, prompt@, transcript@)),
{
    let mut q = String::from_str(FOLLOWUP_OPENING);
    q.append(theme);
    q.append(FOLLOWUP_PROMPT);
    q.append(prompt);
    q.append(FOLLOWUP_TRANSCRIPT);
    q.append(transcript);
    q.append(FOLLOWUP_RULES);
    ask(persona, q)
}

/// The question for feedback on an answer and how it was delivered.
pub open spec fn feedback_question(
    theme: Seq<char>,
    prompt: Seq<char>,
    transcript: Seq<char>,
    metrics: DeliveryMetrics,
) -> Seq<char> {
    FEEDBACK_OPENING@ + theme + FEEDBACK_PROMPT@ + prompt + FEEDBACK_TRANSCRIPT@ + transcript
        + FEEDBACK_METRICS@ + metrics.prompt_text() + FEEDBACK_RULES@
}

/// Asks for the final feedback. The measured delivery goes into the question, so
/// that the reply can rest on data.
pub fn feedback_messages(
    persona: &Persona,
    theme: &str,
    prompt: &str,
    transcript: &str,
    metrics: &DeliveryMetrics,
) -> (r: Vec<ChatMessage>)
    ensures
        asks(r@, *persona, feedback_question(theme@, prompt@, transcript@, *metrics)),
{
    let mut q = String::from_str(FEEDBACK_OPENING);
    q.append(theme);
    q.append(FEEDBACK_PROMPT);
    q.append(prompt);
    q.append(FEEDBACK_TRANSCRIPT);
    q.append(transcript);
    q.append(FEEDBACK_METRICS);
    let block = metrics.for_prompt();
    q.append(block.as_str());
    q.append(FEEDBACK_RULES);
    ask(persona, q)
}

// ---------------------------------------------------------------- reading the proposal

/// The theme of an exercise that was proposed without one.
pub const UNNAMED_THEME: &'static str = "Speaking exercise";

/// What is known of the exercise once a further line is read. A line that names
/// the theme or the prompt sets it; once there is a prompt, any other line that
/// is not blank goes on with it.
pub open spec fn read_line(known: (Seq<char>, Seq<char>), line: Seq<char>) -> (
    Seq<char>,
    Seq<char>,
) {
    let l = text::trimmed(line);
    if text::begins_with(l, "THEME:"@) || text::begins_with(l, "Theme:"@) {
        (text::trimmed(l.skip(6)), known.1)
    } else if text::begins_with(l, "PROMPT:"@) || text::begins_with(l, "Prompt:"@) {
        (known.0, text::trimmed(l.skip(7)))
    } else if known.1.len() > 0 && l.len() > 0 {
        (known.0, known.1.push(' ') + l)
    } else {
        known
    }
}

/// What the lines of a reply say of the exercise: its theme and its prompt.
pub open spec fn read_lines(lines: Seq<Seq<char>>) -> (Seq<char>, Seq<char>)
    decreases lines.len(),
{
    if lines.len() == 0 {
        (seq![], seq![])
    } else {
        read_line(read_lines(lines.drop_last()), lines.last())
    }
}

/// The theme that a reply proposes.
pub open spec fn proposed_theme(raw: Seq<char>) -> Seq<char> {
    let theme = read_lines(text::lines_of(raw)).0;
    if theme.len() == 0 {
        UNNAMED_THEME@
    } else {
        theme
    }
}

/// The prompt that a reply proposes: all of it where it names none.
pub open spec fn proposed_prompt(raw: Seq<char>) -> Seq<char> {
    let prompt = read_lines(text::lines_of(raw)).1;
    if prompt.len() == 0 {
        text::trimmed(raw)
    } else {
        prompt
    }
}

/// What follows either of two texts at the beginning of a line.
fn after_either<'a>(line: &'a [char], a: &str, b: &str) -> (r: Option<&'a [char]>)
    requires
        a@.len() == b@.len(),
    ensures
        r is Some <==> text::begins_with(line@, a@) || text::begins_with(line@, b@),
        r matches Some(rest) ==> rest@ == line@.skip(a@.len() as int),
{
    match text::strip_prefix(line, a) {
        Some(rest) => Some(rest),
        None => text::strip_prefix(line, b),
    }
}

/// Reads the theme and the prompt out of the model's proposal, and makes do with
/// what there is where it has another form.
pub fn parse_theme_response(raw: &str) -> (r: (String, String))
    ensures
        r.0@ == proposed_theme(raw@),
        r.1@ == proposed_prompt(raw@),
{
    proof {
        reveal_strlit("THEME:");
        reveal_strlit("Theme:");
        reveal_strlit("PROMPT:");
        reveal_strlit("Prompt:");
    }
    let chars = text::to_chars(raw);
    let lines = text::lines(chars.as_slice());
    let ghost all = text::lines_of(raw@);
    let mut theme = String::new();
    let mut prompt = String::new();
    let mut i: usize = 0;
    while i < lines.len()
        invariant
            i <= lines.len(),
            text::slice_texts(lines@) == all,
            "THEME:"@.len() == 6 && "Theme:"@.len() == 6,
            "PROMPT:"@.len() == 7 && "Prompt:"@.len() == 7,
            (theme@, prompt@) == read_lines(all.take(i as int)),
        decreases lines.len() - i,
    {
        assert(all.take(i + 1).drop_last() == all.take(i as int));
        assert(all.take(i + 1).last() == lines@[i as int]@);
        let line = text::trim(lines[i]);
        if let Some(rest) = after_either(line, "THEME:", "Theme:") {
            theme = text::from_chars(text::trim(rest));
        } else if let Some(rest) = after_either(line, "PROMPT:", "Prompt:") {
            prompt = text::from_chars(text::trim(rest));
        } else if !prompt.as_str().is_empty() && line.len() > 0 {
            prompt.push(' ');
            let more = text::from_chars(line);
            prompt.append(more.as_str());
        }
        i += 1;
    }
    assert(all.take(all.len() as int) == all);
    if theme.as_str().is_empty() {
        theme = String::from_str(UNNAMED_THEME);
    }
    if prompt.as_str().is_empty() {
        prompt = text::trim_text(raw);
    }
    (theme, prompt)
}

/// Whether a line names the theme or the prompt.
pub open spec fn is_labelled(line: Seq<char>) -> bool {
    text::begins_with(line, "THEME:"@) || text::begins_with(line, "Theme:"@) || text::begins_with(
        line,
        "PROMPT:"@,
    ) || text::begins_with(line, "Prompt:"@)
}

/// The line that names a theme or a prompt.
pub open spec fn labelled(label: Seq<char>, value: Seq<char>) -> Seq<char> {
    label + " "@ + value
}

proof fn lemma_labelled(label: Seq<char>, value: Seq<char>)
    requires
        label == "THEME:"@ || label == "Theme:"@ || label == "PROMPT:"@ || label == "Prompt:"@,
        text::is_clean(value),
    ensures
        text::is_clean(labelled(label, value)),
        text::begins_with(labelled(label, value), label),
        text::trimmed(labelled(label, value).skip(label.len() as int)) == value,
        labelled(label, value)[0] == label[0],
{
    reveal_strlit("THEME:");
    reveal_strlit("Theme:");
    reveal_strlit("PROMPT:");
    reveal_strlit("Prompt:");
    reveal_strlit(" ");
    let line = labelled(label, value);
    text::lemma_trimmed(value);
    assert(line.last() == value.last());
    text::lemma_trimmed_fixed(line);
    assert forall|k: int| 0 <= k < line.len() implies line[k] != '\n' by {
        if k > label.len() {
            assert(line[k] == value[k - label.len() - 1]);
            assert(value.contains(value[k - label.len() - 1]));
        }
    }
    assert(line.skip(label.len() as int) == seq![' '] + value);
    lemma_trim_after_space(value);
}

proof fn lemma_read_on(
    first: Seq<char>,
    second: Seq<char>,
    more: Seq<Seq<char>>,
    theme: Seq<char>,
    prompt: Seq<char>,
)
    requires
        read_lines(seq![first, second]) == (theme, prompt),
        prompt.len() > 0,
        forall|i: int|
            0 <= i < more.len() ==> text::is_clean(#[trigger] more[i]) && !is_labelled(more[i]),
    ensures
        read_lines(seq![first, second] + more) == (theme, text::joined(seq![prompt] + more, " "@)),
        text::joined(seq![prompt] + more, " "@).len() > 0,
    decreases more.len(),
{
    reveal_strlit(" ");
    let lines = seq![first, second] + more;
    let parts = seq![prompt] + more;
    if more.len() == 0 {
        assert(lines == seq![first, second]);
        assert(parts == seq![prompt]);
    } else {
        let fewer = more.drop_last();
        assert forall|i: int| 0 <= i < fewer.len() implies text::is_clean(#[trigger] fewer[i])
            && !is_labelled(fewer[i]) by {
            assert(fewer[i] == more[i]);
        }
        lemma_read_on(first, second, fewer, theme, prompt);
        let line = more[more.len() - 1];
        assert(text::is_clean(line) && !is_labelled(line));
        assert(lines.drop_last() == seq![first, second] + fewer);
        assert(lines.last() == line);
        assert(parts.drop_last() == seq![prompt] + fewer);
        assert(parts.last() == line);
        let known = text::joined(parts.drop_last(), " "@);
        assert(known.push(' ') + line == known + " "@ + line);
    }
}

/// A proposal in the form that is asked for is read as it is meant, whichever way the
/// labels are written. Lines that follow the prompt go on with it.
#[verifier::rlimit(50)]
pub proof fn law_proposal_is_read(
    theme_label: Seq<char>,
    theme: Seq<char>,
    prompt_label: Seq<char>,
    prompt: Seq<char>,
    more: Seq<Seq<char>>,
)
    requires
        theme_label == "THEME:"@ || theme_label == "Theme:"@,
        prompt_label == "PROMPT:"@ || prompt_label == "Prompt:"@,
        text::is_clean(theme),
        text::is_clean(prompt),
        forall|i: int|
            0 <= i < more.len() ==> text::is_clean(#[trigger] more[i]) && !is_labelled(more[i]),
    ensures
        ({
            let raw = text::joined(
                seq![labelled(theme_label, theme), labelled(prompt_label, prompt)] + more,
                "\n"@,
            );
            &&& proposed_theme(raw) == theme
            &&& proposed_prompt(raw) == text::joined(seq![prompt] + more, " "@)
        }),
{
    reveal_strlit("THEME:");
    reveal_strlit("Theme:");
    reveal_strlit("PROMPT:");
    reveal_strlit("Prompt:");
    let first = labelled(theme_label, theme);
    let second = labelled(prompt_label, prompt);
    let two = seq![first, second];
    let lines = two + more;
    lemma_labelled(theme_label, theme);
    lemma_labelled(prompt_label, prompt);
    assert forall|i: int| 0 <= i < lines.len() implies text::is_clean(#[trigger] lines[i]) by {
        if i >= 2 {
            assert(lines[i] == more[i - 2]);
        }
    }
    text::lemma_lines_of_joined(lines);
    assert(two.drop_last() == seq![first]);
    assert(two.drop_last().drop_last() == Seq::<Seq<char>>::empty());
    assert(read_lines(two.drop_last().drop_last()) == (Seq::<char>::empty(), Seq::<char>::empty()));
    assert(two.drop_last().last() == first && two.last() == second);
    assert(read_lines(two.drop_last()) == (theme, Seq::<char>::empty()));
    assert(second[0] == 'P' && "THEME:"@[0] == 'T' && "Theme:"@[0] == 'T');
    assert(read_lines(two) == (theme, prompt));
    lemma_read_on(first, second, more, theme, prompt);
}

proof fn lemma_trim_after_space(s: Seq<char>)
    ensures
        text::trimmed(seq![' '] + s) == text::trimmed(s),
{
    assert((seq![' '] + s).drop_first() == s);
}

// ---------------------------------------------------------------- reading the follow-ups

/// The number of follow-up questions that are asked at most.
pub const MAX_FOLLOWUPS: usize = 3;

pub open spec fn is_digit(c: char) -> bool {
    '0' <= c <= '9'
}

/// Whether a character may stand between a question's number and the question.
pub open spec fn is_marker(c: char) -> bool {
    c == '.' || c == ')' || c == '-' || c == ':'
}

/// The number of digits that a text begins with.
pub open spec fn leading_digits(s: Seq<char>) -> nat
    decreases s.len(),
{
    if s.len() > 0 && is_digit(s[0]) {
        1 + leading_digits(s.drop_first())
    } else {
        0
    }
}

/// What follows a question's number: a marker and the question. Only a dash may have
/// white space before it.
pub open spec fn after_number(l: Seq<char>) -> Seq<char> {
    let rest = l.skip(leading_digits(l) as int);
    let dashed = text::trim_start(rest);
    if rest.len() > 0 && is_marker(rest[0]) {
        rest
    } else if dashed.len() > 0 && dashed[0] == '-' {
        dashed
    } else {
        seq![]
    }
}

/// The question in a line such as "1. Why?", "1) Why?" or "1 - Why?".
pub open spec fn numbered_question(line: Seq<char>) -> Option<Seq<char>> {
    let l = text::trimmed(line);
    let marked = after_number(l);
    let question = text::trimmed(marked.drop_first());
    if leading_digits(l) > 0 && marked.len() > 0 && question.len() > 0 {
        Some(question)
    } else {
        None
    }
}

/// The questions in some lines, in their order.
pub open spec fn numbered_questions(lines: Seq<Seq<char>>) -> Seq<Seq<char>>
    decreases lines.len(),
{
    if lines.len() == 0 {
        seq![]
    } else {
        let before = numbered_questions(lines.drop_last());
        match numbered_question(lines.last()) {
            Some(q) => before.push(q),
            None => before,
        }
    }
}

/// The first three of some questions, or all where there are fewer.
pub open spec fn first_three(questions: Seq<Seq<char>>) -> Seq<Seq<char>> {
    if questions.len() > MAX_FOLLOWUPS {
        questions.take(MAX_FOLLOWUPS as int)
    } else {
        questions
    }
}

/// The follow-up questions in a reply: the numbered ones, and no more than three.
pub open spec fn followups_in(raw: Seq<char>) -> Seq<Seq<char>> {
    first_three(numbered_questions(text::lines_of(raw)))
}

fn marks(c: char) -> (r: bool)
    ensures
        r == is_marker(c),
{
    c == '.' || c == ')' || c == '-' || c == ':'
}

/// Reads the question out of a numbered line.
fn parse_numbered_line(line: &[char]) -> (r: Option<String>)
    ensures
        r is Some <==> numbered_question(line@) is Some,
        r matches Some(q) ==> numbered_question(line@) == Some(q@),
{
    let l = text::trim(line);
    let mut n: usize = 0;
    assert(l@.skip(0) == l@);
    while n < l.len() && '0' <= l[n] && l[n] <= '9'
        invariant
            n <= l.len(),
            leading_digits(l@) == n + leading_digits(l@.skip(n as int)),
        decreases l.len() - n,
    {
        assert(l@.skip(n as int).drop_first() == l@.skip(n + 1));
        n += 1;
    }
    assert(leading_digits(l@) == n);
    if n == 0 {
        return None;
    }
    let mut at: usize = n;
    if n >= l.len() || !marks(l[n]) {
        while at < l.len() && text::is_whitespace(l[at])
            invariant
                n <= at <= l.len(),
                text::trim_start(l@.skip(n as int)) == text::trim_start(l@.skip(at as int)),
            decreases l.len() - at,
        {
            assert(l@.skip(at as int).drop_first() == l@.skip(at + 1));
            at += 1;
        }
        assert(text::trim_start(l@.skip(n as int)) == l@.skip(at as int));
        if at >= l.len() || l[at] != '-' {
            return None;
        }
    }
    assert(after_number(l@) == l@.skip(at as int));
    let rest = vstd::slice::slice_subrange(l, at + 1, l.len());
    assert(rest@ == after_number(l@).drop_first());
    let question = text::trim(rest);
    if question.len() == 0 {
        return None;
    }
    Some(text::from_chars(question))
}

/// Reads the follow-up questions out of the model's reply: the numbered ones, and
/// no more than three.
pub fn parse_numbered_questions(raw: &str) -> (r: Vec<String>)
    ensures
        text::texts(r@) == followups_in(raw@),
        r@.len() <= MAX_FOLLOWUPS,
{
    let chars = text::to_chars(raw);
    let lines = text::lines(chars.as_slice());
    let ghost all = text::lines_of(raw@);
    let mut out: Vec<String> = Vec::new();
    let mut i: usize = 0;
    while i < lines.len()
        invariant
            i <= lines.len(),
            text::slice_texts(lines@) == all,
            text::texts(out@) == numbered_questions(all.take(i as int)),
        decreases lines.len() - i,
    {
        let ghost before = out@;
        assert(all.take(i + 1).drop_last() == all.take(i as int));
        assert(all.take(i + 1).last() == lines@[i as int]@);
        if let Some(q) = parse_numbered_line(lines[i]) {
            out.push(q);
            assert(text::texts(out@) == text::texts(before).push(q@));
        }
        i += 1;
    }
    assert(all.take(all.len() as int) == all);
    let ghost found = out@;
    out.truncate(MAX_FOLLOWUPS);
    assert(text::texts(out@) == followups_in(raw@)) by {
        if found.len() > MAX_FOLLOWUPS {
            assert(text::texts(out@) == text::texts(found).take(MAX_FOLLOWUPS as int));
        }
    }
    out
}

/// Whether a text is a question that can be asked: not empty, and without white
/// space around it.
pub open spec fn is_question(q: Seq<char>) -> bool {
    q.len() > 0 && text::trimmed(q) == q
}

proof fn lemma_numbered_questions_are_clean(lines: Seq<Seq<char>>)
    ensures
        forall|i: int|
            0 <= i < numbered_questions(lines).len() ==> is_question(
                #[trigger] numbered_questions(lines)[i],
            ),
    decreases lines.len(),
{
    if lines.len() > 0 {
        lemma_numbered_questions_are_clean(lines.drop_last());
        let l = text::trimmed(lines.last());
        text::lemma_trimmed(after_number(l).drop_first());
        let before = numbered_questions(lines.drop_last());
        assert forall|i: int| 0 <= i < numbered_questions(lines).len() implies is_question(
            #[trigger] numbered_questions(lines)[i],
        ) by {
            if i < before.len() {
                assert(numbered_questions(lines)[i] == before[i]);
            }
        }
    }
}

/// There are never more than three follow-ups, and none is blank.
pub proof fn law_followups_are_few_and_clean(raw: Seq<char>)
    ensures
        followups_in(raw).len() <= MAX_FOLLOWUPS,
        forall|i: int|
            0 <= i < followups_in(raw).len() ==> is_question(#[trigger] followups_in(raw)[i]),
{
    lemma_numbered_questions_are_clean(text::lines_of(raw));
}

proof fn lemma_leading_digits(number: Seq<char>, rest: Seq<char>)
    requires
        forall|i: int| 0 <= i < number.len() ==> is_digit(number[i]),
        rest.len() > 0 ==> !is_digit(rest[0]),
    ensures
        leading_digits(number + rest) == number.len(),
    decreases number.len(),
{
    if number.len() > 0 {
        assert((number + rest).drop_first() == number.drop_first() + rest);
        lemma_leading_digits(number.drop_first(), rest);
    } else {
        assert(number + rest == rest);
    }
}

/// A question that is written behind its number and a marker, with or without white
/// space before a dash, is read as it is meant.
pub proof fn law_numbered_question_is_read(
    number: Seq<char>,
    gap: Seq<char>,
    marker: char,
    question: Seq<char>,
)
    requires
        number.len() > 0,
        forall|i: int| 0 <= i < number.len() ==> is_digit(number[i]),
        forall|i: int| 0 <= i < gap.len() ==> text::is_space(gap[i]),
        is_marker(marker),
        gap.len() > 0 ==> marker == '-',
        text::is_clean(question),
    ensures
        numbered_question(number + (gap + (seq![marker, ' '] + question))) == Some(question),
{
    let tail = seq![marker, ' '] + question;
    let rest = gap + tail;
    let line = number + rest;
    text::lemma_trimmed(question);
    assert(is_digit(line[0]) && line[0] == number[0]);
    assert(line.last() == question.last());
    text::lemma_trimmed_fixed(line);
    assert(!is_digit(rest[0])) by {
        if gap.len() > 0 {
            assert(rest[0] == gap[0]);
        } else {
            assert(rest[0] == marker);
        }
    }
    lemma_leading_digits(number, rest);
    assert(line.skip(number.len() as int) == rest);
    lemma_skip_gap(gap, tail);
    assert(tail.drop_first() == seq![' '] + question);
    lemma_trim_after_space(question);
}

proof fn lemma_skip_gap(gap: Seq<char>, tail: Seq<char>)
    requires
        forall|i: int| 0 <= i < gap.len() ==> text::is_space(gap[i]),
        tail.len() > 0,
        !text::is_space(tail[0]),
    ensures
        text::trim_start(gap + tail) == tail,
    decreases gap.len(),
{
    if gap.len() > 0 {
        assert((gap + tail).drop_first() == gap.drop_first() + tail);
        lemma_skip_gap(gap.drop_first(), tail);
    } else {
        assert(gap + tail == tail);
    }
}

/// The question in a line, if any, as a list.
spec fn question_list(line: Seq<char>) -> Seq<Seq<char>> {
    match numbered_question(line) {
        Some(q) => seq![q],
        None => seq![],
    }
}

proof fn lemma_questions_line_by_line(lines: Seq<Seq<char>>)
    ensures
        numbered_questions(lines) == text::gathered(lines, |l: Seq<char>| question_list(l)),
    decreases lines.len(),
{
    let read = |l: Seq<char>| question_list(l);
    if lines.len() > 0 {
        lemma_questions_line_by_line(lines.drop_last());
        assert(read(lines.last()) == question_list(lines.last()));
        assert(numbered_questions(lines) == numbered_questions(lines.drop_last()) + question_list(
            lines.last(),
        ));
    }
}

/// The follow-ups in two texts joined by a line feed are those in the first and then those
/// in the second, up to three.
#[verifier::rlimit(50)]
pub proof fn law_followups_add_up(a: Seq<char>, b: Seq<char>)
    ensures
        followups_in(a + seq!['\n'] + b) == first_three(followups_in(a) + followups_in(b)),
{
    let read = |l: Seq<char>| question_list(l);
    assert(read(Seq::<char>::empty()) == Seq::<Seq<char>>::empty());
    assert forall|s: Seq<char>| #[trigger] read(s) == read(text::trimmed(s)) by {
        text::lemma_trimmed(s);
    }
    text::law_lines_add_up(a, b, read);
    lemma_questions_line_by_line(text::lines_of(a + seq!['\n'] + b));
    lemma_questions_line_by_line(text::lines_of(a));
    lemma_questions_line_by_line(text::lines_of(b));
    let x = numbered_questions(text::lines_of(a));
    let y = numbered_questions(text::lines_of(b));
    assert(first_three(x + y) == first_three(first_three(x) + first_three(y)));
}

// ---------------------------------------------------------------- laws of the questions

/// The system prompt says who the coach is, what they keep to and, where there is any
/// background on the user, that background.
pub proof fn law_system_prompt_describes_the_coach(persona: Persona)
    ensures
        ({
            let shell = "You are "@ + text::trimmed(persona.description@)
                + ". Your bar is high. Avoid platitudes, generic encouragement, and filler praise. Be specific, candid, and concise. Speak to them as a peer-level coach."@;
            &&& text::trimmed(persona.background@).len() == 0 ==> system_text(persona) == shell
            &&& text::trimmed(persona.background@).len() > 0 ==> system_text(persona) == shell
                + "\n\nBackground on your client (use this to ground your feedback):\n"@
                + text::trimmed(persona.background@)
        }),
{
}

/// The exercise is asked for by its topic, which stands between quotation marks.
pub proof fn law_exercise_is_asked_for(
    messages: Seq<ChatMessage>,
    persona: Persona,
    bucket: Seq<char>,
)
    requires
        asks(messages, persona, theme_question(bucket)),
    ensures
        messages.len() == 2,
        messages[0].role@ == "system"@ && messages[0].content@ == system_text(persona),
        messages[1].role@ == "user"@,
        messages[1].content@
            == "Propose ONE speaking exercise for today's session in the area: \""@
            + bucket
            + "\".\n\nFormat your reply EXACTLY as:\nTHEME: <a 4–8 word title>\nPROMPT: <one to two sentences asking the client to speak for 1–3 minutes on something concrete — a position to take, a story to tell, or a specific scenario to navigate. Not a definition or textbook recap.>\n\nNo preamble, no closing remarks."@,
{
}

/// Whoever is asked for follow-ups reads the theme, the exercise and the answer, each
/// under its own heading.
#[verifier::rlimit(50)]
pub proof fn law_followups_are_asked_on_the_answer(
    messages: Seq<ChatMessage>,
    persona: Persona,
    theme: Seq<char>,
    prompt: Seq<char>,
    transcript: Seq<char>,
)
    requires
        asks(messages, persona, followup_question(theme, prompt, transcript)),
    ensures
        messages.len() == 2,
        messages[0].role@ == "system"@ && messages[0].content@ == system_text(persona),
        messages[1].role@ == "user"@,
        text::stands_under(
            messages[1].content@,
            "The speaker just answered the following exercise.\n\nTHEME: "@,
            theme,
            "\nORIGINAL PROMPT: "@,
        ),
        text::stands_under(
            messages[1].content@,
            "\nORIGINAL PROMPT: "@,
            prompt,
            "\n\nWHAT THEY SAID (auto-transcribed, may have minor STT errors):\n---\n"@,
        ),
        text::stands_under(
            messages[1].content@,
            "\n\nWHAT THEY SAID (auto-transcribed, may have minor STT errors):\n---\n"@,
            transcript,
            "\n---\n\nWrite 1 to 3 sharp follow-up questions a thoughtful listener would ask after hearing that answer. Each question should probe a weak point, an unstated assumption, or something they glossed over. Number them. No preamble. Maximum 3 questions."@,
        ),
        messages[1].content@.len() == "The speaker just answered the following exercise.\n\nTHEME: "@.len() + theme.len()
            + "\nORIGINAL PROMPT: "@.len() + prompt.len()
            + "\n\nWHAT THEY SAID (auto-transcribed, may have minor STT errors):\n---\n"@.len() + transcript.len()
            + "\n---\n\nWrite 1 to 3 sharp follow-up questions a thoughtful listener would ask after hearing that answer. Each question should probe a weak point, an unstated assumption, or something they glossed over. Number them. No preamble. Maximum 3 questions."@.len(),
{
    let whole = messages[1].content@;
    let none = Seq::<char>::empty();
    let opened = FOLLOWUP_OPENING@ + theme;
    let prompted = opened + FOLLOWUP_PROMPT@ + prompt;
    let told = FOLLOWUP_TRANSCRIPT@ + transcript + FOLLOWUP_RULES@;
    assert(whole == none + FOLLOWUP_OPENING@ + theme + FOLLOWUP_PROMPT@ + (prompt + told));
    assert(whole == opened + FOLLOWUP_PROMPT@ + prompt + FOLLOWUP_TRANSCRIPT@ + (transcript
        + FOLLOWUP_RULES@));
    assert(whole == prompted + FOLLOWUP_TRANSCRIPT@ + transcript + FOLLOWUP_RULES@ + none);
}

/// Whoever is asked for feedback reads the theme, the exercise, the answer and the
/// measured delivery, each under its own heading.
#[verifier::rlimit(50)]
pub proof fn law_feedback_is_asked_on_the_answer(
    messages: Seq<ChatMessage>,
    persona: Persona,
    theme: Seq<char>,
    prompt: Seq<char>,
    transcript: Seq<char>,
    metrics: DeliveryMetrics,
)
    requires
        asks(messages, persona, feedback_question(theme, prompt, transcript, metrics)),
    ensures
        messages.len() == 2,
        messages[0].role@ == "system"@ && messages[0].content@ == system_text(persona),
        messages[1].role@ == "user"@,
        text::stands_under(
            messages[1].content@,
            "Provide structured spoken-communication feedback on the answer below.\n\nTHEME: "@,
            theme,
            "\nORIGINAL PROMPT: "@,
        ),
        text::stands_under(
            messages[1].content@,
            "\nORIGINAL PROMPT: "@,
            prompt,
            "\n\nAUTO-TRANSCRIPT (verbatim, may include STT errors — do not nitpick spelling):\n---\n"@,
        ),
        text::stands_under(
            messages[1].content@,
            "\n\nAUTO-TRANSCRIPT (verbatim, may include STT errors — do not nitpick spelling):\n---\n"@,
            transcript,
            "\n---\n\nMEASURED DELIVERY METRICS (computed from the audio):\n---\n"@,
        ),
        text::stands_under(
            messages[1].content@,
            "\n---\n\nMEASURED DELIVERY METRICS (computed from the audio):\n---\n"@,
            metrics.prompt_text(),
            "\n---\n\nReference numbers for context: a comfortable speaking pace is 130–160 wpm; frequent mid-utterance pauses can either signal weight or hesitation; energy_coefficient_of_variation below ~0.4 tends to read as monotone; more than ~3 fillers per minute starts to undercut presence.\n\nProduce feedback in EXACTLY this format using markdown headings:\n\n## Overall impression\nTwo sentences. State the strongest thing and the single biggest issue.\n\n## Pace & rhythm\nReference the measured wpm and pause behaviour. Say what to adjust.\n\n## Articulation & clarity\nComment on whether ideas landed crisply. Quote (briefly) any sentence that was structurally muddled and rewrite it more cleanly.\n\n## Intonation & energy\nUse the energy variation metric. If monotone, suggest where to vary. If varied well, say where it worked.\n\n## Filler words & verbal tics\nReference the measured filler counts. Be specific.\n\n## Substance\nWas the position or story clear? Did key ideas land? Would this work for the intended audience for this persona? Be candid.\n\n## One thing to practise next time\nA single, concrete drill they can run in 5 minutes.\n\nBe tight — the entire response should fit in roughly 350–500 words. No closing pep-talk."@,
        ),
        messages[1].content@.len() == "Provide structured spoken-communication feedback on the answer below.\n\nTHEME: "@.len() + theme.len()
            + "\nORIGINAL PROMPT: "@.len() + prompt.len()
            + "\n\nAUTO-TRANSCRIPT (verbatim, may include STT errors — do not nitpick spelling):\n---\n"@.len() + transcript.len()
            + "\n---\n\nMEASURED DELIVERY METRICS (computed from the audio):\n---\n"@.len() + metrics.prompt_text().len()
            + FEEDBACK_RULES@.len(),
{
    let whole = messages[1].content@;
    let none = Seq::<char>::empty();
    let measured = metrics.prompt_text();
    let opened = FEEDBACK_OPENING@ + theme;
    let prompted = opened + FEEDBACK_PROMPT@ + prompt;
    let told = prompted + FEEDBACK_TRANSCRIPT@ + transcript;
    let rest = FEEDBACK_METRICS@ + measured + FEEDBACK_RULES@;
    assert(whole == none + FEEDBACK_OPENING@ + theme + FEEDBACK_PROMPT@ + (prompt
        + FEEDBACK_TRANSCRIPT@ + transcript + rest));
    assert(whole == opened + FEEDBACK_PROMPT@ + prompt + FEEDBACK_TRANSCRIPT@ + (transcript
        + rest));
    assert(whole == prompted + FEEDBACK_TRANSCRIPT@ + transcript + FEEDBACK_METRICS@ + (measured
        + FEEDBACK_RULES@));
    assert(whole == told + FEEDBACK_METRICS@ + measured + FEEDBACK_RULES@ + none);
}

// ---------------------------------------------------------------- laws of the replies

/// Blank lines change nothing in what a proposal says, wherever they stand.
pub proof fn law_blank_lines_say_nothing(
    a: Seq<Seq<char>>,
    blank: Seq<char>,
    b: Seq<Seq<char>>,
)
    requires
        text::trimmed(blank).len() == 0,
    ensures
        read_lines(a + seq![blank] + b) == read_lines(a + b),
    decreases b.len(),
{
    reveal_strlit("THEME:");
    reveal_strlit("Theme:");
    reveal_strlit("PROMPT:");
    reveal_strlit("Prompt:");
    let lines = a + seq![blank] + b;
    if b.len() == 0 {
        assert(lines.drop_last() == a);
        assert(a + b == a);
        assert(lines.last() == blank);
    } else {
        law_blank_lines_say_nothing(a, blank, b.drop_last());
        assert(lines.drop_last() == a + seq![blank] + b.drop_last());
        assert((a + b).drop_last() == a + b.drop_last());
        assert(lines.last() == b.last() && (a + b).last() == b.last());
    }
}

/// A line that names the theme sets the theme and nothing else; one that names the
/// prompt sets the prompt and nothing else. The line that comes last counts.
pub proof fn law_labels_name(lines: Seq<Seq<char>>, line: Seq<char>, rest: Seq<char>)
    ensures
        text::trimmed(line) == "THEME:"@ + rest || text::trimmed(line) == "Theme:"@ + rest
            ==> read_lines(lines.push(line)) == (text::trimmed(rest), read_lines(lines).1),
        text::trimmed(line) == "PROMPT:"@ + rest || text::trimmed(line) == "Prompt:"@ + rest
            ==> read_lines(lines.push(line)) == (read_lines(lines).0, text::trimmed(rest)),
{
    reveal_strlit("THEME:");
    reveal_strlit("Theme:");
    reveal_strlit("PROMPT:");
    reveal_strlit("Prompt:");
    let l = text::trimmed(line);
    assert(lines.push(line).drop_last() == lines);
    if l == "THEME:"@ + rest || l == "Theme:"@ + rest {
        assert(l.skip(6) == rest);
        assert(text::begins_with(l, "THEME:"@) || text::begins_with(l, "Theme:"@));
    }
    if l == "PROMPT:"@ + rest || l == "Prompt:"@ + rest {
        assert(l.skip(7) == rest);
        assert(l[0] == 'P');
        assert(text::begins_with(l, "PROMPT:"@) || text::begins_with(l, "Prompt:"@));
    }
}

/// Whether a line neither names the theme nor the prompt, whichever way the labels are
/// written.
pub open spec fn names_nothing(line: Seq<char>) -> bool {
    forall|rest: Seq<char>|
        {
            &&& text::trimmed(line) != #[trigger] ("THEME:"@ + rest)
            &&& text::trimmed(line) != "Theme:"@ + rest
            &&& text::trimmed(line) != "PROMPT:"@ + rest
            &&& text::trimmed(line) != "Prompt:"@ + rest
        }
}

proof fn lemma_names_nothing(line: Seq<char>)
    requires
        names_nothing(line),
    ensures
        !is_labelled(text::trimmed(line)),
{
    reveal_strlit("THEME:");
    reveal_strlit("Theme:");
    reveal_strlit("PROMPT:");
    reveal_strlit("Prompt:");
    let l = text::trimmed(line);
    let short = l.skip(6);
    let long = l.skip(7);
    assert(l != "THEME:"@ + short && l != "Theme:"@ + short);
    assert(l != "PROMPT:"@ + long && l != "Prompt:"@ + long) by {
        assert(l != "THEME:"@ + long);
    }
    if text::begins_with(l, "THEME:"@) {
        assert(l == "THEME:"@ + short);
    } else if text::begins_with(l, "Theme:"@) {
        assert(l == "Theme:"@ + short);
    } else if text::begins_with(l, "PROMPT:"@) {
        assert(l == "PROMPT:"@ + long);
    } else if text::begins_with(l, "Prompt:"@) {
        assert(l == "Prompt:"@ + long);
    }
}

/// A line that names nothing leaves the theme alone. It goes on with the prompt, if there
/// is one, behind a space; before there is one, and where the line is blank, it says
/// nothing.
pub proof fn law_other_lines_go_on(lines: Seq<Seq<char>>, line: Seq<char>)
    requires
        names_nothing(line),
    ensures
        read_lines(lines.push(line)).0 == read_lines(lines).0,
        read_lines(lines).1.len() == 0 || text::trimmed(line).len() == 0 ==> read_lines(
            lines.push(line),
        ).1 == read_lines(lines).1,
        read_lines(lines).1.len() > 0 && text::trimmed(line).len() > 0 ==> read_lines(
            lines.push(line),
        ).1 == read_lines(lines).1 + " "@ + text::trimmed(line),
{
    lemma_names_nothing(line);
    reveal_strlit(" ");
    assert(lines.push(line).drop_last() == lines);
    let prompt = read_lines(lines).1;
    assert(prompt.push(' ') + text::trimmed(line) == prompt + " "@ + text::trimmed(line));
}

proof fn lemma_nothing_named(lines: Seq<Seq<char>>)
    requires
        forall|i: int| 0 <= i < lines.len() ==> names_nothing(#[trigger] lines[i]),
    ensures
        read_lines(lines) == (Seq::<char>::empty(), Seq::<char>::empty()),
    decreases lines.len(),
{
    if lines.len() > 0 {
        let front = lines.drop_last();
        assert forall|i: int| 0 <= i < front.len() implies names_nothing(#[trigger] front[i]) by {
            assert(front[i] == lines[i]);
        }
        lemma_nothing_named(front);
        assert(names_nothing(lines[lines.len() - 1]));
        law_other_lines_go_on(front, lines.last());
        assert(front.push(lines.last()) == lines);
    }
}

/// A reply that names nothing is a prompt without a theme, and all of it is the prompt. What
/// a reply does name is proposed as it is.
pub proof fn law_reply_without_labels_is_the_prompt(raw: Seq<char>)
    ensures
        (forall|i: int|
            0 <= i < text::lines_of(raw).len() ==> names_nothing(
                #[trigger] text::lines_of(raw)[i],
            )) ==> proposed_theme(raw) == "Speaking exercise"@ && proposed_prompt(raw)
            == text::trimmed(raw),
        read_lines(text::lines_of(raw)).0.len() == 0 ==> proposed_theme(raw)
            == "Speaking exercise"@,
        read_lines(text::lines_of(raw)).1.len() == 0 ==> proposed_prompt(raw) == text::trimmed(
            raw,
        ),
        read_lines(text::lines_of(raw)).0.len() > 0 ==> proposed_theme(raw) == read_lines(
            text::lines_of(raw),
        ).0,
        read_lines(text::lines_of(raw)).1.len() > 0 ==> proposed_prompt(raw) == read_lines(
            text::lines_of(raw),
        ).1,
{
    let lines = text::lines_of(raw);
    if forall|i: int| 0 <= i < lines.len() ==> names_nothing(#[trigger] lines[i]) {
        lemma_nothing_named(lines);
    }
}

/// Whether a line is a number, a marker and something more. Only a dash may have white
/// space before it.
pub open spec fn is_numbered(
    line: Seq<char>,
    number: Seq<char>,
    gap: Seq<char>,
    marker: char,
    rest: Seq<char>,
) -> bool {
    &&& text::trimmed(line) == number + (gap + (seq![marker] + rest))
    &&& number.len() > 0
    &&& forall|i: int| 0 <= i < number.len() ==> '0' <= #[trigger] number[i] <= '9'
    &&& forall|i: int| 0 <= i < gap.len() ==> text::is_space(#[trigger] gap[i])
    &&& marker == '.' || marker == ')' || marker == '-' || marker == ':'
    &&& gap.len() > 0 ==> marker == '-'
}

/// What stands behind a number and its marker is the question, unless it is blank.
#[verifier::rlimit(50)]
pub proof fn law_numbered_line_holds_its_question(
    line: Seq<char>,
    number: Seq<char>,
    gap: Seq<char>,
    marker: char,
    rest: Seq<char>,
)
    requires
        is_numbered(line, number, gap, marker, rest),
    ensures
        text::trimmed(rest).len() > 0 ==> numbered_question(line) == Some(text::trimmed(rest)),
        text::trimmed(rest).len() == 0 ==> numbered_question(line) is None,
{
    let l = text::trimmed(line);
    let tail = seq![marker] + rest;
    let behind = gap + tail;
    assert(!is_digit(behind[0])) by {
        if gap.len() > 0 {
            assert(behind[0] == gap[0]);
        } else {
            assert(behind[0] == marker);
        }
    }
    assert forall|i: int| 0 <= i < number.len() implies is_digit(number[i]) by {}
    lemma_leading_digits(number, behind);
    assert(l.skip(number.len() as int) == behind);
    lemma_skip_gap(gap, tail);
    assert(tail.drop_first() == rest);
    if gap.len() == 0 {
        assert(behind == tail);
    } else {
        assert(text::is_space(gap[0]) && behind[0] == gap[0]);
    }
}

proof fn lemma_digits_lead(s: Seq<char>)
    ensures
        leading_digits(s) <= s.len(),
        forall|i: int| 0 <= i < leading_digits(s) ==> '0' <= #[trigger] s[i] <= '9',
    decreases s.len(),
{
    if s.len() > 0 && is_digit(s[0]) {
        lemma_digits_lead(s.drop_first());
        assert forall|i: int| 0 <= i < leading_digits(s) implies '0' <= #[trigger] s[i] <= '9' by {
            if i > 0 {
                assert(s[i] == s.drop_first()[i - 1]);
            }
        }
    }
}

proof fn lemma_gap(s: Seq<char>)
    ensures
        text::trim_start(s).len() <= s.len(),
        s == s.take(s.len() - text::trim_start(s).len()) + text::trim_start(s),
        forall|i: int|
            0 <= i < s.len() - text::trim_start(s).len() ==> text::is_space(#[trigger] s[i]),
    decreases s.len(),
{
    if s.len() > 0 && text::is_space(s[0]) {
        let more = s.drop_first();
        lemma_gap(more);
        let n = s.len() - text::trim_start(s).len();
        assert forall|i: int| 0 <= i < n implies text::is_space(#[trigger] s[i]) by {
            if i > 0 {
                assert(s[i] == more[i - 1]);
            }
        }
        assert(s.skip(n) == more.skip(n - 1));
        assert(more.skip(n - 1) == text::trim_start(more));
        assert(s == s.take(n) + s.skip(n));
    } else {
        assert(s == s.take(0) + s);
    }
}

/// Every question that is read stands in its line behind a number and a marker.
#[verifier::rlimit(50)]
pub proof fn law_question_is_numbered(line: Seq<char>)
    ensures
        numbered_question(line) matches Some(q) ==> exists|
            number: Seq<char>,
            gap: Seq<char>,
            marker: char,
            rest: Seq<char>,
        | #[trigger]
            is_numbered(line, number, gap, marker, rest) && text::trimmed(rest) == q && q.len() > 0,
{
    let l = text::trimmed(line);
    if let Some(q) = numbered_question(line) {
        let n = leading_digits(l) as int;
        lemma_digits_lead(l);
        let number = l.take(n);
        let behind = l.skip(n);
        let marked = after_number(l);
        let marker = marked[0];
        let rest = marked.drop_first();
        assert(marked == seq![marker] + rest);
        assert(l == number + behind);
        assert forall|i: int| 0 <= i < number.len() implies '0' <= #[trigger] number[i] <= '9' by {
            assert(number[i] == l[i]);
        }
        if is_marker(behind[0]) && behind.len() > 0 {
            let gap = Seq::<char>::empty();
            assert(gap + marked == behind);
            assert(is_numbered(line, number, gap, marker, rest));
        } else {
            lemma_gap(behind);
            let gap = behind.take(behind.len() - marked.len());
            assert forall|i: int| 0 <= i < gap.len() implies text::is_space(#[trigger] gap[i]) by {
                assert(gap[i] == behind[i]);
            }
            assert(is_numbered(line, number, gap, marker, rest));
        }
    }
}

proof fn lemma_questions_add_up(a: Seq<Seq<char>>, b: Seq<Seq<char>>)
    ensures
        numbered_questions(a + b) == numbered_questions(a) + numbered_questions(b),
    decreases b.len(),
{
    if b.len() == 0 {
        assert(a + b == a);
    } else {
        lemma_questions_add_up(a, b.drop_last());
        assert((a + b).drop_last() == a + b.drop_last());
        assert((a + b).last() == b.last());
    }
}

/// The questions of lines are those of the one half and then those of the other; a single
/// line holds the one that it numbers, or none.
pub proof fn law_questions_are_read_line_by_line(
    a: Seq<Seq<char>>,
    b: Seq<Seq<char>>,
    line: Seq<char>,
)
    ensures
        numbered_questions(a + b) == numbered_questions(a) + numbered_questions(b),
        numbered_question(line) matches Some(q) ==> numbered_questions(seq![line]) == seq![q],
        numbered_question(line) is None ==> numbered_questions(seq![line]).len() == 0,
{
    lemma_questions_add_up(a, b);
    assert(seq![line].drop_last() == Seq::<Seq<char>>::empty());
    assert(numbered_questions(Seq::<Seq<char>>::empty()) == Seq::<Seq<char>>::empty());
    assert(seq![line].last() == line);
    if let Some(q) = numbered_question(line) {
        assert(Seq::<Seq<char>>::empty().push(q) == seq![q]);
    }
}

/// The follow-ups are the questions of a reply in their order: all of them, or the first
/// three where there are more.
pub proof fn law_first_three_are_kept(raw: Seq<char>)
    ensures
        ({
            let all = numbered_questions(text::lines_of(raw));
            &&& all.len() <= 3 ==> followups_in(raw) == all
            &&& all.len() > 3 ==> followups_in(raw) == seq![all[0], all[1], all[2]]
        }),
{
}

} // verus!
