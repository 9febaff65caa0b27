//! A persona while it is being edited.
//!
//! Its topics are edited as one text with a topic on each line.

use vstd::prelude::*;

use crate::personas::Persona;
use crate::text;

verus! {

/// A persona while it is being edited.
#[derive(Clone, Debug)]
pub struct PersonaDraft {
    /// The position of the persona in the list; none for a new one.
    pub edit_idx: Option<usize>,
    pub name: String,
    pub description: String,
    pub topics_text: String,
    pub background: String,
    pub voice_id: u32,
}

/// The topics in some lines: what is left of each without the white space around
/// it, where anything is.
pub open spec fn topics_in_lines(lines: Seq<Seq<char>>) -> Seq<Seq<char>>
    decreases lines.len(),
{
    if lines.len() == 0 {
        seq![]
    } else {
        let before = topics_in_lines(lines.drop_last());
        let topic = text::trimmed(lines.last());
        if topic.len() > 0 {
            before.push(topic)
        } else {
            before
        }
    }
}

/// The topics in a text, one on each line.
pub open spec fn topics_in(s: Seq<char>) -> Seq<Seq<char>> {
    topics_in_lines(text::lines_of(s))
}

fn split_topics(s: &str) -> (r: Vec<String>)
    ensures
        text::texts(r@) == topics_in(s@),
{
    let chars = text::to_chars(s);
    let lines = text::lines(chars.as_slice());
    let ghost all = text::lines_of(s@);
    let mut out: Vec<String> = Vec::new();
    let mut i: usize = 0;
    while i < lines.len()
        invariant
            i <= lines.len(),
            text::slice_texts(lines@) == all,
            text::texts(out@) == topics_in_lines(all.take(i as int)),
        decreases lines.len() - i,
    {
        let ghost before = out@;
        assert(all.take(i + 1).drop_last() == all.take(i as int));
        assert(all.take(i + 1).last() == lines@[i as int]@);
        let topic = text::trim(lines[i]);
        if topic.len() > 0 {
            out.push(text::from_chars(topic));
            assert(text::texts(out@) == text::texts(before).push(topic@));
        }
        i += 1;
    }
    assert(all.take(all.len() as int) == all);
    out
}

impl PersonaDraft {
    /// Whether nothing has been entered for a new persona.
    pub open spec fn is_empty(self) -> bool {
        &&& self.edit_idx is None
        &&& self.name@ == Seq::<char>::empty()
        &&& self.description@ == Seq::<char>::empty()
        &&& self.topics_text@ == Seq::<char>::empty()
        &&& self.background@ == Seq::<char>::empty()
        &&& self.voice_id == 0
    }

    /// An empty draft for a new persona.
    pub fn new() -> (r: PersonaDraft)
        ensures
            r.is_empty(),
    {
        PersonaDraft {
            edit_idx: None,
            name: String::new(),
            description: String::new(),
            topics_text: String::new(),
            background: String::new(),
            voice_id: 0,
        }
    }

    /// Whether the draft shows a persona as it is.
    pub open spec fn shows(self, idx: Option<usize>, p: Persona) -> bool {
        &&& self.edit_idx == idx
        &&& self.name@ == p.name@
        &&& self.description@ == p.description@
        &&& self.topics_text@ == text::joined(text::texts(p.topics@), "\n"@)
        &&& self.background@ == p.background@
        &&& self.voice_id == p.voice_id
    }

    /// A draft of a persona.
    pub fn from_persona(idx: Option<usize>, p: &Persona) -> (r: PersonaDraft)
        ensures
            r.shows(idx, *p),
    {
        PersonaDraft {
            edit_idx: idx,
            name: p.name.clone(),
            description: p.description.clone(),
            topics_text: text::join(&p.topics, "\n"),
            background: p.background.clone(),
            voice_id: p.voice_id,
        }
    }

    /// Whether a persona is what the draft describes.
    pub open spec fn describes(self, p: Persona) -> bool {
        &&& p.name@ == text::trimmed(self.name@)
        &&& p.description@ == text::trimmed(self.description@)
        &&& text::texts(p.topics@) == topics_in(self.topics_text@)
        &&& p.background@ == text::trimmed(self.background@)
        &&& p.voice_id == self.voice_id
    }

    /// The persona that the draft describes.
    pub fn into_persona(self) -> (r: Persona)
        ensures
            self.describes(r),
    {
        let topics = split_topics(self.topics_text.as_str());
        Persona {
            name: text::trim_text(self.name.as_str()),
            description: text::trim_text(self.description.as_str()),
            topics,
            background: text::trim_text(self.background.as_str()),
            voice_id: self.voice_id,
        }
    }

    /// Whether the draft can be saved: it needs a name.
    pub open spec fn has_name(self) -> bool {
        text::trimmed(self.name@).len() > 0
    }

    /// Whether the draft can be saved.
    pub fn can_save(&self) -> (r: bool)
        ensures
            r == self.has_name(),
    {
        !text::is_blank(self.name.as_str())
    }
}

// ---------------------------------------------------------------- laws

/// Whether a persona is free of stray white space: nothing stands around its
/// texts, and each topic is one line that is not blank.
pub open spec fn is_tidy(p: Persona) -> bool {
    &&& text::trimmed(p.name@) == p.name@
    &&& text::trimmed(p.description@) == p.description@
    &&& text::trimmed(p.background@) == p.background@
    &&& forall|i: int| 0 <= i < p.topics@.len() ==> text::is_clean(#[trigger] p.topics@[i]@)
}

proof fn lemma_only_topic(line: Seq<char>)
    ensures
        text::trimmed(line).len() > 0 ==> topics_in_lines(seq![line]) == seq![text::trimmed(line)],
{
    let lines = seq![line];
    assert(lines.drop_last() == Seq::<Seq<char>>::empty());
    assert(topics_in_lines(lines.drop_last()) == Seq::<Seq<char>>::empty());
    assert(lines.last() == line);
}

proof fn lemma_topics_front(line: Seq<char>, lines: Seq<Seq<char>>)
    ensures
        text::trimmed(line).len() > 0 ==> topics_in_lines(seq![line] + lines) == seq![
            text::trimmed(line),
        ] + topics_in_lines(lines),
    decreases lines.len(),
{
    let all = seq![line] + lines;
    if text::trimmed(line).len() > 0 {
        if lines.len() == 0 {
            assert(all == seq![line]);
            lemma_only_topic(line);
            assert(topics_in_lines(lines) == Seq::<Seq<char>>::empty());
        } else {
            assert(all.drop_last() == seq![line] + lines.drop_last());
            assert(all.last() == lines.last());
            lemma_topics_front(line, lines.drop_last());
            assert(topics_in_lines(all) == seq![text::trimmed(line)] + topics_in_lines(lines));
        }
    }
}

proof fn lemma_topics_round_trip(topics: Seq<Seq<char>>)
    requires
        forall|i: int| 0 <= i < topics.len() ==> text::is_clean(#[trigger] topics[i]),
    ensures
        topics_in(text::joined(topics, "\n"@)) == topics,
    decreases topics.len(),
{
    reveal_strlit("\n");
    let all = text::joined(topics, "\n"@);
    assert("\n"@ == seq!['\n']);
    if topics.len() == 0 {
        assert(topics_in(all) == topics);
    } else {
        let first = topics[0];
        text::lemma_trimmed(first);
        if topics.len() == 1 {
            text::lemma_only_line(first);
            assert(text::lines_of(all) == seq![first]);
            lemma_only_topic(first);
            assert(topics_in(all) == topics);
        } else {
            let rest = topics.drop_first();
            assert forall|i: int| 0 <= i < rest.len() implies text::is_clean(
                #[trigger] rest[i],
            ) by {
                assert(rest[i] == topics[i + 1]);
            }
            lemma_topics_round_trip(rest);
            text::lemma_joined_front(topics, "\n"@);
            let tail = text::joined(rest, "\n"@);
            text::lemma_first_line(first, tail);
            lemma_topics_front(first, text::lines_of(tail));
            assert(topics_in(all) == seq![first] + rest);
            assert(topics == seq![first] + rest);
        }
    }
}

/// Opening a tidy persona for editing and saving it unchanged keeps it as it is.
pub proof fn law_editing_nothing_changes_nothing(
    draft: PersonaDraft,
    idx: Option<usize>,
    before: Persona,
    after: Persona,
)
    requires
        is_tidy(before),
        draft.shows(idx, before),
        draft.describes(after),
    ensures
        after.name@ == before.name@,
        after.description@ == before.description@,
        text::texts(after.topics@) == text::texts(before.topics@),
        after.background@ == before.background@,
        after.voice_id == before.voice_id,
{
    let topics = text::texts(before.topics@);
    assert forall|i: int| 0 <= i < topics.len() implies text::is_clean(#[trigger] topics[i]) by {
        assert(text::is_clean(before.topics@[i]@));
    }
    lemma_topics_round_trip(topics);
}

proof fn lemma_topics_are_clean(lines: Seq<Seq<char>>)
    requires
        forall|i: int| 0 <= i < lines.len() ==> !(#[trigger] lines[i]).contains('\n'),
    ensures
        forall|i: int|
            0 <= i < topics_in_lines(lines).len() ==> text::is_clean(
                #[trigger] topics_in_lines(lines)[i],
            ),
    decreases lines.len(),
{
    if lines.len() > 0 {
        assert forall|i: int| 0 <= i < lines.drop_last().len() implies !(
        #[trigger] lines.drop_last()[i]).contains('\n') by {
            assert(lines.drop_last()[i] == lines[i]);
        }
        lemma_topics_are_clean(lines.drop_last());
        assert(!lines[lines.len() - 1].contains('\n'));
        text::lemma_trimmed(lines.last());
        let before = topics_in_lines(lines.drop_last());
        assert forall|i: int| 0 <= i < topics_in_lines(lines).len() implies text::is_clean(
            #[trigger] topics_in_lines(lines)[i],
        ) by {
            if i < before.len() {
                assert(topics_in_lines(lines)[i] == before[i]);
            }
        }
    }
}

/// A persona that comes out of a draft is tidy, whatever was typed.
pub proof fn law_saved_personas_are_tidy(draft: PersonaDraft, saved: Persona)
    requires
        draft.describes(saved),
    ensures
        is_tidy(saved),
{
    text::lemma_trimmed(draft.name@);
    text::lemma_trimmed(draft.description@);
    text::lemma_trimmed(draft.background@);
    let lines = text::lines_of(draft.topics_text@);
    assert forall|i: int| 0 <= i < lines.len() implies !(#[trigger] lines[i]).contains('\n') by {
        text::lemma_lines_hold_no_feed(draft.topics_text@, i);
    }
    lemma_topics_are_clean(lines);
    assert forall|i: int| 0 <= i < saved.topics@.len() implies text::is_clean(
        #[trigger] saved.topics@[i]@,
    ) by {
        assert(text::texts(saved.topics@)[i] == topics_in_lines(lines)[i]);
    }
}

/// The topic in a line, if any, as a list.
spec fn topic_list(line: Seq<char>) -> Seq<Seq<char>> {
    if text::trimmed(line).len() > 0 {
        seq![text::trimmed(line)]
    } else {
        seq![]
    }
}

proof fn lemma_topics_line_by_line(lines: Seq<Seq<char>>)
    ensures
        topics_in_lines(lines) == text::gathered(lines, |l: Seq<char>| topic_list(l)),
    decreases lines.len(),
{
    let read = |l: Seq<char>| topic_list(l);
    if lines.len() > 0 {
        lemma_topics_line_by_line(lines.drop_last());
        assert(read(lines.last()) == topic_list(lines.last()));
        assert(topics_in_lines(lines) == topics_in_lines(lines.drop_last()) + topic_list(
            lines.last(),
        ));
    }
}

/// The topics in two texts joined by a line feed are those in the first and then those in
/// the second.
#[verifier::rlimit(50)]
pub proof fn law_topics_add_up(a: Seq<char>, b: Seq<char>)
    ensures
        topics_in(a + seq!['\n'] + b) == topics_in(a) + topics_in(b),
{
    let read = |l: Seq<char>| topic_list(l);
    assert(read(Seq::<char>::empty()) == Seq::<Seq<char>>::empty());
    assert forall|s: Seq<char>| #[trigger] read(s) == read(text::trimmed(s)) by {
        text::lemma_trimmed(s);
    }
    text::law_lines_add_up(a, b, read);
    lemma_topics_line_by_line(text::lines_of(a + seq!['\n'] + b));
    lemma_topics_line_by_line(text::lines_of(a));
    lemma_topics_line_by_line(text::lines_of(b));
}

/// A line holds one topic, without the white space around it, unless the line is blank.
pub proof fn law_line_is_a_topic(line: Seq<char>)
    requires
        !line.contains('\n'),
    ensures
        text::trimmed(line).len() > 0 ==> topics_in(line) == seq![text::trimmed(line)],
        text::trimmed(line).len() == 0 ==> topics_in(line).len() == 0,
{
    if line.len() > 0 {
        text::lemma_only_line(line);
        let lines = seq![line];
        assert(lines.drop_last() == Seq::<Seq<char>>::empty());
        assert(topics_in_lines(lines.drop_last()) == Seq::<Seq<char>>::empty());
        assert(lines.last() == line);
    }
}

/// Each entry of a draft is the persona's own, with its topics a line each.
pub proof fn law_draft_shows_each_entry(draft: PersonaDraft, idx: Option<usize>, p: Persona)
    requires
        draft.shows(idx, p),
    ensures
        draft.edit_idx == idx,
        draft.name@ == p.name@,
        draft.description@ == p.description@,
        draft.background@ == p.background@,
        draft.voice_id == p.voice_id,
        is_tidy(p) ==> text::lines_of(draft.topics_text@) == text::texts(p.topics@),
{
    if is_tidy(p) {
        let topics = text::texts(p.topics@);
        assert forall|i: int| 0 <= i < topics.len() implies text::is_clean(
            #[trigger] topics[i],
        ) by {
            assert(text::is_clean(p.topics@[i]@));
        }
        text::lemma_lines_of_joined(topics);
    }
}

/// What is saved of each entry is what was typed, without the white space around it.
pub proof fn law_saved_entries_are_as_typed(
    draft: PersonaDraft,
    saved: Persona,
    lead: Seq<char>,
    core: Seq<char>,
    trail: Seq<char>,
)
    requires
        draft.describes(saved),
        text::all_space(lead),
        text::all_space(trail),
        core.len() > 0 ==> !text::is_space(core[0]) && !text::is_space(core.last()),
    ensures
        draft.name@ == lead + core + trail ==> saved.name@ == core,
        draft.description@ == lead + core + trail ==> saved.description@ == core,
        draft.background@ == lead + core + trail ==> saved.background@ == core,
        saved.voice_id == draft.voice_id,
        text::texts(saved.topics@) == topics_in(draft.topics_text@),
{
    text::law_trimming_is_exact(lead, core, trail);
}

/// A draft can be saved if and only if its name holds more than white space.
pub proof fn law_only_a_name_is_needed(draft: PersonaDraft)
    ensures
        draft.has_name() <==> exists|i: int|
            0 <= i < draft.name@.len() && !text::is_space(#[trigger] draft.name@[i]),
{
    let name = draft.name@;
    if text::all_space(name) {
        let none = Seq::<char>::empty();
        text::law_trimming_is_exact(name, none, none);
        assert(name + none + none == name);
        assert(text::trimmed(name) == none);
        assert forall|i: int| 0 <= i < name.len() implies text::is_space(#[trigger] name[i]) by {}
    } else {
        let i = choose|i: int| 0 <= i < name.len() && !text::is_space(#[trigger] name[i]);
        text::lemma_trimmed_keeps(name, i);
    }
}

} // verus!
