//! Talking to the local language model: messages, and the stream of its reply.
//!
//! The model's daemon answers with newline-delimited JSON. The bytes arrive in
//! pieces that may end in the middle of a line, so they are gathered and handed
//! out line by line; each line that parses is a piece of the reply.

use vstd::prelude::*;

use crate::rows;

verus! {

/// One message of a conversation.
#[derive(Clone, Debug)]
pub struct ChatMessage {
    /// "system", "user" or "assistant".
    pub role: String,
    pub content: String,
}

impl ChatMessage {
    /// Whether the message has a given role and content.
    pub open spec fn says(self, role: Seq<char>, content: Seq<char>) -> bool {
        self.role@ == role && self.content@ == content
    }

    /// A message that sets the model's role.
    pub fn system(s: String) -> (r: ChatMessage)
        ensures
            r.says("system"@, s@),
    {
        ChatMessage { role: String::from_str("system"), content: s }
    }

    /// A message from the user.
    pub fn user(s: String) -> (r: ChatMessage)
        ensures
            r.says("user"@, s@),
    {
        ChatMessage { role: String::from_str("user"), content: s }
    }
}

/// One update from the model while it replies.
#[derive(Debug)]
pub enum LlmUpdate {
    /// A further fragment of the reply.
    Token(String),
    /// The reply is complete; this is all of it.
    Done(String),
    /// The reply failed; this says why.
    Error(String),
}

/// What one line of the daemon's answer holds: the text it adds, if any, and
/// whether the reply is complete.
#[derive(Debug)]
pub struct ChatChunk {
    pub content: Option<String>,
    pub done: bool,
}

// ---------------------------------------------------------------- lines

/// `bytes` without the empty lines they begin with.
pub open spec fn skip_empty(bytes: Seq<u8>) -> Seq<u8>
    decreases bytes.len(),
{
    if bytes.len() > 0 && bytes[0] == rows::LINE_FEED {
        skip_empty(bytes.drop_first())
    } else {
        bytes
    }
}

/// The first complete line that is not empty.
pub open spec fn first_line(bytes: Seq<u8>) -> Option<Seq<u8>> {
    let rest = skip_empty(bytes);
    if rows::line_len(rest) < rest.len() {
        Some(rest.take(rows::line_len(rest) as int))
    } else {
        None
    }
}

/// What is left once the first complete line that is not empty is taken.
pub open spec fn after_first_line(bytes: Seq<u8>) -> Seq<u8> {
    let rest = skip_empty(bytes);
    if rows::line_len(rest) < rest.len() {
        rest.skip(rows::line_len(rest) as int + 1)
    } else {
        rest
    }
}

proof fn lemma_skip_empty(bytes: Seq<u8>)
    ensures
        skip_empty(bytes).len() <= bytes.len(),
        skip_empty(bytes).len() > 0 ==> skip_empty(bytes)[0] != rows::LINE_FEED,
    decreases bytes.len(),
{
    if bytes.len() > 0 && bytes[0] == rows::LINE_FEED {
        lemma_skip_empty(bytes.drop_first());
    }
}

/// The complete lines that are not empty, in order.
pub open spec fn complete_lines(bytes: Seq<u8>) -> Seq<Seq<u8>>
    decreases bytes.len(),
{
    match first_line(bytes) {
        Some(line) => {
            if after_first_line(bytes).len() < bytes.len() {
                seq![line] + complete_lines(after_first_line(bytes))
            } else {
                seq![line]
            }
        },
        None => seq![],
    }
}

/// Lines by the bytes they hold.
pub open spec fn line_bytes(lines: Seq<Vec<u8>>) -> Seq<Seq<u8>> {
    Seq::new(lines.len(), |i: int| lines[i]@)
}

/// What is left once all complete lines are taken.
pub open spec fn incomplete_rest(bytes: Seq<u8>) -> Seq<u8>
    decreases bytes.len(),
{
    if first_line(bytes) is Some && after_first_line(bytes).len() < bytes.len() {
        incomplete_rest(after_first_line(bytes))
    } else {
        after_first_line(bytes)
    }
}

proof fn lemma_lines_shrink(bytes: Seq<u8>)
    ensures
        first_line(bytes) is Some ==> after_first_line(bytes).len() < bytes.len(),
{
    lemma_skip_empty(bytes);
    rows::lemma_line_len(skip_empty(bytes));
}

proof fn lemma_skip_empty_more(a: Seq<u8>, b: Seq<u8>)
    ensures
        skip_empty(a + b) == skip_empty(skip_empty(a) + b),
        skip_empty(a).len() > 0 ==> skip_empty(a + b) == skip_empty(a) + b,
    decreases a.len(),
{
    if a.len() > 0 && a[0] == rows::LINE_FEED {
        assert((a + b).drop_first() == a.drop_first() + b);
        lemma_skip_empty_more(a.drop_first(), b);
    } else if a.len() > 0 {
        assert((a + b)[0] != rows::LINE_FEED);
    }
}

proof fn lemma_line_len_more(a: Seq<u8>, b: Seq<u8>)
    requires
        rows::line_len(a) < a.len(),
    ensures
        rows::line_len(a + b) == rows::line_len(a),
    decreases a.len(),
{
    if a[0] != rows::LINE_FEED {
        assert((a + b).drop_first() == a.drop_first() + b);
        lemma_line_len_more(a.drop_first(), b);
    }
}

/// How the bytes are cut into pieces makes no difference: the lines of two
/// pieces in a row are those of the first, followed by those that the second
/// completes, and the same bytes are left over.
pub proof fn law_pieces_do_not_matter(a: Seq<u8>, b: Seq<u8>)
    ensures
        complete_lines(a + b) == complete_lines(a) + complete_lines(incomplete_rest(a) + b),
        incomplete_rest(a + b) == incomplete_rest(incomplete_rest(a) + b),
    decreases a.len(),
{
    let rest = skip_empty(a);
    lemma_skip_empty(a);
    rows::lemma_line_len(rest);
    lemma_skip_empty_more(a, b);
    if rows::line_len(rest) < rest.len() {
        let n = rows::line_len(rest) as int;
        lemma_line_len_more(rest, b);
        lemma_lines_shrink(a);
        lemma_lines_shrink(a + b);
        assert(first_line(a + b) == first_line(a)) by {
            assert((rest + b).take(n) == rest.take(n));
        }
        assert(after_first_line(a + b) == after_first_line(a) + b) by {
            assert((rest + b).skip(n + 1) == rest.skip(n + 1) + b);
        }
        law_pieces_do_not_matter(after_first_line(a), b);
        assert(complete_lines(a + b) == complete_lines(a) + complete_lines(incomplete_rest(a) + b));
    } else {
        assert(incomplete_rest(a) == rest);
        assert(complete_lines(a) == Seq::<Seq<u8>>::empty());
        assert(skip_empty(a + b) == skip_empty(rest + b));
        assert(first_line(a + b) == first_line(rest + b));
        assert(after_first_line(a + b) == after_first_line(rest + b));
        lemma_lines_shrink(a + b);
        lemma_lines_shrink(rest + b);
        assert(complete_lines(a + b) == complete_lines(rest + b));
        assert(incomplete_rest(a + b) == incomplete_rest(rest + b));
    }
}

// ---------------------------------------------------------------- the reply

/// An update by what it holds.
pub enum UpdateModel {
    Token(Seq<char>),
    Done(Seq<char>),
    Error(Seq<char>),
}

impl View for LlmUpdate {
    type V = UpdateModel;

    open spec fn view(&self) -> UpdateModel {
        match self {
            LlmUpdate::Token(t) => UpdateModel::Token(t@),
            LlmUpdate::Done(t) => UpdateModel::Done(t@),
            LlmUpdate::Error(e) => UpdateModel::Error(e@),
        }
    }
}

/// A list of updates by what they hold.
pub open spec fn update_models(updates: Seq<LlmUpdate>) -> Seq<UpdateModel> {
    Seq::new(updates.len(), |i: int| updates[i]@)
}

/// The text that a line adds to the reply.
pub open spec fn added_by(chunk: ChatChunk) -> Seq<char> {
    match chunk.content {
        Some(content) => content@,
        None => seq![],
    }
}

/// What a line brings to a reply that has come to `full`: the fragment it adds,
/// where it adds one, and then the whole reply, where it is complete.
pub open spec fn updates_by(full: Seq<char>, chunk: ChatChunk) -> Seq<UpdateModel> {
    let added = added_by(chunk);
    let fragment = if added.len() > 0 {
        seq![UpdateModel::Token(added)]
    } else {
        seq![]
    };
    if chunk.done {
        fragment.push(UpdateModel::Done(full + added))
    } else {
        fragment
    }
}

/// Whether some lines complete the reply. Lines that could not be parsed are none.
pub open spec fn is_complete(chunks: Seq<Option<ChatChunk>>) -> bool {
    exists|i: int|
        0 <= i < chunks.len() && (#[trigger] chunks[i] matches Some(chunk) && chunk.done)
}

/// The reply after some lines. Lines that could not be parsed add nothing, and
/// neither does what follows the end of the reply.
pub open spec fn reply_after(full: Seq<char>, chunks: Seq<Option<ChatChunk>>) -> Seq<char>
    decreases chunks.len(),
{
    if chunks.len() == 0 {
        full
    } else {
        match chunks[0] {
            Some(chunk) => if chunk.done {
                full + added_by(chunk)
            } else {
                reply_after(full + added_by(chunk), chunks.drop_first())
            },
            None => reply_after(full, chunks.drop_first()),
        }
    }
}

/// What some lines bring to a reply that has come to `full`.
pub open spec fn updates_after(full: Seq<char>, chunks: Seq<Option<ChatChunk>>) -> Seq<UpdateModel>
    decreases chunks.len(),
{
    if chunks.len() == 0 {
        seq![]
    } else {
        match chunks[0] {
            Some(chunk) => if chunk.done {
                updates_by(full, chunk)
            } else {
                updates_by(full, chunk) + updates_after(
                    full + added_by(chunk),
                    chunks.drop_first(),
                )
            },
            None => updates_after(full, chunks.drop_first()),
        }
    }
}

/// The live text after further updates: fragments are appended, and nothing
/// counts after the end of the reply.
pub open spec fn live_text(text: Seq<char>, updates: Seq<UpdateModel>) -> Seq<char>
    decreases updates.len(),
{
    if updates.len() == 0 {
        text
    } else {
        match updates[0] {
            UpdateModel::Token(t) => live_text(text + t, updates.drop_first()),
            _ => text,
        }
    }
}

/// A reply while it is being received.
pub struct ChatStream {
    /// The bytes of which no complete line has been made yet.
    pub pending: Vec<u8>,
    /// The reply as far as it has arrived.
    pub full: String,
}

impl ChatStream {
    /// A reply of which nothing has arrived.
    pub fn new() -> (r: ChatStream)
        ensures
            r.pending@ == Seq::<u8>::empty(),
            r.full@ == Seq::<char>::empty(),
    {
        ChatStream { pending: Vec::new(), full: String::new() }
    }

    /// Takes in a further piece of the answer.
    pub fn receive(&mut self, bytes: &[u8])
        ensures
            final(self).pending@ == old(self).pending@ + bytes@,
            final(self).full == old(self).full,
    {
        let mut i: usize = 0;
        while i < bytes.len()
            invariant
                i <= bytes.len(),
                self.pending@ == old(self).pending@ + bytes@.take(i as int),
                self.full == old(self).full,
            decreases bytes.len() - i,
        {
            self.pending.push(bytes[i]);
            assert(bytes@.take(i + 1) == bytes@.take(i as int).push(bytes@[i as int]));
            i += 1;
        }
        assert(bytes@.take(bytes@.len() as int) == bytes@);
    }

    /// Hands out the next complete line, without its line feed. Empty lines are
    /// passed over.
    fn next_line(&mut self) -> (r: Option<Vec<u8>>)
        ensures
            r is Some <==> first_line(old(self).pending@) is Some,
            r matches Some(line) ==> first_line(old(self).pending@) == Some(line@),
            final(self).pending@ == after_first_line(old(self).pending@),
            final(self).full == old(self).full,
    {
        let ghost all = self.pending@;
        let mut start: usize = 0;
        assert(all.skip(0) == all);
        while start < self.pending.len() && self.pending[start] == rows::LINE_FEED
            invariant
                self.pending@ == all,
                start <= all.len(),
                skip_empty(all) == skip_empty(all.skip(start as int)),
            decreases all.len() - start,
        {
            assert(all.skip(start as int).drop_first() == all.skip(start + 1));
            start += 1;
        }
        let ghost rest = all.skip(start as int);
        assert(skip_empty(all) == rest);
        let mut end: usize = start;
        while end < self.pending.len() && self.pending[end] != rows::LINE_FEED
            invariant
                self.pending@ == all,
                rest == all.skip(start as int),
                start <= end <= all.len(),
                rows::line_len(rest) == (end - start) + rows::line_len(all.skip(end as int)),
            decreases all.len() - end,
        {
            assert(all.skip(end as int).drop_first() == all.skip(end + 1));
            end += 1;
        }
        if end < self.pending.len() {
            let tail = self.pending.split_off(end + 1);
            let mut line = self.pending.split_off(start);
            line.truncate(end - start);
            self.pending = tail;
            assert(line@ == rest.take(rows::line_len(rest) as int));
            assert(tail@ == rest.skip(rows::line_len(rest) as int + 1));
            Some(line)
        } else {
            let tail = self.pending.split_off(start);
            assert(tail@ == rest);
            self.pending = tail;
            None
        }
    }

    /// Hands out all complete lines, in their order.
    pub fn take_lines(&mut self) -> (r: Vec<Vec<u8>>)
        ensures
            line_bytes(r@) == complete_lines(old(self).pending@),
            final(self).pending@ == incomplete_rest(old(self).pending@),
            final(self).full == old(self).full,
    {
        let ghost all = self.pending@;
        let mut lines: Vec<Vec<u8>> = Vec::new();
        assert(line_bytes(lines@) + complete_lines(all) == complete_lines(all));
        let mut more: bool = true;
        while more
            invariant
                old(self).pending@ == all,
                self.full == old(self).full,
                more ==> line_bytes(lines@) + complete_lines(self.pending@) == complete_lines(all),
                more ==> incomplete_rest(self.pending@) == incomplete_rest(all),
                !more ==> line_bytes(lines@) == complete_lines(all),
                !more ==> self.pending@ == incomplete_rest(all),
            decreases
                    if more {
                        1 + self.pending@.len()
                    } else {
                        0
                    },
        {
            let ghost bytes = self.pending@;
            let ghost before = line_bytes(lines@);
            proof {
                lemma_lines_shrink(bytes);
            }
            match self.next_line() {
                Some(line) => {
                    lines.push(line);
                    assert(line_bytes(lines@) == before.push(line@));
                    assert(before + (seq![line@] + complete_lines(self.pending@)) == line_bytes(
                        lines@,
                    ) + complete_lines(self.pending@));
                },
                None => {
                    more = false;
                    assert(before + Seq::<Seq<u8>>::empty() == before);
                },
            }
        }
        lines
    }

    /// Takes in what one line holds and says what is new: the fragment it adds,
    /// where it adds one, and the whole reply, where it is complete.
    fn accept(&mut self, chunk: ChatChunk) -> (r: Vec<LlmUpdate>)
        ensures
            final(self).pending == old(self).pending,
            final(self).full@ == old(self).full@ + added_by(chunk),
            chunk.content matches Some(content) ==> final(self).full@ == old(self).full@
                + content@,
            chunk.content is None ==> final(self).full@ == old(self).full@,
            update_models(r@) == updates_by(old(self).full@, chunk),
    {
        let mut updates: Vec<LlmUpdate> = Vec::new();
        match chunk.content {
            Some(content) => {
                if !content.as_str().is_empty() {
                    self.full.append(content.as_str());
                    updates.push(LlmUpdate::Token(content));
                } else {
                    assert(content@ == Seq::<char>::empty());
                }
            },
            None => {},
        }
        assert(old(self).full@ + Seq::<char>::empty() == old(self).full@);
        if chunk.done {
            updates.push(LlmUpdate::Done(self.full.clone()));
        }
        updates
    }

    /// Takes in what some lines hold, in their order, and says what is new and
    /// whether the reply is complete. Lines that could not be parsed are passed
    /// over, and so is what follows the end of the reply.
    pub fn accept_lines(&mut self, chunks: Vec<Option<ChatChunk>>) -> (r: (Vec<LlmUpdate>, bool))
        ensures
            final(self).pending == old(self).pending,
            final(self).full@ == reply_after(old(self).full@, chunks@),
            update_models(r.0@) == updates_after(old(self).full@, chunks@),
            r.1 == is_complete(chunks@),
    {
        let ghost all = chunks@;
        let ghost start = self.full@;
        let mut updates: Vec<LlmUpdate> = Vec::new();
        assert(all.skip(0) == all);
        assert(update_models(updates@) + updates_after(start, all) == updates_after(start, all));
        for chunk in it: chunks
            invariant
                it.seq() == all,
                chunks@ == all,
                old(self).full@ == start,
                self.pending == old(self).pending,
                reply_after(self.full@, all.skip(it.index())) == reply_after(start, all),
                update_models(updates@) + updates_after(self.full@, all.skip(it.index()))
                    == updates_after(start, all),
                forall|k: int|
                    0 <= k < it.index() ==> !(#[trigger] all[k] matches Some(c) && c.done),
        {
            let ghost n = it.index();
            let ghost rest = all.skip(n);
            assert(rest[0] == chunk);
            assert(rest.drop_first() == all.skip(n + 1));
            if let Some(c) = chunk {
                let ghost full = self.full@;
                let ghost before = update_models(updates@);
                let done: bool = c.done;
                let mut news = self.accept(c);
                let ghost brought = news@;
                updates.append(&mut news);
                assert(update_models(updates@) == before + update_models(brought));
                if done {
                    assert(all[n] == chunk);
                    return (updates, true);
                }
                assert(before + (update_models(brought) + updates_after(
                    self.full@,
                    all.skip(n + 1),
                )) == update_models(updates@) + updates_after(self.full@, all.skip(n + 1)));
            }
        }
        assert(all.skip(all.len() as int) == Seq::<Option<ChatChunk>>::empty());
        assert(update_models(updates@) + Seq::<UpdateModel>::empty() == update_models(updates@));
        (updates, false)
    }

    /// What is said where the answer ends before the reply was complete: the
    /// reply is what has arrived.
    pub fn end(self) -> (r: LlmUpdate)
        ensures
            r matches LlmUpdate::Done(t) && t@ == self.full@,
    {
        LlmUpdate::Done(self.full)
    }
}

/// The text of a reply as it is shown while it arrives.
#[derive(Debug)]
pub struct StreamBuffer {
    pub text: String,
}

impl StreamBuffer {
    /// An empty buffer.
    pub fn new() -> (r: StreamBuffer)
        ensures
            r.text@ == Seq::<char>::empty(),
    {
        StreamBuffer { text: String::new() }
    }

    /// A copy of the text.
    pub fn snapshot(&self) -> (r: String)
        ensures
            r@ == self.text@,
    {
        self.text.clone()
    }

    /// Empties the buffer.
    pub fn clear(&mut self)
        ensures
            final(self).text@ == Seq::<char>::empty(),
    {
        self.text = String::new();
    }

    /// Appends to the text.
    pub fn append(&mut self, s: &str)
        ensures
            final(self).text@ == old(self).text@ + s@,
    {
        self.text.append(s);
    }

    /// Takes an update in. A fragment is appended; the end of the reply, whether
    /// it is complete or failed, is handed on.
    pub fn take_in(&mut self, update: LlmUpdate) -> (r: Option<Result<String, String>>)
        ensures
            final(self).text@ == live_text(old(self).text@, seq![update@]),
            match update {
                LlmUpdate::Token(_) => r is None,
                LlmUpdate::Done(full) => r == Some(Ok::<String, String>(full)),
                LlmUpdate::Error(e) => r == Some(Err::<String, String>(e)),
            },
    {
        proof {
            reveal_with_fuel(live_text, 2);
            assert(seq![update@].drop_first() == Seq::<UpdateModel>::empty());
        }
        match update {
            LlmUpdate::Token(t) => {
                self.append(t.as_str());
                None
            },
            LlmUpdate::Done(full) => Some(Ok(full)),
            LlmUpdate::Error(e) => Some(Err(e)),
        }
    }
}

/// Updates may be taken in one after the other: the live text is the same.
pub proof fn law_live_text_in_steps(
    text: Seq<char>,
    first: Seq<UpdateModel>,
    more: Seq<UpdateModel>,
)
    requires
        forall|i: int| 0 <= i < first.len() ==> first[i] is Token,
    ensures
        live_text(text, first + more) == live_text(live_text(text, first), more),
    decreases first.len(),
{
    if first.len() == 0 {
        assert(first + more == more);
    } else {
        assert((first + more)[0] == first[0]);
        assert((first + more).drop_first() == first.drop_first() + more);
        if let UpdateModel::Token(t) = first[0] {
            law_live_text_in_steps(text + t, first.drop_first(), more);
        }
    }
}

proof fn lemma_one_line_is_shown(full: Seq<char>, chunk: ChatChunk)
    ensures
        live_text(full, updates_by(full, chunk)) == full + added_by(chunk),
        !chunk.done ==> forall|i: int|
            0 <= i < updates_by(full, chunk).len() ==> updates_by(full, chunk)[i] is Token,
{
    reveal_with_fuel(live_text, 3);
    assert(full + Seq::<char>::empty() == full);
    let updates = updates_by(full, chunk);
    if updates.len() > 0 {
        assert(updates.drop_first().len() == updates.len() - 1);
    }
}

proof fn lemma_complete_later(chunks: Seq<Option<ChatChunk>>)
    requires
        chunks.len() > 0,
        !(chunks[0] matches Some(chunk) && chunk.done),
    ensures
        is_complete(chunks) == is_complete(chunks.drop_first()),
{
    let rest = chunks.drop_first();
    if is_complete(chunks) {
        let i = choose|i: int|
            0 <= i < chunks.len() && (#[trigger] chunks[i] matches Some(chunk) && chunk.done);
        assert(rest[i - 1] == chunks[i]);
    }
    if is_complete(rest) {
        let i = choose|i: int|
            0 <= i < rest.len() && (#[trigger] rest[i] matches Some(chunk) && chunk.done);
        assert(chunks[i + 1] == rest[i]);
    }
}

/// What is shown while a reply arrives is the reply: after any lines the live text
/// is what has arrived, and when the reply is complete, the text that is handed on
/// is the one that was shown.
pub proof fn law_shown_text_is_the_reply(full: Seq<char>, chunks: Seq<Option<ChatChunk>>)
    ensures
        live_text(full, updates_after(full, chunks)) == reply_after(full, chunks),
        is_complete(chunks) ==> {
            &&& updates_after(full, chunks).len() > 0
            &&& updates_after(full, chunks).last() == UpdateModel::Done(reply_after(full, chunks))
        },
    decreases chunks.len(),
{
    if chunks.len() > 0 {
        let rest = chunks.drop_first();
        match chunks[0] {
            Some(chunk) => {
                lemma_one_line_is_shown(full, chunk);
                if !chunk.done {
                    lemma_complete_later(chunks);
                    law_shown_text_is_the_reply(full + added_by(chunk), rest);
                    law_live_text_in_steps(
                        full,
                        updates_by(full, chunk),
                        updates_after(full + added_by(chunk), rest),
                    );
                }
            },
            None => {
                lemma_complete_later(chunks);
                law_shown_text_is_the_reply(full, rest);
            },
        }
    }
}

/// Lines may be taken in in any portions: until the reply is complete, the reply
/// and what is said of it are the same.
pub proof fn law_portions_do_not_matter(
    full: Seq<char>,
    first: Seq<Option<ChatChunk>>,
    more: Seq<Option<ChatChunk>>,
)
    requires
        !is_complete(first),
    ensures
        reply_after(full, first + more) == reply_after(reply_after(full, first), more),
        updates_after(full, first + more) == updates_after(full, first) + updates_after(
            reply_after(full, first),
            more,
        ),
    decreases first.len(),
{
    let all = first + more;
    if first.len() == 0 {
        assert(all == more);
        assert(updates_after(full, first) + updates_after(full, more) == updates_after(full, more));
    } else {
        let rest = first.drop_first();
        assert(all[0] == first[0]);
        assert(all.drop_first() == rest + more);
        lemma_complete_later(first);
        match first[0] {
            Some(chunk) => {
                let longer = full + added_by(chunk);
                law_portions_do_not_matter(longer, rest, more);
                assert(updates_by(full, chunk) + (updates_after(longer, rest) + updates_after(
                    reply_after(longer, rest),
                    more,
                )) == updates_by(full, chunk) + updates_after(longer, rest) + updates_after(
                    reply_after(longer, rest),
                    more,
                ));
            },
            None => {
                law_portions_do_not_matter(full, rest, more);
            },
        }
    }
}

/// What some lines hold, where `parse` tells what a line holds.
pub open spec fn parsed(
    lines: Seq<Seq<u8>>,
    parse: spec_fn(Seq<u8>) -> Option<ChatChunk>,
) -> Seq<Option<ChatChunk>> {
    lines.map_values(parse)
}

/// All that is said of an answer that arrives in pieces, with the bytes `pending` and
/// the reply `full` so far. Each piece is taken in, the lines that it completes are
/// parsed, and what they bring is said; that ends with the reply, or with the answer.
pub open spec fn updates_of_pieces(
    pending: Seq<u8>,
    full: Seq<char>,
    pieces: Seq<Seq<u8>>,
    parse: spec_fn(Seq<u8>) -> Option<ChatChunk>,
) -> Seq<UpdateModel>
    decreases pieces.len(),
{
    if pieces.len() == 0 {
        seq![UpdateModel::Done(full)]
    } else {
        let bytes = pending + pieces[0];
        let chunks = parsed(complete_lines(bytes), parse);
        if is_complete(chunks) {
            updates_after(full, chunks)
        } else {
            updates_after(full, chunks) + updates_of_pieces(
                incomplete_rest(bytes),
                reply_after(full, chunks),
                pieces.drop_first(),
                parse,
            )
        }
    }
}

/// All that is said of an answer that arrives in one piece.
pub open spec fn updates_of_answer(
    bytes: Seq<u8>,
    full: Seq<char>,
    parse: spec_fn(Seq<u8>) -> Option<ChatChunk>,
) -> Seq<UpdateModel> {
    let chunks = parsed(complete_lines(bytes), parse);
    if is_complete(chunks) {
        updates_after(full, chunks)
    } else {
        updates_after(full, chunks).push(UpdateModel::Done(reply_after(full, chunks)))
    }
}

proof fn lemma_complete_in_parts(first: Seq<Option<ChatChunk>>, more: Seq<Option<ChatChunk>>)
    ensures
        is_complete(first + more) == (is_complete(first) || is_complete(more)),
{
    let all = first + more;
    if is_complete(first) {
        let i = choose|i: int|
            0 <= i < first.len() && (#[trigger] first[i] matches Some(chunk) && chunk.done);
        assert(all[i] == first[i]);
    }
    if is_complete(more) {
        let i = choose|i: int|
            0 <= i < more.len() && (#[trigger] more[i] matches Some(chunk) && chunk.done);
        assert(all[first.len() + i] == more[i]);
    }
    if is_complete(all) {
        let i = choose|i: int|
            0 <= i < all.len() && (#[trigger] all[i] matches Some(chunk) && chunk.done);
        if i < first.len() {
            assert(first[i] == all[i]);
        } else {
            assert(more[i - first.len()] == all[i]);
        }
    }
}

/// Nothing is said of what follows the end of the reply.
proof fn lemma_nothing_after_end(
    full: Seq<char>,
    first: Seq<Option<ChatChunk>>,
    more: Seq<Option<ChatChunk>>,
)
    requires
        is_complete(first),
    ensures
        updates_after(full, first + more) == updates_after(full, first),
    decreases first.len(),
{
    let all = first + more;
    let rest = first.drop_first();
    assert(all[0] == first[0]);
    assert(all.drop_first() == rest + more);
    match first[0] {
        Some(chunk) => {
            if !chunk.done {
                lemma_complete_later(first);
                lemma_nothing_after_end(full + added_by(chunk), rest, more);
            }
        },
        None => {
            lemma_complete_later(first);
            lemma_nothing_after_end(full, rest, more);
        },
    }
}

/// Once all complete lines are taken, none is left.
proof fn lemma_no_line_left(bytes: Seq<u8>)
    ensures
        complete_lines(incomplete_rest(bytes)).len() == 0,
{
    let none = Seq::<u8>::empty();
    law_pieces_do_not_matter(bytes, none);
    assert(bytes + none == bytes);
    assert(incomplete_rest(bytes) + none == incomplete_rest(bytes));
}

/// An answer that arrives in pieces says what it says in one piece.
proof fn lemma_pieces_are_one(
    pending: Seq<u8>,
    full: Seq<char>,
    pieces: Seq<Seq<u8>>,
    parse: spec_fn(Seq<u8>) -> Option<ChatChunk>,
)
    requires
        complete_lines(pending).len() == 0,
    ensures
        updates_of_pieces(pending, full, pieces, parse) == updates_of_answer(
            pending + pieces.flatten(),
            full,
            parse,
        ),
    decreases pieces.len(),
{
    if pieces.len() == 0 {
        assert(pending + pieces.flatten() == pending);
        assert(parsed(complete_lines(pending), parse) == Seq::<Option<ChatChunk>>::empty());
        assert(updates_of_answer(pending, full, parse) == seq![UpdateModel::Done(full)]);
    } else {
        let bytes = pending + pieces[0];
        let rest = incomplete_rest(bytes);
        let later = pieces.drop_first().flatten();
        assert(pending + pieces.flatten() == bytes + later);
        let first = parsed(complete_lines(bytes), parse);
        let more = parsed(complete_lines(rest + later), parse);
        law_pieces_do_not_matter(bytes, later);
        assert(parsed(complete_lines(bytes + later), parse) == first + more);
        lemma_complete_in_parts(first, more);
        if is_complete(first) {
            lemma_nothing_after_end(full, first, more);
        } else {
            law_portions_do_not_matter(full, first, more);
            lemma_no_line_left(bytes);
            lemma_pieces_are_one(rest, reply_after(full, first), pieces.drop_first(), parse);
            let tail = updates_after(reply_after(full, first), more);
            let done = UpdateModel::Done(reply_after(full, first + more));
            assert(updates_after(full, first) + tail.push(done) == (updates_after(full, first)
                + tail).push(done));
        }
    }
}

/// What is said of an answer does not depend on how its bytes are cut into pieces,
/// be it inside a line or inside a character: two answers with the same bytes bring
/// the same updates. `parse` tells what a line holds, or that it cannot be parsed.
pub proof fn law_cuts_do_not_matter(
    pieces: Seq<Seq<u8>>,
    others: Seq<Seq<u8>>,
    parse: spec_fn(Seq<u8>) -> Option<ChatChunk>,
)
    requires
        pieces.flatten() == others.flatten(),
    ensures
        updates_of_pieces(seq![], seq![], pieces, parse) == updates_of_pieces(
            seq![],
            seq![],
            others,
            parse,
        ),
        updates_of_pieces(seq![], seq![], pieces, parse) == updates_of_answer(
            pieces.flatten(),
            seq![],
            parse,
        ),
{
    let none = Seq::<u8>::empty();
    assert(complete_lines(none).len() == 0);
    lemma_pieces_are_one(none, seq![], pieces, parse);
    lemma_pieces_are_one(none, seq![], others, parse);
    assert(none + pieces.flatten() == pieces.flatten());
}

// ---------------------------------------------------------------- the daemon

/// Where the daemon is reached unless another place is given.
pub const DEFAULT_HOST: &'static str = "http://localhost:11434";

/// The path on which the daemon takes conversations.
pub const CHAT_PATH: &'static str = "/api/chat";

/// Which model to ask, and where.
#[derive(Clone, Debug)]
pub struct OllamaClient {
    pub base_url: String,
    pub model: String,
}

impl OllamaClient {
    /// A client for a model, at the given place or the usual one.
    pub fn new(model: String, host: Option<String>) -> (r: OllamaClient)
        ensures
            r.model == model,
            host matches Some(h) ==> r.base_url == h,
            host is None ==> r.base_url@ == DEFAULT_HOST@,
            host is None ==> r.base_url@ == "http://localhost:11434"@,
    {
        let base_url = match host {
            Some(h) => h,
            None => String::from_str(DEFAULT_HOST),
        };
        OllamaClient { base_url, model }
    }

    /// The address for conversations.
    pub fn chat_url(&self) -> (r: String)
        ensures
            r@ == self.base_url@ + CHAT_PATH@,
            r@ == self.base_url@ + "/api/chat"@,
    {
        let mut out = self.base_url.clone();
        out.append(CHAT_PATH);
        out
    }
}

// ---------------------------------------------------------------- laws of the answer

/// Whether `contents` are the texts that some lines add, one for each line: the text of a
/// line as it stands, and nothing for a line that has none or could not be parsed.
pub open spec fn adds(chunks: Seq<Option<ChatChunk>>, contents: Seq<Seq<char>>) -> bool {
    &&& contents.len() == chunks.len()
    &&& forall|i: int|
        0 <= i < chunks.len() ==> match #[trigger] chunks[i] {
            Some(chunk) => match chunk.content {
                Some(content) => contents[i] == content@,
                None => contents[i].len() == 0,
            },
            None => contents[i].len() == 0,
        }
}

/// The fragments among some texts: those that are not empty, unchanged and in their order.
pub open spec fn fragments(contents: Seq<Seq<char>>) -> Seq<UpdateModel> {
    contents.filter(|c: Seq<char>| c.len() > 0).map_values(|c: Seq<char>| UpdateModel::Token(c))
}

proof fn lemma_first_fragment(contents: Seq<Seq<char>>)
    requires
        contents.len() > 0,
    ensures
        contents[0].len() > 0 ==> fragments(contents) == seq![UpdateModel::Token(contents[0])]
            + fragments(contents.drop_first()),
        contents[0].len() == 0 ==> fragments(contents) == fragments(contents.drop_first()),
{
    let holds = |c: Seq<char>| c.len() > 0;
    let token = |c: Seq<char>| UpdateModel::Token(c);
    let first = seq![contents[0]];
    let rest = contents.drop_first();
    assert(first + rest == contents);
    Seq::filter_distributes_over_add(first, rest, holds);
    assert(first.drop_last() == Seq::<Seq<char>>::empty());
    reveal(Seq::filter);
    assert(Seq::<Seq<char>>::empty().filter(holds) == Seq::<Seq<char>>::empty());
    assert(first.last() == contents[0]);
    if holds(contents[0]) {
        assert(first.filter(holds) == Seq::<Seq<char>>::empty().push(contents[0]));
        assert(contents.filter(holds) == seq![contents[0]] + rest.filter(holds));
        assert(fragments(contents) == seq![token(contents[0])] + fragments(rest));
    } else {
        assert(first.filter(holds) == Seq::<Seq<char>>::empty());
        assert(contents.filter(holds) == rest.filter(holds));
    }
}

/// The reply is what its lines add, one after the other and unchanged. Each text that is
/// not empty is a fragment of its own, in the order of the lines. The line that ends
/// the reply brings all of it, behind its fragment if it has one; without such a line the
/// reply is not complete.
#[verifier::rlimit(50)]
pub proof fn law_reply_is_what_the_lines_add(
    full: Seq<char>,
    chunks: Seq<Option<ChatChunk>>,
    contents: Seq<Seq<char>>,
)
    requires
        adds(chunks, contents),
        forall|i: int|
            0 <= i < chunks.len() - 1 ==> !(#[trigger] chunks[i] matches Some(chunk)
                && chunk.done),
    ensures
        reply_after(full, chunks) == full + contents.flatten(),
        ({
            let ends = chunks.len() > 0 && (chunks.last() matches Some(chunk) && chunk.done);
            &&& is_complete(chunks) <==> ends
            &&& ends ==> updates_after(full, chunks) == fragments(contents).push(
                UpdateModel::Done(full + contents.flatten()),
            )
            &&& !ends ==> updates_after(full, chunks) == fragments(contents)
        }),
    decreases chunks.len(),
{
    if chunks.len() == 0 {
        assert(contents == Seq::<Seq<char>>::empty());
        assert(contents.flatten() == Seq::<char>::empty());
        assert(full + contents.flatten() == full);
        reveal(Seq::filter);
        assert(fragments(contents) == Seq::<UpdateModel>::empty());
    } else {
        let rest = chunks.drop_first();
        let more = contents.drop_first();
        let first = contents[0];
        lemma_first_fragment(contents);
        assert(contents.flatten() == first + more.flatten());
        assert forall|i: int| 0 <= i < rest.len() implies match #[trigger] rest[i] {
            Some(chunk) => match chunk.content {
                Some(content) => more[i] == content@,
                None => more[i].len() == 0,
            },
            None => more[i].len() == 0,
        } by {
            assert(rest[i] == chunks[i + 1]);
            assert(more[i] == contents[i + 1]);
        }
        assert forall|i: int| 0 <= i < rest.len() - 1 implies !(
        #[trigger] rest[i] matches Some(chunk) && chunk.done) by {
            assert(rest[i] == chunks[i + 1]);
        }
        assert(chunks[0] matches Some(chunk) ==> added_by(chunk) == first);
        let longer = full + first;
        law_reply_is_what_the_lines_add(longer, rest, more);
        assert(longer + more.flatten() == full + contents.flatten());
        assert(full + Seq::<char>::empty() == full);
        if first.len() == 0 {
            assert(longer == full);
        }
        if chunks.len() > 1 {
            assert(!(chunks[0] matches Some(chunk) && chunk.done));
            lemma_complete_later(chunks);
            assert(rest.last() == chunks.last());
            assert(updates_after(full, chunks) == (if first.len() > 0 {
                seq![UpdateModel::Token(first)]
            } else {
                seq![]
            }) + updates_after(longer, rest));
        } else {
            assert(rest == Seq::<Option<ChatChunk>>::empty());
            assert(more == Seq::<Seq<char>>::empty());
            assert(more.flatten() == Seq::<char>::empty());
            assert(fragments(more) == Seq::<UpdateModel>::empty());
            assert(chunks.last() == chunks[0]);
            assert(updates_after(longer, rest) == Seq::<UpdateModel>::empty());
            if first.len() > 0 {
                assert(fragments(contents) == seq![UpdateModel::Token(first)]);
            } else {
                assert(fragments(contents) == Seq::<UpdateModel>::empty());
            }
            if !(chunks[0] matches Some(chunk) && chunk.done) {
                lemma_complete_later(chunks);
                assert(!is_complete(rest));
            }
        }
    }
}

proof fn lemma_no_reply_after_end(
    full: Seq<char>,
    first: Seq<Option<ChatChunk>>,
    more: Seq<Option<ChatChunk>>,
)
    requires
        is_complete(first),
    ensures
        reply_after(full, first + more) == reply_after(full, first),
    decreases first.len(),
{
    let all = first + more;
    let rest = first.drop_first();
    assert(all[0] == first[0]);
    assert(all.drop_first() == rest + more);
    match first[0] {
        Some(chunk) => {
            if !chunk.done {
                lemma_complete_later(first);
                lemma_no_reply_after_end(full + added_by(chunk), rest, more);
            }
        },
        None => {
            lemma_complete_later(first);
            lemma_no_reply_after_end(full, rest, more);
        },
    }
}

/// What follows the line that ends the reply counts for nothing.
pub proof fn law_nothing_follows_the_end(
    full: Seq<char>,
    first: Seq<Option<ChatChunk>>,
    last: ChatChunk,
    more: Seq<Option<ChatChunk>>,
)
    requires
        last.done,
    ensures
        is_complete(first.push(Some(last)) + more),
        reply_after(full, first.push(Some(last)) + more) == reply_after(
            full,
            first.push(Some(last)),
        ),
        updates_after(full, first.push(Some(last)) + more) == updates_after(
            full,
            first.push(Some(last)),
        ),
{
    let ended = first.push(Some(last));
    assert(ended[first.len() as int] == Some(last));
    assert(is_complete(ended));
    lemma_complete_in_parts(ended, more);
    lemma_no_reply_after_end(full, ended, more);
    lemma_nothing_after_end(full, ended, more);
}

/// A fragment goes on with the live text; the end of a reply, be it complete or failed,
/// leaves the text as it is.
pub proof fn law_only_fragments_are_shown(text: Seq<char>, t: Seq<char>)
    ensures
        live_text(text, seq![UpdateModel::Token(t)]) == text + t,
        live_text(text, seq![UpdateModel::Done(t)]) == text,
        live_text(text, seq![UpdateModel::Error(t)]) == text,
{
    reveal_with_fuel(live_text, 2);
    assert(seq![UpdateModel::Token(t)].drop_first() == Seq::<UpdateModel>::empty());
}

proof fn lemma_line_len_at(line: Seq<u8>, rest: Seq<u8>)
    requires
        !line.contains(10u8),
        rest.len() > 0 ==> rest[0] == 10u8,
    ensures
        rows::line_len(line + rest) == line.len(),
    decreases line.len(),
{
    if line.len() == 0 {
        assert(line + rest == rest);
    } else {
        let all = line + rest;
        assert(line.contains(line[0]));
        assert(all[0] == line[0]);
        assert(all.drop_first() == line.drop_first() + rest);
        assert forall|i: int| 0 <= i < line.drop_first().len() implies line.drop_first()[i]
            != 10u8 by {
            assert(line.contains(line[i + 1]));
        }
        lemma_line_len_at(line.drop_first(), rest);
    }
}

/// Bytes are handed out up to each line feed, without it. Empty lines are not, and what no
/// line feed has ended yet is kept.
#[verifier::rlimit(50)]
pub proof fn law_lines_end_at_feeds(line: Seq<u8>, rest: Seq<u8>)
    requires
        !line.contains(10u8),
    ensures
        line.len() > 0 ==> complete_lines(line + seq![10u8] + rest) == seq![line]
            + complete_lines(rest),
        complete_lines(seq![10u8] + rest) == complete_lines(rest),
        incomplete_rest(line + seq![10u8] + rest) == incomplete_rest(rest),
        complete_lines(line).len() == 0,
        incomplete_rest(line) == line,
{
    let none = Seq::<u8>::empty();
    let feed = seq![10u8];
    let ended = line + feed;
    // a line that has not ended
    lemma_line_len_at(line, none);
    assert(line + none == line);
    if line.len() > 0 {
        assert(line.contains(line[0]));
    }
    assert(skip_empty(line) == line);
    assert(first_line(line) is None);
    // a line feed alone
    assert(feed.drop_first() == none);
    assert(skip_empty(feed) == none) by {
        reveal_with_fuel(skip_empty, 2);
    }
    assert(rows::line_len(none) == 0);
    assert(first_line(feed) is None);
    assert(incomplete_rest(feed) == none);
    law_pieces_do_not_matter(feed, rest);
    assert(none + rest == rest);
    assert(complete_lines(feed) + complete_lines(rest) == complete_lines(rest));
    // a line that has
    if line.len() > 0 {
        lemma_line_len_at(line, feed);
        assert(ended[0] == line[0]);
        assert(skip_empty(ended) == ended);
        assert(ended.take(line.len() as int) == line);
        assert(ended.skip((line.len() + 1) as int) == none);
        assert(first_line(ended) == Some(line));
        assert(after_first_line(ended) == none);
        assert(complete_lines(none) == Seq::<Seq<u8>>::empty());
        assert(skip_empty(none) == none);
        assert(incomplete_rest(none) == none);
        assert(incomplete_rest(ended) == none);
        assert(complete_lines(ended) == seq![line]);
        law_pieces_do_not_matter(ended, rest);
    } else {
        assert(ended == feed);
    }
}

} // verus!
