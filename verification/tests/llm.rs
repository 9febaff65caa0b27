use speakflow::llm;
use speakflow::llm::{ChatChunk, ChatMessage, ChatStream, LlmUpdate, OllamaClient, StreamBuffer};

fn chunk(content: Option<&str>, done: bool) -> Option<ChatChunk> {
    Some(ChatChunk { content: content.map(|c| c.to_string()), done })
}

fn drain(stream: &mut ChatStream) -> Vec<String> {
    stream.take_lines().into_iter().map(|l| String::from_utf8(l).unwrap()).collect()
}

fn shown(updates: Vec<LlmUpdate>) -> Vec<String> {
    updates
        .into_iter()
        .map(|u| match u {
            LlmUpdate::Token(t) => format!("token {}", t),
            LlmUpdate::Done(t) => format!("done {}", t),
            LlmUpdate::Error(e) => format!("error {}", e),
        })
        .collect()
}

#[test]
fn messages_have_a_role() {
    let m = ChatMessage::system("be kind".to_string());
    assert_eq!((m.role.as_str(), m.content.as_str()), ("system", "be kind"));
    let m = ChatMessage::user("hello".to_string());
    assert_eq!((m.role.as_str(), m.content.as_str()), ("user", "hello"));
}

#[test]
fn the_daemon_is_local_unless_a_host_is_given() {
    let c = OllamaClient::new("m".to_string(), None);
    assert_eq!(c.chat_url(), "http://localhost:11434/api/chat");
    assert_eq!(c.model, "m");
    let c = OllamaClient::new("m".to_string(), Some("http://box:1".to_string()));
    assert_eq!(c.chat_url(), "http://box:1/api/chat");
    assert_eq!(llm::DEFAULT_HOST, "http://localhost:11434");
}

#[test]
fn lines_are_handed_out_once_they_are_complete() {
    let mut s = ChatStream::new();
    s.receive(b"one\ntw");
    assert_eq!(drain(&mut s), vec!["one".to_string()]);
    s.receive(b"");
    assert!(drain(&mut s).is_empty());
    s.receive(b"o\n\n\nthree\nfour");
    assert_eq!(drain(&mut s), vec!["two".to_string(), "three".to_string()]);
    s.receive(b"\n");
    assert_eq!(drain(&mut s), vec!["four".to_string()]);
}

#[test]
fn how_bytes_are_cut_makes_no_difference() {
    let bytes = b"\n\nalpha\nbeta\n\ngamma\nrest";
    let mut whole = ChatStream::new();
    whole.receive(bytes);
    let expected = drain(&mut whole);
    for cut in 0..bytes.len() {
        let mut s = ChatStream::new();
        s.receive(&bytes[..cut]);
        let mut lines = drain(&mut s);
        s.receive(&bytes[cut..]);
        lines.extend(drain(&mut s));
        assert_eq!(lines, expected);
        assert_eq!(s.pending, whole.pending);
    }
}

#[test]
fn fragments_make_up_the_reply() {
    let mut s = ChatStream::new();
    let (u, complete) = s.accept_lines(vec![chunk(Some("Hel"), false)]);
    assert_eq!((shown(u), complete), (vec!["token Hel".to_string()], false));
    let (u, complete) = s.accept_lines(vec![chunk(Some(""), false), None, chunk(None, false)]);
    assert_eq!((shown(u), complete), (vec![], false));
    let (u, complete) = s.accept_lines(vec![chunk(Some("lo"), true), chunk(Some("!"), false)]);
    assert_eq!(
        (shown(u), complete),
        (vec!["token lo".to_string(), "done Hello".to_string()], true)
    );
    assert_eq!(s.full, "Hello");
}

#[test]
fn lines_may_come_in_any_portions() {
    let lines = || {
        vec![chunk(Some("a"), false), None, chunk(Some("b"), false), chunk(None, true)]
    };
    let mut whole = ChatStream::new();
    let expected = shown(whole.accept_lines(lines()).0);
    for cut in 0..lines().len() {
        let mut s = ChatStream::new();
        let mut first = lines();
        let more = first.split_off(cut);
        let mut updates = shown(s.accept_lines(first).0);
        updates.extend(shown(s.accept_lines(more).0));
        assert_eq!(updates, expected);
        assert_eq!(s.full, whole.full);
    }
}

#[test]
fn a_reply_that_breaks_off_is_what_has_arrived() {
    let mut s = ChatStream::new();
    s.accept_lines(vec![chunk(Some("half"), false)]);
    assert!(matches!(s.end(), LlmUpdate::Done(t) if t == "half"));
}

#[test]
fn what_is_shown_is_the_reply() {
    let mut stream = ChatStream::new();
    let mut buffer = StreamBuffer::new();
    let mut end = None;
    for (content, done) in [("a", false), ("", false), ("b c", false), ("d", true)] {
        for update in stream.accept_lines(vec![chunk(Some(content), done)]).0 {
            if let Some(e) = buffer.take_in(update) {
                end = Some(e);
            }
        }
    }
    assert_eq!(buffer.snapshot(), "ab cd");
    assert_eq!(end, Some(Ok("ab cd".to_string())));
    buffer.clear();
    assert_eq!(buffer.snapshot(), "");
}

#[test]
fn a_failure_is_handed_on() {
    let mut buffer = StreamBuffer::new();
    buffer.append("so far");
    let end = buffer.take_in(LlmUpdate::Error("down".to_string()));
    assert_eq!(end, Some(Err("down".to_string())));
    assert_eq!(buffer.snapshot(), "so far");
}

/// A line holds a fragment, "-" for one that cannot be parsed, or "." for the end.
fn parse(line: &[u8]) -> Option<ChatChunk> {
    match std::str::from_utf8(line) {
        Ok(".") => chunk(None, true),
        Ok("-") => None,
        Ok(s) => chunk(Some(s), false),
        Err(_) => None,
    }
}

fn run(pieces: &[&[u8]]) -> Vec<String> {
    let mut stream = ChatStream::new();
    let mut out = Vec::new();
    for piece in pieces {
        stream.receive(piece);
        let chunks = stream.take_lines().iter().map(|l| parse(l)).collect();
        let (updates, complete) = stream.accept_lines(chunks);
        out.extend(shown(updates));
        if complete {
            return out;
        }
    }
    out.extend(shown(vec![stream.end()]));
    out
}

#[test]
fn an_answer_in_any_number_of_pieces_says_the_same() {
    for answer in ["a\n-\n\nbü\n.\nc\n", "a\nb\nhalf", ""] {
        let bytes = answer.as_bytes();
        let whole = run(&[bytes]);
        let single: Vec<&[u8]> = bytes.chunks(1).collect();
        assert_eq!(run(&single), whole);
        let triple: Vec<&[u8]> = bytes.chunks(3).collect();
        assert_eq!(run(&triple), whole);
    }
    assert_eq!(run(&[b"a\n-\nb\n.\nc\n"]), vec![
        "token a".to_string(),
        "token b".to_string(),
        "done ab".to_string(),
    ]);
}
