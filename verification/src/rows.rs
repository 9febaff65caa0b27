//! Bytes that hold one row of text on each line.

use vstd::prelude::*;
use vstd::slice::slice_subrange;

use crate::text;

verus! {

/// The byte that ends a line.
pub const LINE_FEED: u8 = 10;

/// The length of the first line, or of all bytes where no line has ended.
pub open spec fn line_len(bytes: Seq<u8>) -> nat
    decreases bytes.len(),
{
    if bytes.len() == 0 || bytes[0] == LINE_FEED {
        0
    } else {
        1 + line_len(bytes.drop_first())
    }
}

/// The first line ends at the first line feed.
pub proof fn lemma_line_len(bytes: Seq<u8>)
    ensures
        line_len(bytes) <= bytes.len(),
        line_len(bytes) < bytes.len() ==> bytes[line_len(bytes) as int] == LINE_FEED,
        forall|i: int| 0 <= i < line_len(bytes) ==> bytes[i] != LINE_FEED,
    decreases bytes.len(),
{
    if bytes.len() > 0 && bytes[0] != LINE_FEED {
        let rest = bytes.drop_first();
        lemma_line_len(rest);
        assert forall|i: int| 0 <= i < line_len(bytes) implies bytes[i] != LINE_FEED by {
            if i > 0 {
                assert(rest[i - 1] == bytes[i]);
            }
        }
    }
}

/// The row in a line, without the white space around it: none in a blank line, and
/// none in one that is not UTF-8.
pub open spec fn row_of(line: Seq<u8>) -> Seq<Seq<char>> {
    let row = text::trimmed(vstd::utf8::decode_utf8(line));
    if vstd::utf8::valid_utf8(line) && row.len() > 0 {
        seq![row]
    } else {
        seq![]
    }
}

/// The rows in some bytes, line by line. The last line need not end in a line feed.
pub open spec fn rows_of(bytes: Seq<u8>) -> Seq<Seq<char>>
    decreases bytes.len(),
{
    let n = line_len(bytes) as int;
    if n < bytes.len() {
        row_of(bytes.take(n)) + rows_of(bytes.skip(n + 1))
    } else {
        row_of(bytes)
    }
}

/// Reads text out of bytes: `std::str::from_utf8`. It succeeds exactly where the
/// bytes are UTF-8, and then gives the text that they encode.
#[verifier::external_body]
fn decoded(bytes: &[u8]) -> (r: Option<&str>)
    ensures
        r is Some <==> vstd::utf8::valid_utf8(bytes@),
        r matches Some(s) ==> s@ == vstd::utf8::decode_utf8(bytes@),
{
    std::str::from_utf8(bytes).ok()
}

fn push_row(out: &mut Vec<String>, line: &[u8])
    ensures
        text::texts(final(out)@) == text::texts(old(out)@) + row_of(line@),
{
    let ghost before = out@;
    if let Some(s) = decoded(line) {
        let row = text::trim_text(s);
        if !row.as_str().is_empty() {
            out.push(row);
            assert(text::texts(out@) == text::texts(before) + seq![row@]);
        }
    }
    assert(text::texts(out@) == text::texts(before) + row_of(line@));
}

/// Reads the rows. Lines in which there is none are passed over.
pub fn rows_in(bytes: &[u8]) -> (r: Vec<String>)
    ensures
        text::texts(r@) == rows_of(bytes@),
{
    let ghost all = bytes@;
    let mut out: Vec<String> = Vec::new();
    let mut start: usize = 0;
    let mut more: bool = true;
    assert(all.skip(0) == all);
    assert(text::texts(out@) + rows_of(all) == rows_of(all));
    while more
        invariant
            bytes@ == all,
            start <= all.len(),
            more ==> text::texts(out@) + rows_of(all.skip(start as int)) == rows_of(all),
            !more ==> text::texts(out@) == rows_of(all),
        decreases
                if more {
                    1 + all.len() - start
                } else {
                    0
                },
    {
        let ghost rest = all.skip(start as int);
        let ghost before = text::texts(out@);
        let mut end: usize = start;
        while end < bytes.len() && bytes[end] != LINE_FEED
            invariant
                bytes@ == all,
                rest == all.skip(start as int),
                start <= end <= all.len(),
                line_len(rest) == (end - start) + line_len(all.skip(end as int)),
            decreases all.len() - end,
        {
            assert(all.skip(end as int).drop_first() == all.skip(end + 1));
            end += 1;
        }
        let line = slice_subrange(bytes, start, end);
        assert(line@ == rest.take(end - start));
        push_row(&mut out, line);
        if end < bytes.len() {
            start = end + 1;
            assert(rest.skip(line_len(rest) as int + 1) == all.skip(start as int));
            assert(before + (row_of(line@) + rows_of(all.skip(start as int))) == text::texts(out@)
                + rows_of(all.skip(start as int)));
        } else {
            more = false;
            assert(rest.take(end - start) == rest);
        }
    }
    out
}

/// The line that a row is written as.
pub fn row_line(row: &str) -> (r: String)
    ensures
        r@ == row@ + seq!['\n'],
        vstd::utf8::encode_utf8(r@) == vstd::utf8::encode_utf8(row@) + seq![LINE_FEED],
{
    let mut out = String::from_str(row);
    out.push('\n');
    proof {
        lemma_encode_more(row@, seq!['\n']);
        lemma_encode_feed();
        assert(out@ == row@ + seq!['\n']);
    }
    out
}

proof fn lemma_encode_feed()
    ensures
        vstd::utf8::encode_utf8(seq!['\n']) == seq![LINE_FEED],
{
    let s = seq!['\n'];
    assert(s.drop_first() == Seq::<char>::empty());
    assert((10u32 & 0x7F) as u8 == 10u8) by (bit_vector);
    assert(vstd::utf8::encode_utf8(s.drop_first()) == Seq::<u8>::empty());
    assert(vstd::utf8::encode_scalar('\n' as u32) == seq![LINE_FEED]);
}

/// Texts that follow one another are encoded one after the other.
pub proof fn lemma_encode_more(a: Seq<char>, b: Seq<char>)
    ensures
        vstd::utf8::encode_utf8(a + b) == vstd::utf8::encode_utf8(a) + vstd::utf8::encode_utf8(b),
    decreases a.len(),
{
    if a.len() == 0 {
        assert(a + b == b);
    } else {
        assert((a + b).drop_first() == a.drop_first() + b);
        lemma_encode_more(a.drop_first(), b);
    }
}

/// No character but the line feed has a line feed among its bytes.
proof fn lemma_feed_only_in_feed(c: char)
    requires
        c != '\n',
    ensures
        !vstd::utf8::encode_scalar(c as u32).contains(LINE_FEED),
{
    let v = c as u32;
    assert(v < 0x80 && v != 10 ==> (v & 0x7F) as u8 != 10u8) by (bit_vector);
    assert(0xC0u8 | ((v >> 6) & 0x1F) as u8 != 10u8) by (bit_vector);
    assert(0xE0u8 | ((v >> 12) & 0x0F) as u8 != 10u8) by (bit_vector);
    assert(0xF0u8 | ((v >> 18) & 0x7) as u8 != 10u8) by (bit_vector);
    assert(0x80u8 | (v & 0x3F) as u8 != 10u8) by (bit_vector);
    assert(0x80u8 | ((v >> 6) & 0x3F) as u8 != 10u8) by (bit_vector);
    assert(0x80u8 | ((v >> 12) & 0x3F) as u8 != 10u8) by (bit_vector);
}

proof fn lemma_no_feed(row: Seq<char>)
    requires
        !row.contains('\n'),
    ensures
        !vstd::utf8::encode_utf8(row).contains(LINE_FEED),
    decreases row.len(),
{
    if row.len() > 0 {
        let rest = row.drop_first();
        assert(row[0] != '\n');
        lemma_feed_only_in_feed(row[0]);
        assert forall|i: int| 0 <= i < rest.len() implies rest[i] != '\n' by {
            assert(rest[i] == row[i + 1]);
        }
        lemma_no_feed(rest);
        let first = vstd::utf8::encode_scalar(row[0] as u32);
        let tail = vstd::utf8::encode_utf8(rest);
        assert forall|i: int| 0 <= i < (first + tail).len() implies (first + tail)[i]
            != LINE_FEED by {
            if i < first.len() {
                assert(first.contains(first[i]));
            } else {
                assert((first + tail)[i] == tail[i - first.len()]);
                assert(tail.contains(tail[i - first.len()]));
            }
        }
    }
}

proof fn lemma_first_line_len(line: Seq<u8>, rest: Seq<u8>)
    requires
        !line.contains(LINE_FEED),
    ensures
        line_len(line + seq![LINE_FEED] + rest) == line.len(),
    decreases line.len(),
{
    let all = line + seq![LINE_FEED] + rest;
    if line.len() > 0 {
        let tail = line.drop_first();
        assert(line.contains(line[0]));
        assert forall|i: int| 0 <= i < tail.len() implies tail[i] != LINE_FEED by {
            assert(line.contains(line[i + 1]));
        }
        assert(all.drop_first() == tail + seq![LINE_FEED] + rest);
        lemma_first_line_len(tail, rest);
    }
}

/// The rows of two logs, one written after the other, are those of the first,
/// followed by those of the second. A line that holds no row, such as one that is
/// not UTF-8, is passed over wherever it stands.
pub proof fn law_logs_add_up(a: Seq<u8>, b: Seq<u8>)
    ensures
        rows_of(a + seq![LINE_FEED] + b) == rows_of(a) + rows_of(b),
    decreases a.len(),
{
    let all = a + seq![LINE_FEED] + b;
    let n = line_len(a) as int;
    lemma_line_len(a);
    if n < a.len() {
        let line = a.take(n);
        let rest = a.skip(n + 1);
        assert(!line.contains(LINE_FEED));
        assert(all == line + seq![LINE_FEED] + (rest + seq![LINE_FEED] + b));
        lemma_first_line_len(line, rest + seq![LINE_FEED] + b);
        assert(all.take(n) == line);
        assert(all.skip(n + 1) == rest + seq![LINE_FEED] + b);
        law_logs_add_up(rest, b);
        assert(rows_of(all) == rows_of(a) + rows_of(b));
    } else {
        assert(!a.contains(LINE_FEED));
        lemma_first_line_len(a, b);
        assert(all.take(n) == a);
        assert(all.skip(n + 1) == b);
    }
}

/// What is appended to a log is read back: a row that is one line with no white
/// space around it comes after all the rows that were there before, which stay as
/// they are. A log is empty or ends in a line feed.
pub proof fn law_appended_row_is_read(log: Seq<u8>, row: Seq<char>)
    requires
        log.len() == 0 || log.last() == LINE_FEED,
        text::is_clean(row),
    ensures
        rows_of(log + (vstd::utf8::encode_utf8(row) + seq![LINE_FEED])) == rows_of(log).push(row),
{
    let line = vstd::utf8::encode_utf8(row);
    let none = Seq::<u8>::empty();
    lemma_no_feed(row);
    vstd::utf8::encode_utf8_valid_utf8(row);
    vstd::utf8::encode_utf8_decode_utf8(row);
    assert(row_of(line) == seq![row]);
    lemma_line_len(line);
    if line_len(line) < line.len() {
        assert(line.contains(line[line_len(line) as int]));
    }
    assert(rows_of(line) == seq![row]);
    assert(rows_of(none) == Seq::<Seq<char>>::empty()) by {
        assert(text::trimmed(vstd::utf8::decode_utf8(none)).len() == 0);
    }
    law_logs_add_up(line, none);
    assert(line + seq![LINE_FEED] + none == line + seq![LINE_FEED]);
    assert(rows_of(line + seq![LINE_FEED]) == seq![row]);
    if log.len() == 0 {
        assert(log == none);
        assert(log + (line + seq![LINE_FEED]) == line + seq![LINE_FEED]);
    } else {
        let front = log.drop_last();
        law_logs_add_up(front, line + seq![LINE_FEED]);
        law_logs_add_up(front, none);
        assert(front + seq![LINE_FEED] + none == log);
        assert(log + (line + seq![LINE_FEED]) == front + seq![LINE_FEED] + (line
            + seq![LINE_FEED]));
        assert(rows_of(log) == rows_of(front));
    }
}

/// The bytes of a log that some rows were written to, one after the other.
pub open spec fn log_of(rows: Seq<Seq<char>>) -> Seq<u8>
    decreases rows.len(),
{
    if rows.len() == 0 {
        seq![]
    } else {
        log_of(rows.drop_last()) + (vstd::utf8::encode_utf8(rows.last()) + seq![LINE_FEED])
    }
}

/// A log that is written anew reads back as the rows that were written.
pub proof fn law_written_log_is_read(rows: Seq<Seq<char>>)
    requires
        forall|i: int| 0 <= i < rows.len() ==> text::is_clean(#[trigger] rows[i]),
    ensures
        rows_of(log_of(rows)) == rows,
        rows.len() > 0 ==> log_of(rows).len() > 0 && log_of(rows).last() == LINE_FEED,
    decreases rows.len(),
{
    if rows.len() == 0 {
        let none = Seq::<u8>::empty();
        assert(text::trimmed(vstd::utf8::decode_utf8(none)).len() == 0);
        assert(rows_of(none) == rows);
    } else {
        let before = rows.drop_last();
        assert forall|i: int| 0 <= i < before.len() implies text::is_clean(#[trigger] before[i]) by {
            assert(before[i] == rows[i]);
        }
        law_written_log_is_read(before);
        law_appended_row_is_read(log_of(before), rows.last());
        assert(before.push(rows.last()) == rows);
    }
}

/// A line of text is one row, without the white space around it, and no row where it is
/// blank. Bytes that are no text are no row.
pub proof fn law_line_is_a_row(line: Seq<char>, bytes: Seq<u8>)
    requires
        !line.contains('\n'),
        !bytes.contains(10u8),
    ensures
        text::trimmed(line).len() > 0 ==> rows_of(vstd::utf8::encode_utf8(line)) == seq![
            text::trimmed(line),
        ],
        text::trimmed(line).len() == 0 ==> rows_of(vstd::utf8::encode_utf8(line)).len() == 0,
        !vstd::utf8::valid_utf8(bytes) ==> rows_of(bytes).len() == 0,
{
    let encoded = vstd::utf8::encode_utf8(line);
    lemma_no_feed(line);
    vstd::utf8::encode_utf8_valid_utf8(line);
    vstd::utf8::encode_utf8_decode_utf8(line);
    lemma_line_len(encoded);
    if line_len(encoded) < encoded.len() {
        assert(encoded.contains(encoded[line_len(encoded) as int]));
    }
    lemma_line_len(bytes);
    if line_len(bytes) < bytes.len() {
        assert(bytes.contains(bytes[line_len(bytes) as int]));
    }
}

/// A log that rows are written to one after the other holds each row and a line feed, in
/// their order.
pub proof fn law_log_holds_each_row(a: Seq<Seq<char>>, b: Seq<Seq<char>>, row: Seq<char>)
    ensures
        log_of(a + b) == log_of(a) + log_of(b),
        log_of(seq![row]) == vstd::utf8::encode_utf8(row.push('\n')),
    decreases b.len(),
{
    let none = Seq::<Seq<char>>::empty();
    assert(seq![row].drop_last() == none);
    assert(seq![row].last() == row);
    assert(log_of(none) == Seq::<u8>::empty());
    assert(row.push('\n') == row + seq!['\n']);
    lemma_encode_more(row, seq!['\n']);
    lemma_encode_feed();
    assert(log_of(seq![row]) == vstd::utf8::encode_utf8(row) + seq![LINE_FEED]);
    if b.len() == 0 {
        assert(a + b == a);
    } else {
        law_log_holds_each_row(a, b.drop_last(), row);
        assert((a + b).drop_last() == a + b.drop_last());
        assert((a + b).last() == b.last());
    }
}

} // verus!
