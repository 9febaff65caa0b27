//! Plain-text building blocks: white space, lines, words, joining and numbers.
//!
//! Text is modelled as a sequence of characters. The executable functions work
//! on character slices, which are taken out of a string once.

use vstd::prelude::*;
use vstd::slice::slice_subrange;

verus! {

/// `String::push` appends one character.
pub assume_specification[ String::push ](s: &mut String, c: char)
    ensures
        final(s)@ == old(s)@.push(c),
;

/// The text in some bytes, as `String::from_utf8_lossy` reads it.
pub uninterp spec fn lossy_text(bytes: Seq<u8>) -> Seq<char>;

/// Reads text out of bytes that may not all be text: `String::from_utf8_lossy`. What it
/// gives depends on the bytes alone, and bytes that are UTF-8 give the text that they
/// encode. How many marks stand in for bytes that are not is left unsaid.
#[verifier::external_body]
pub(crate) fn read_lossy(bytes: &[u8]) -> (r: String)
    ensures
        r@ == lossy_text(bytes@),
        vstd::utf8::valid_utf8(bytes@) ==> r@ == vstd::utf8::decode_utf8(bytes@),
{
    String::from_utf8_lossy(bytes).into_owned()
}

/// The characters of a string, in order.
pub fn to_chars(s: &str) -> (r: Vec<char>)
    ensures
        r@ == s@,
{
    let mut out: Vec<char> = Vec::new();
    for c in it: s.chars()
        invariant
            out@ == s@.take(it.index()),
            it.seq() == s@,
    {
        out.push(c);
        assert(s@.take(it.index() + 1) == s@.take(it.index()).push(c));
    }
    assert(s@.take(s@.len() as int) == s@);
    out
}

/// A string that holds the given characters.
pub fn from_chars(chars: &[char]) -> (r: String)
    ensures
        r@ == chars@,
{
    let mut out = String::new();
    let mut i: usize = 0;
    while i < chars.len()
        invariant
            i <= chars.len(),
            out@ == chars@.take(i as int),
        decreases chars.len() - i,
    {
        out.push(chars[i]);
        assert(chars@.take(i + 1) == chars@.take(i as int).push(chars@[i as int]));
        i += 1;
    }
    assert(chars@.take(chars@.len() as int) == chars@);
    out
}

/// The characters with the Unicode `White_Space` property.
pub open spec fn is_space(c: char) -> bool {
    ||| '\u{9}' <= c <= '\u{d}'
    ||| c == ' '
    ||| c == '\u{85}'
    ||| c == '\u{a0}'
    ||| c == '\u{1680}'
    ||| '\u{2000}' <= c <= '\u{200a}'
    ||| c == '\u{2028}'
    ||| c == '\u{2029}'
    ||| c == '\u{202f}'
    ||| c == '\u{205f}'
    ||| c == '\u{3000}'
}

/// Whether a character is white space.
pub fn is_whitespace(c: char) -> (r: bool)
    ensures
        r == is_space(c),
{
    ('\u{9}' <= c && c <= '\u{d}') || c == ' ' || c == '\u{85}' || c == '\u{a0}' || c == '\u{1680}'
        || ('\u{2000}' <= c && c <= '\u{200a}') || c == '\u{2028}' || c == '\u{2029}' || c
        == '\u{202f}' || c == '\u{205f}' || c == '\u{3000}'
}

/// `s` without the white space it begins with.
pub open spec fn trim_start(s: Seq<char>) -> Seq<char>
    decreases s.len(),
{
    if s.len() > 0 && is_space(s[0]) {
        trim_start(s.drop_first())
    } else {
        s
    }
}

/// `s` without the white space it ends with.
pub open spec fn trim_end(s: Seq<char>) -> Seq<char>
    decreases s.len(),
{
    if s.len() > 0 && is_space(s.last()) {
        trim_end(s.drop_last())
    } else {
        s
    }
}

/// `s` without the white space around it.
pub open spec fn trimmed(s: Seq<char>) -> Seq<char> {
    trim_end(trim_start(s))
}

/// The part of a slice that is left when the white space around it is dropped.
pub fn trim(s: &[char]) -> (r: &[char])
    ensures
        r@ == trimmed(s@),
{
    let mut from: usize = 0;
    assert(s@.skip(0) == s@);
    while from < s.len() && is_whitespace(s[from])
        invariant
            from <= s.len(),
            trim_start(s@.skip(from as int)) == trim_start(s@),
        decreases s.len() - from,
    {
        assert(s@.skip(from as int).drop_first() == s@.skip(from + 1));
        from += 1;
    }
    let mut to: usize = s.len();
    assert(s@.subrange(from as int, to as int) == s@.skip(from as int));
    while to > from && is_whitespace(s[to - 1])
        invariant
            from <= to <= s.len(),
            trim_end(s@.subrange(from as int, to as int)) == trimmed(s@),
        decreases to,
    {
        assert(s@.subrange(from as int, to as int).drop_last() == s@.subrange(
            from as int,
            to - 1,
        ));
        to -= 1;
    }
    slice_subrange(s, from, to)
}

/// Drops the white space around a string.
pub fn trim_text(s: &str) -> (r: String)
    ensures
        r@ == trimmed(s@),
{
    let chars = to_chars(s);
    from_chars(trim(chars.as_slice()))
}

/// Whether a string holds white space only.
pub fn is_blank(s: &str) -> (r: bool)
    ensures
        r == (trimmed(s@).len() == 0),
{
    let chars = to_chars(s);
    trim(chars.as_slice()).len() == 0
}

/// The texts that a sequence of strings holds.
pub open spec fn texts(v: Seq<String>) -> Seq<Seq<char>> {
    Seq::new(v.len(), |i: int| v[i]@)
}

/// The texts that a sequence of character slices holds.
pub open spec fn slice_texts(v: Seq<&[char]>) -> Seq<Seq<char>> {
    Seq::new(v.len(), |i: int| v[i]@)
}

/// Copies of some strings.
pub fn copies(v: &Vec<String>) -> (r: Vec<String>)
    ensures
        texts(r@) == texts(v@),
{
    let mut out: Vec<String> = Vec::new();
    let mut i: usize = 0;
    while i < v.len()
        invariant
            i <= v.len(),
            out@ == v@.take(i as int),
        decreases v.len() - i,
    {
        out.push(v[i].clone());
        assert(v@.take(i + 1) == v@.take(i as int).push(v@[i as int]));
        i += 1;
    }
    assert(v@.take(v@.len() as int) == v@);
    out
}

/// The position of the first `c` in `s`, or the length of `s` where there is none.
pub open spec fn position_of(s: Seq<char>, c: char) -> nat
    decreases s.len(),
{
    if s.len() == 0 || s[0] == c {
        0
    } else {
        1 + position_of(s.drop_first(), c)
    }
}

/// `position_of` is the first position of `c`, and lies past the end where there is none.
pub proof fn lemma_position_of(s: Seq<char>, c: char)
    ensures
        position_of(s, c) <= s.len(),
        position_of(s, c) < s.len() ==> s[position_of(s, c) as int] == c,
        position_of(s, c) < s.len() <==> s.contains(c),
        forall|i: int| 0 <= i < position_of(s, c) ==> s[i] != c,
    decreases s.len(),
{
    if s.len() > 0 {
        if s[0] != c {
            let rest = s.drop_first();
            lemma_position_of(rest, c);
            assert forall|i: int| 0 <= i < position_of(s, c) implies s[i] != c by {
                if i > 0 {
                    assert(rest[i - 1] == s[i]);
                }
            }
            if s.contains(c) {
                let k = choose|k: int| 0 <= k < s.len() && s[k] == c;
                assert(rest[k - 1] == c);
            }
            if position_of(s, c) < s.len() {
                assert(s[position_of(s, c) as int] == rest[position_of(rest, c) as int]);
            }
        }
    }
}

/// The position of the first `c` at or after `from`, counted from `from`.
pub fn find_char(s: &[char], from: usize, c: char) -> (r: usize)
    requires
        from <= s.len(),
    ensures
        r == position_of(s@.skip(from as int), c),
        from + r <= s.len(),
{
    let mut i: usize = from;
    while i < s.len() && s[i] != c
        invariant
            from <= i <= s.len(),
            position_of(s@.skip(from as int), c) == (i - from) + position_of(s@.skip(i as int), c),
        decreases s.len() - i,
    {
        assert(s@.skip(i as int).drop_first() == s@.skip(i + 1));
        i += 1;
    }
    i - from
}

/// A line without the carriage return of a `\r\n` line ending.
pub open spec fn without_return(line: Seq<char>) -> Seq<char> {
    if line.len() > 0 && line.last() == '\r' {
        line.drop_last()
    } else {
        line
    }
}

/// The lines of a text: it is cut at each line feed, `\r\n` counts as one line
/// ending, and the last line may lack one.
pub open spec fn lines_of(s: Seq<char>) -> Seq<Seq<char>>
    decreases s.len(),
{
    let n = position_of(s, '\n');
    if s.len() == 0 {
        seq![]
    } else if n >= s.len() {
        seq![s]
    } else {
        seq![without_return(s.take(n as int))] + lines_of(s.skip(n as int + 1))
    }
}

/// The lines of a text.
pub fn lines(s: &[char]) -> (r: Vec<&[char]>)
    ensures
        slice_texts(r@) == lines_of(s@),
{
    let mut out: Vec<&[char]> = Vec::new();
    let mut at: usize = 0;
    assert(s@.skip(0) == s@);
    assert(slice_texts(out@) + lines_of(s@) == lines_of(s@));
    while at < s.len()
        invariant
            at <= s.len(),
            slice_texts(out@) + lines_of(s@.skip(at as int)) == lines_of(s@),
        decreases s.len() - at,
    {
        let ghost rest = s@.skip(at as int);
        let ghost before = out@;
        let n: usize = find_char(s, at, '\n');
        if n == s.len() - at {
            let line = slice_subrange(s, at, s.len());
            assert(line@ == rest);
            out.push(line);
            assert(slice_texts(out@) == slice_texts(before).push(rest));
            assert(slice_texts(out@) == slice_texts(before) + seq![rest]);
            at = s.len();
            assert(s@.skip(at as int) == Seq::<char>::empty());
            assert(slice_texts(out@) + lines_of(s@.skip(at as int)) == slice_texts(out@));
        } else {
            let mut end: usize = at + n;
            let ghost whole = rest.take(n as int);
            assert(s@.subrange(at as int, end as int) == whole);
            if n > 0 && s[end - 1] == '\r' {
                assert(whole.last() == '\r');
                end -= 1;
                assert(s@.subrange(at as int, end as int) == whole.drop_last());
            }
            let line = slice_subrange(s, at, end);
            assert(line@ == without_return(whole));
            out.push(line);
            assert(slice_texts(out@) == slice_texts(before).push(line@));
            assert(rest.skip(n as int + 1) == s@.skip(at + n + 1));
            at = at + n + 1;
            assert(slice_texts(out@) + lines_of(s@.skip(at as int)) == slice_texts(before) + (
            seq![line@] + lines_of(s@.skip(at as int))));
        }
    }
    assert(s@.skip(at as int) == Seq::<char>::empty());
    assert(slice_texts(out@) + lines_of(s@.skip(at as int)) == slice_texts(out@));
    out
}

/// Whether `s` begins with `prefix`.
pub open spec fn begins_with(s: Seq<char>, prefix: Seq<char>) -> bool {
    prefix.is_prefix_of(s)
}

/// Whether `part` stands in `s` at position `at`.
pub open spec fn stands_at(s: Seq<char>, part: Seq<char>, at: int) -> bool {
    0 <= at && at + part.len() <= s.len() && s.subrange(at, at + part.len()) == part
}

/// Whether `part` stands anywhere in `s`.
pub open spec fn has_part(s: Seq<char>, part: Seq<char>) -> bool {
    exists|at: int| stands_at(s, part, at)
}

/// Whether the characters from `at` on begin with `part`.
pub fn part_at(s: &[char], at: usize, part: &[char]) -> (r: bool)
    requires
        at <= s.len(),
    ensures
        r == stands_at(s@, part@, at as int),
{
    if part.len() > s.len() - at {
        return false;
    }
    let mut i: usize = 0;
    while i < part.len()
        invariant
            i <= part.len(),
            at + part.len() <= s.len(),
            forall|k: int| 0 <= k < i ==> s@[at + k] == part@[k],
        decreases part.len() - i,
    {
        if s[at + i] != part[i] {
            assert(s@.subrange(at as int, at + part@.len())[i as int] != part@[i as int]);
            return false;
        }
        i += 1;
    }
    assert(s@.subrange(at as int, at + part@.len()) == part@);
    true
}

/// Whether the characters begin with a given text.
pub fn starts_with(s: &[char], prefix: &str) -> (r: bool)
    ensures
        r == begins_with(s@, prefix@),
{
    let p = to_chars(prefix);
    let r = part_at(s, 0, p.as_slice());
    proof {
        if r {
            assert(s@.subrange(0, p@.len() as int) == p@);
            assert(forall|i: int| 0 <= i < p@.len() ==> s@[i] == s@.subrange(0, p@.len() as int)[i]);
        } else if begins_with(s@, p@) {
            assert(s@.subrange(0, p@.len() as int) == p@);
        }
    }
    r
}

/// What follows a given text at the beginning of the characters, where they begin with it.
pub fn strip_prefix<'a>(s: &'a [char], prefix: &str) -> (r: Option<&'a [char]>)
    ensures
        r is Some <==> begins_with(s@, prefix@),
        r matches Some(rest) ==> rest@ == s@.skip(prefix@.len() as int),
{
    if starts_with(s, prefix) {
        let n: usize = to_chars(prefix).len();
        let rest = slice_subrange(s, n, s.len());
        assert(rest@ == s@.skip(n as int));
        Some(rest)
    } else {
        None
    }
}

/// Whether a text stands anywhere in the characters.
pub fn contains(s: &[char], part: &str) -> (r: bool)
    ensures
        r == has_part(s@, part@),
{
    let p = to_chars(part);
    if p.len() > s.len() {
        return false;
    }
    let last: usize = s.len() - p.len();
    let mut i: usize = 0;
    while i <= last
        invariant
            i <= last + 1,
            p@ == part@,
            last == s.len() - p.len(),
            last + 1 <= s.len() + 1,
            forall|k: int| 0 <= k < i ==> !stands_at(s@, part@, k),
        decreases last + 1 - i,
    {
        if part_at(s, i, p.as_slice()) {
            return true;
        }
        if i == last {
            assert forall|k: int| !stands_at(s@, part@, k) by {}
            return false;
        }
        i += 1;
    }
    false
}

/// Whether two texts are equal.
pub fn same_text(a: &str, b: &str) -> (r: bool)
    ensures
        r == (a@ == b@),
{
    let x = to_chars(a);
    let y = to_chars(b);
    let r = x.len() == y.len() && part_at(x.as_slice(), 0, y.as_slice());
    assert(x@.subrange(0, x@.len() as int) == x@);
    r
}

/// Whether a word begins at position `i`: a character that is no white space
/// follows white space or opens the text.
pub open spec fn word_begins(s: Seq<char>, i: int) -> bool {
    !is_space(s[i]) && (i == 0 || is_space(s[i - 1]))
}

/// The number of words in a text, words being what white space keeps apart.
pub open spec fn words_in(s: Seq<char>) -> nat
    decreases s.len(),
{
    if s.len() == 0 {
        0
    } else {
        words_in(s.drop_last()) + if word_begins(s, s.len() - 1) {
            1nat
        } else {
            0nat
        }
    }
}

/// Counts the words of a text.
pub fn count_words(text: &str) -> (r: usize)
    ensures
        r == words_in(text@),
{
    let chars = to_chars(text);
    let mut n: usize = 0;
    let mut i: usize = 0;
    while i < chars.len()
        invariant
            i <= chars.len(),
            n <= i,
            n == words_in(chars@.take(i as int)),
        decreases chars.len() - i,
    {
        let ghost next = chars@.take(i + 1);
        assert(next.drop_last() == chars@.take(i as int));
        if !is_whitespace(chars[i]) && (i == 0 || is_whitespace(chars[i - 1])) {
            assert(word_begins(next, i as int));
            n += 1;
        } else {
            assert(!word_begins(next, i as int));
        }
        i += 1;
    }
    assert(chars@.take(chars@.len() as int) == chars@);
    n
}

/// The texts of a list with a separator between each two of them.
pub open spec fn joined(list: Seq<Seq<char>>, separator: Seq<char>) -> Seq<char>
    decreases list.len(),
{
    if list.len() == 0 {
        seq![]
    } else if list.len() == 1 {
        list[0]
    } else {
        joined(list.drop_last(), separator) + separator + list.last()
    }
}

/// Joins strings with a separator between each two of them.
pub fn join(list: &Vec<String>, separator: &str) -> (r: String)
    ensures
        r@ == joined(texts(list@), separator@),
{
    let mut out = String::new();
    let mut i: usize = 0;
    while i < list.len()
        invariant
            i <= list.len(),
            out@ == joined(texts(list@).take(i as int), separator@),
        decreases list.len() - i,
    {
        let ghost next = texts(list@).take(i + 1);
        assert(next.drop_last() == texts(list@).take(i as int));
        assert(next.last() == list@[i as int]@);
        if i > 0 {
            out.append(separator);
        }
        out.append(list[i].as_str());
        i += 1;
    }
    assert(texts(list@).take(list@.len() as int) == texts(list@));
    out
}

/// A decimal digit as a character.
pub open spec fn digit(d: nat) -> char {
    (48 + d) as char
}

/// A natural number in decimal notation.
pub open spec fn decimal(n: nat) -> Seq<char>
    decreases n,
{
    if n < 10 {
        seq![digit(n)]
    } else {
        decimal(n / 10).push(digit(n % 10))
    }
}

/// Different numbers are written differently.
pub proof fn law_decimals_differ(a: nat, b: nat)
    requires
        decimal(a) == decimal(b),
    ensures
        a == b,
    decreases a,
{
    assert(decimal(a).last() == digit(a % 10));
    assert(decimal(b).last() == digit(b % 10));
    if a >= 10 {
        assert(decimal(a).drop_last() == decimal(a / 10));
        lemma_decimal_is_not_empty(a / 10);
    }
    if b >= 10 {
        assert(decimal(b).drop_last() == decimal(b / 10));
        lemma_decimal_is_not_empty(b / 10);
    }
    if a >= 10 && b >= 10 {
        law_decimals_differ(a / 10, b / 10);
    }
}

proof fn lemma_decimal_is_not_empty(n: nat)
    ensures
        decimal(n).len() > 0,
{
}

/// Appends a number in decimal notation.
pub fn push_number(out: &mut String, n: u128)
    ensures
        final(out)@ == old(out)@ + decimal(n as nat),
    decreases n,
{
    if n >= 10 {
        push_number(out, n / 10);
    }
    let d: u8 = (n % 10) as u8;
    out.push((48u8 + d) as char);
    assert(out@ == old(out)@ + decimal(n as nat));
}

/// A number in decimal notation.
pub fn number(n: u128) -> (r: String)
    ensures
        r@ == decimal(n as nat),
{
    let mut out = String::new();
    push_number(&mut out, n);
    out
}

/// `n` zeros.
pub open spec fn zeros(n: int) -> Seq<char> {
    Seq::new(if n > 0 { n as nat } else { 0 }, |i: int| '0')
}

/// An integer filled up with zeros, after the sign, to at least `width` characters.
pub open spec fn zero_padded(n: int, width: int) -> Seq<char> {
    if n >= 0 {
        zeros(width - decimal(n as nat).len()) + decimal(n as nat)
    } else {
        seq!['-'] + zeros(width - 1 - decimal((-n) as nat).len()) + decimal((-n) as nat)
    }
}

/// Appends an integer filled up with zeros to at least `width` characters.
pub fn push_padded(out: &mut String, n: i64, width: usize)
    ensures
        final(out)@ == old(out)@ + zero_padded(n as int, width as int),
{
    let magnitude: u128 = if n >= 0 {
        n as u128
    } else {
        out.push('-');
        (-(n as i128)) as u128
    };
    let ghost start = out@;
    let digits = number(magnitude);
    let taken: usize = to_chars(digits.as_str()).len();
    let room: usize = if n >= 0 {
        width
    } else {
        width.saturating_sub(1)
    };
    let mut have: usize = taken;
    while have < room
        invariant
            taken <= have,
            have > taken ==> have <= room,
            out@ == start + zeros(have - taken),
        decreases room - have,
    {
        out.push('0');
        assert(zeros(have + 1 - taken) == zeros(have - taken).push('0'));
        have += 1;
    }
    assert(zeros(have - taken) == zeros(room - taken));
    out.append(digits.as_str());
    assert(out@ == old(out)@ + zero_padded(n as int, width as int));
}

// ---------------------------------------------------------------- facts

/// Whether a text is one line, not empty and without white space around it.
pub open spec fn is_clean(s: Seq<char>) -> bool {
    s.len() > 0 && trimmed(s) == s && !s.contains('\n')
}

/// Clean texts that are joined with a space make a clean text.
pub proof fn lemma_joined_clean(list: Seq<Seq<char>>)
    requires
        list.len() > 0,
        forall|i: int| 0 <= i < list.len() ==> is_clean(#[trigger] list[i]),
    ensures
        is_clean(joined(list, " "@)),
    decreases list.len(),
{
    reveal_strlit(" ");
    let r = joined(list, " "@);
    assert(is_clean(list[0]) && is_clean(list.last()));
    lemma_trimmed(list[0]);
    lemma_trimmed(list.last());
    if list.len() > 1 {
        let before = joined(list.drop_last(), " "@);
        assert forall|i: int| 0 <= i < list.drop_last().len() implies is_clean(
            #[trigger] list.drop_last()[i],
        ) by {
            assert(list.drop_last()[i] == list[i]);
        }
        lemma_joined_clean(list.drop_last());
        lemma_trimmed(before);
        assert(r == before + " "@ + list.last());
        assert(r[0] == before[0]);
        assert(r.last() == list.last().last());
        lemma_trimmed_fixed(r);
        if r.contains('\n') {
            let k = choose|k: int| 0 <= k < r.len() && r[k] == '\n';
            if k < before.len() {
                assert(before[k] == '\n');
            } else if k > before.len() {
                assert(list.last()[k - before.len() - 1] == '\n');
            }
        }
    }
}

/// Text that neither begins nor ends with white space is left as it is.
pub proof fn lemma_trimmed_fixed(s: Seq<char>)
    requires
        s.len() > 0 ==> !is_space(s[0]) && !is_space(s.last()),
    ensures
        trimmed(s) == s,
{
}

proof fn lemma_trim_start(s: Seq<char>)
    ensures
        trim_start(s).len() <= s.len(),
        trim_start(s) == s.skip(s.len() - trim_start(s).len()),
        trim_start(s).len() > 0 ==> !is_space(trim_start(s)[0]),
    decreases s.len(),
{
    if s.len() > 0 && is_space(s[0]) {
        lemma_trim_start(s.drop_first());
        let n = trim_start(s).len();
        assert(s.drop_first().skip(s.drop_first().len() - n) == s.skip(s.len() - n));
    } else {
        assert(s.skip(0) == s);
    }
}

proof fn lemma_trim_end(s: Seq<char>)
    ensures
        trim_end(s).len() <= s.len(),
        trim_end(s) == s.take(trim_end(s).len() as int),
        trim_end(s).len() > 0 ==> !is_space(trim_end(s).last()),
    decreases s.len(),
{
    if s.len() > 0 && is_space(s.last()) {
        lemma_trim_end(s.drop_last());
        let n = trim_end(s).len() as int;
        assert(s.drop_last().take(n) == s.take(n));
    } else {
        assert(s.take(s.len() as int) == s);
    }
}

/// Trimmed text neither begins nor ends with white space, is a part of the text,
/// and is not changed by trimming it again.
pub proof fn lemma_trimmed(s: Seq<char>)
    ensures
        trimmed(s).len() > 0 ==> !is_space(trimmed(s)[0]) && !is_space(trimmed(s).last()),
        trimmed(trimmed(s)) == trimmed(s),
        trimmed(s).len() <= s.len(),
        forall|c: char| trimmed(s).contains(c) ==> s.contains(c),
{
    let t = trim_start(s);
    lemma_trim_start(s);
    lemma_trim_end(t);
    let r = trimmed(s);
    if r.len() > 0 {
        assert(r[0] == t[0]);
    }
    lemma_trimmed_fixed(r);
    assert forall|c: char| r.contains(c) implies s.contains(c) by {
        let i = choose|i: int| 0 <= i < r.len() && r[i] == c;
        assert(t[i] == c);
        assert(s[i + (s.len() - t.len())] == c);
    }
}

/// Where the first line of a text ends, the lines are that one and those of the rest.
pub proof fn lemma_first_line(line: Seq<char>, rest: Seq<char>)
    requires
        !line.contains('\n'),
    ensures
        lines_of(line + seq!['\n'] + rest) == seq![without_return(line)] + lines_of(rest),
{
    let all = line + seq!['\n'] + rest;
    let n = position_of(all, '\n');
    lemma_position_of(all, '\n');
    assert(all[line.len() as int] == '\n');
    if n < line.len() {
        assert(line[n as int] == all[n as int]);
        assert(line.contains('\n'));
    }
    assert(n == line.len());
    assert(all.take(n as int) == line);
    assert(all.skip(n as int + 1) == rest);
}

/// A text without a line feed is one line, unless it is empty.
pub proof fn lemma_only_line(line: Seq<char>)
    requires
        !line.contains('\n'),
        line.len() > 0,
    ensures
        lines_of(line) == seq![line],
{
    lemma_position_of(line, '\n');
}

/// The lines of a text hold no line feed.
pub proof fn lemma_lines_hold_no_feed(s: Seq<char>, i: int)
    requires
        0 <= i < lines_of(s).len(),
    ensures
        !lines_of(s)[i].contains('\n'),
    decreases s.len(),
{
    let n = position_of(s, '\n');
    lemma_position_of(s, '\n');
    if n < s.len() {
        if i == 0 {
            let line = without_return(s.take(n as int));
            if line.contains('\n') {
                let k = choose|k: int| 0 <= k < line.len() && line[k] == '\n';
                assert(s[k] == '\n');
            }
        } else {
            lemma_lines_hold_no_feed(s.skip(n as int + 1), i - 1);
        }
    }
}

/// A list is joined from the front as from the back.
pub proof fn lemma_joined_front(list: Seq<Seq<char>>, separator: Seq<char>)
    requires
        list.len() >= 2,
    ensures
        joined(list, separator) == list[0] + separator + joined(
            list.drop_first(),
            separator,
        ),
    decreases list.len(),
{
    let front = list.drop_last();
    let rest = list.drop_first();
    if list.len() == 2 {
        assert(joined(front, separator) == list[0]);
        assert(joined(rest, separator) == list[1]);
    } else {
        lemma_joined_front(front, separator);
        assert(front.drop_first() == rest.drop_last());
        assert(joined(rest, separator) == joined(rest.drop_last(), separator)
            + separator + rest.last());
        assert(joined(list, separator) == joined(front, separator) + separator
            + list.last());
    }
}

/// A list that is joined in two parts.
pub proof fn lemma_joined_parts(a: Seq<Seq<char>>, b: Seq<Seq<char>>, separator: Seq<char>)
    requires
        a.len() > 0,
        b.len() > 0,
    ensures
        joined(a + b, separator) == joined(a, separator) + separator + joined(b, separator),
    decreases b.len(),
{
    let all = a + b;
    assert(all.last() == b.last());
    if b.len() == 1 {
        assert(all.drop_last() == a);
        assert(joined(b, separator) == b[0]);
    } else {
        assert(all.drop_last() == a + b.drop_last());
        lemma_joined_parts(a, b.drop_last(), separator);
        assert(joined(all, separator) == joined(a, separator) + separator + joined(b, separator));
    }
}

/// Lines that are joined by line feeds are read back.
pub proof fn lemma_lines_of_joined(list: Seq<Seq<char>>)
    requires
        forall|i: int| 0 <= i < list.len() ==> is_clean(#[trigger] list[i]),
    ensures
        lines_of(joined(list, "\n"@)) == list,
    decreases list.len(),
{
    reveal_strlit("\n");
    assert("\n"@ == seq!['\n']);
    if list.len() > 0 {
        let first = list[0];
        lemma_trimmed(first);
        if list.len() == 1 {
            lemma_only_line(first);
            assert(list == seq![first]);
        } else {
            let rest = list.drop_first();
            assert forall|i: int| 0 <= i < rest.len() implies is_clean(#[trigger] rest[i]) by {
                assert(rest[i] == list[i + 1]);
            }
            lemma_lines_of_joined(rest);
            lemma_joined_front(list, "\n"@);
            lemma_first_line(first, joined(rest, "\n"@));
            assert(list == seq![first] + rest);
        }
    }
}

// ---------------------------------------------------------------- line by line

/// What `read` finds in some lines, line by line.
pub open spec fn gathered(
    lines: Seq<Seq<char>>,
    read: spec_fn(Seq<char>) -> Seq<Seq<char>>,
) -> Seq<Seq<char>>
    decreases lines.len(),
{
    if lines.len() == 0 {
        seq![]
    } else {
        gathered(lines.drop_last(), read) + read(lines.last())
    }
}

/// Whether `read` finds nothing in an empty line and passes over the white space around
/// a line.
pub open spec fn minds_no_space(read: spec_fn(Seq<char>) -> Seq<Seq<char>>) -> bool {
    &&& read(Seq::<char>::empty()) == Seq::<Seq<char>>::empty()
    &&& forall|s: Seq<char>| #[trigger] read(s) == read(trimmed(s))
}

proof fn lemma_gathered_parts(
    a: Seq<Seq<char>>,
    b: Seq<Seq<char>>,
    read: spec_fn(Seq<char>) -> Seq<Seq<char>>,
)
    ensures
        gathered(a + b, read) == gathered(a, read) + gathered(b, read),
    decreases b.len(),
{
    if b.len() == 0 {
        assert(a + b == a);
        assert(gathered(a, read) + gathered(b, read) == gathered(a, read));
    } else {
        assert((a + b).drop_last() == a + b.drop_last());
        assert((a + b).last() == b.last());
        lemma_gathered_parts(a, b.drop_last(), read);
        assert(gathered(a + b, read) == gathered(a, read) + gathered(b, read));
    }
}

proof fn lemma_gathered_one(line: Seq<char>, read: spec_fn(Seq<char>) -> Seq<Seq<char>>)
    ensures
        gathered(seq![line], read) == read(line),
{
    let one = seq![line];
    assert(one.drop_last() == Seq::<Seq<char>>::empty());
    assert(one.last() == line);
    assert(gathered(one.drop_last(), read) == Seq::<Seq<char>>::empty());
    assert(gathered(one, read) == read(line));
}

proof fn lemma_trim_last_space(s: Seq<char>, c: char)
    requires
        is_space(c),
    ensures
        trimmed(s.push(c)) == trimmed(s),
    decreases s.len(),
{
    let longer = s.push(c);
    if s.len() == 0 {
        assert(longer.drop_first() == s);
    } else if is_space(s[0]) {
        assert(longer.drop_first() == s.drop_first().push(c));
        lemma_trim_last_space(s.drop_first(), c);
    } else {
        assert(longer.drop_last() == s);
    }
}

/// What is found line by line in two texts joined by a line feed is what is found in the
/// first, followed by what is found in the second.
#[verifier::rlimit(50)]
pub proof fn law_lines_add_up(
    a: Seq<char>,
    b: Seq<char>,
    read: spec_fn(Seq<char>) -> Seq<Seq<char>>,
)
    requires
        minds_no_space(read),
    ensures
        gathered(lines_of(a + seq!['\n'] + b), read) == gathered(lines_of(a), read) + gathered(
            lines_of(b),
            read,
        ),
    decreases a.len(),
{
    let all = a + seq!['\n'] + b;
    let n = position_of(a, '\n') as int;
    lemma_position_of(a, '\n');
    if n < a.len() {
        let line = a.take(n);
        let rest = a.skip(n + 1);
        assert(!line.contains('\n'));
        assert(all == line + seq!['\n'] + (rest + seq!['\n'] + b));
        lemma_first_line(line, rest + seq!['\n'] + b);
        assert(a == line + seq!['\n'] + rest);
        lemma_first_line(line, rest);
        law_lines_add_up(rest, b, read);
        let one = seq![without_return(line)];
        lemma_gathered_parts(one, lines_of(rest + seq!['\n'] + b), read);
        lemma_gathered_parts(one, lines_of(rest), read);
        assert(gathered(one, read) + (gathered(lines_of(rest), read) + gathered(lines_of(b), read))
            == gathered(one, read) + gathered(lines_of(rest), read) + gathered(lines_of(b), read));
    } else {
        lemma_first_line(a, b);
        let one = seq![without_return(a)];
        lemma_gathered_parts(one, lines_of(b), read);
        lemma_gathered_one(without_return(a), read);
        if a.len() == 0 {
            assert(without_return(a) == Seq::<char>::empty());
            assert(gathered(lines_of(a), read) == Seq::<Seq<char>>::empty());
        } else {
            lemma_only_line(a);
            lemma_gathered_one(a, read);
            if a.last() == '\r' {
                assert(a.drop_last().push('\r') == a);
                lemma_trim_last_space(a.drop_last(), '\r');
            }
            assert(read(without_return(a)) == read(trimmed(without_return(a))));
            assert(read(a) == read(trimmed(a)));
        }
    }
}

// ---------------------------------------------------------------- the order of texts

/// Whether a text stands no later than another in the order of texts, which is
/// settled by the first character in which they differ.
pub open spec fn no_greater(a: Seq<char>, b: Seq<char>) -> bool
    decreases a.len(),
{
    ||| a.len() == 0
    ||| b.len() > 0 && (a[0] < b[0] || (a[0] == b[0] && no_greater(a.drop_first(), b.drop_first())))
}

/// A text stands no later than itself.
pub proof fn lemma_same_order(a: Seq<char>)
    ensures
        no_greater(a, a),
    decreases a.len(),
{
    if a.len() > 0 {
        lemma_same_order(a.drop_first());
    }
}

/// The order of texts that begin differently is that of their beginnings; otherwise it
/// is that of what follows.
pub proof fn lemma_order_goes_on(a: Seq<char>, b: Seq<char>, c: Seq<char>, d: Seq<char>)
    requires
        a.len() == b.len(),
        no_greater(a, b),
        a == b ==> no_greater(c, d),
    ensures
        no_greater(a + c, b + d),
        a + c == b + d <==> a == b && c == d,
    decreases a.len(),
{
    if a + c == b + d {
        assert(a == (a + c).take(a.len() as int));
        assert(b == (b + d).take(a.len() as int));
        assert(c == (a + c).skip(a.len() as int));
        assert(d == (b + d).skip(a.len() as int));
    }
    if a.len() == 0 {
        assert(a == b);
        assert(a + c == c && b + d == d);
    } else {
        assert((a + c).drop_first() == a.drop_first() + c);
        assert((b + d).drop_first() == b.drop_first() + d);
        if a[0] == b[0] {
            if a.drop_first() == b.drop_first() {
                assert(a == seq![a[0]] + a.drop_first());
                assert(b == seq![b[0]] + b.drop_first());
            }
            lemma_order_goes_on(a.drop_first(), b.drop_first(), c, d);
        }
    }
}

proof fn lemma_two_digits(n: int)
    requires
        0 <= n < 100,
    ensures
        zero_padded(n, 2) == seq![digit((n / 10) as nat), digit((n % 10) as nat)],
{
    reveal_with_fuel(decimal, 3);
    assert(zero_padded(n, 2) =~= seq![digit((n / 10) as nat), digit((n % 10) as nat)]);
}

proof fn lemma_four_digits(n: int)
    requires
        0 <= n < 10_000,
    ensures
        zero_padded(n, 4) == zero_padded(n / 100, 2) + zero_padded(n % 100, 2),
{
    reveal_with_fuel(decimal, 5);
    lemma_two_digits(n / 100);
    lemma_two_digits(n % 100);
    let h = n / 100;
    let l = n % 100;
    assert(n / 10 / 10 == h && n / 10 % 10 == l / 10 && n % 10 == l % 10);
    assert(zero_padded(n, 4) =~= seq![
        digit((h / 10) as nat),
        digit((h % 10) as nat),
        digit((l / 10) as nat),
        digit((l % 10) as nat),
    ]);
}

/// Numbers of two digits are ordered as their texts are.
pub proof fn lemma_two_digits_in_order(m: int, n: int)
    requires
        0 <= m < 100,
        0 <= n < 100,
    ensures
        zero_padded(m, 2).len() == 2,
        m <= n ==> no_greater(zero_padded(m, 2), zero_padded(n, 2)),
        zero_padded(m, 2) == zero_padded(n, 2) <==> m == n,
{
    lemma_two_digits(m);
    lemma_two_digits(n);
    let a = zero_padded(m, 2);
    let b = zero_padded(n, 2);
    assert(a[0] == digit((m / 10) as nat) && a[1] == digit((m % 10) as nat));
    assert(b[0] == digit((n / 10) as nat) && b[1] == digit((n % 10) as nat));
    assert(a.drop_first()[0] == a[1] && b.drop_first()[0] == b[1]);
    assert(a.drop_first().drop_first().len() == 0);
    reveal_with_fuel(no_greater, 3);
}

/// Numbers of four digits are ordered as their texts are.
pub proof fn lemma_four_digits_in_order(m: int, n: int)
    requires
        0 <= m < 10_000,
        0 <= n < 10_000,
    ensures
        zero_padded(m, 4).len() == 4,
        m <= n ==> no_greater(zero_padded(m, 4), zero_padded(n, 4)),
        zero_padded(m, 4) == zero_padded(n, 4) <==> m == n,
{
    lemma_four_digits(m);
    lemma_four_digits(n);
    lemma_two_digits_in_order(m / 100, n / 100);
    lemma_two_digits_in_order(m % 100, n % 100);
    lemma_two_digits_in_order(n / 100, m / 100);
    lemma_two_digits_in_order(n % 100, m % 100);
    if m <= n {
        lemma_order_goes_on(
            zero_padded(m / 100, 2),
            zero_padded(n / 100, 2),
            zero_padded(m % 100, 2),
            zero_padded(n % 100, 2),
        );
    } else {
        lemma_order_goes_on(
            zero_padded(n / 100, 2),
            zero_padded(m / 100, 2),
            zero_padded(n % 100, 2),
            zero_padded(m % 100, 2),
        );
    }
}

// ---------------------------------------------------------------- white space and words

/// Whether all of a text is white space.
pub open spec fn all_space(s: Seq<char>) -> bool {
    forall|i: int| 0 <= i < s.len() ==> is_space(#[trigger] s[i])
}

proof fn lemma_trim_start_of(lead: Seq<char>, rest: Seq<char>)
    requires
        all_space(lead),
        rest.len() > 0 ==> !is_space(rest[0]),
    ensures
        trim_start(lead + rest) == rest,
    decreases lead.len(),
{
    if lead.len() > 0 {
        let tail = lead.drop_first();
        assert((lead + rest)[0] == lead[0]);
        assert((lead + rest).drop_first() == tail + rest);
        assert forall|i: int| 0 <= i < tail.len() implies is_space(#[trigger] tail[i]) by {
            assert(tail[i] == lead[i + 1]);
        }
        lemma_trim_start_of(tail, rest);
    } else {
        assert(lead + rest == rest);
    }
}

proof fn lemma_trim_end_of(rest: Seq<char>, trail: Seq<char>)
    requires
        all_space(trail),
        rest.len() > 0 ==> !is_space(rest.last()),
    ensures
        trim_end(rest + trail) == rest,
    decreases trail.len(),
{
    if trail.len() > 0 {
        assert((rest + trail).last() == trail[trail.len() - 1]);
        assert((rest + trail).drop_last() == rest + trail.drop_last());
        lemma_trim_end_of(rest, trail.drop_last());
    } else {
        assert(rest + trail == rest);
    }
}

/// White space around a text is dropped, all of it and nothing else: what is left is the
/// text from its first character that is no white space to its last one.
pub proof fn law_trimming_is_exact(lead: Seq<char>, core: Seq<char>, trail: Seq<char>)
    requires
        all_space(lead),
        all_space(trail),
        core.len() > 0 ==> !is_space(core[0]) && !is_space(core.last()),
    ensures
        trimmed(lead + core + trail) == core,
{
    if core.len() == 0 {
        let all = lead + core + trail;
        assert(all == lead + trail);
        assert forall|i: int| 0 <= i < all.len() implies is_space(#[trigger] all[i]) by {
            if i < lead.len() {
                assert(all[i] == lead[i]);
            } else {
                assert(all[i] == trail[i - lead.len()]);
            }
        }
        let none = Seq::<char>::empty();
        lemma_trim_start_of(all, none);
        assert(all + none == all);
    } else {
        assert(lead + core + trail == lead + (core + trail));
        assert((core + trail)[0] == core[0]);
        lemma_trim_start_of(lead, core + trail);
        lemma_trim_end_of(core, trail);
    }
}

/// Words are what white space keeps apart: the words of two texts with white space
/// between them are those of both.
pub proof fn law_words_add_up(a: Seq<char>, space: char, b: Seq<char>)
    requires
        is_space(space),
    ensures
        words_in(a.push(space) + b) == words_in(a) + words_in(b),
    decreases b.len(),
{
    let all = a.push(space) + b;
    if b.len() == 0 {
        assert(all == a.push(space));
        assert(all.drop_last() == a);
        assert(all.last() == space);
    } else {
        assert(all.drop_last() == a.push(space) + b.drop_last());
        law_words_add_up(a, space, b.drop_last());
        assert(all[all.len() - 1] == b[b.len() - 1]);
        if b.len() == 1 {
            assert(all[all.len() - 2] == space);
        } else {
            assert(all[all.len() - 2] == b[b.len() - 2]);
        }
    }
}

/// A text without white space is one word, unless it is empty.
pub proof fn law_one_word(word: Seq<char>)
    requires
        forall|i: int| 0 <= i < word.len() ==> !is_space(#[trigger] word[i]),
    ensures
        words_in(word) == if word.len() == 0 {
            0nat
        } else {
            1nat
        },
    decreases word.len(),
{
    if word.len() > 0 {
        let front = word.drop_last();
        assert forall|i: int| 0 <= i < front.len() implies !is_space(#[trigger] front[i]) by {
            assert(front[i] == word[i]);
        }
        law_one_word(front);
        assert(!is_space(word[word.len() - 1]));
        if word.len() > 1 {
            assert(!is_space(word[word.len() - 2]));
        }
    }
}

/// A text begins with another just where it is that one and something more, and holds
/// another just where it is something, that one and something more.
pub proof fn law_parts_are_parts(s: Seq<char>, part: Seq<char>)
    ensures
        begins_with(s, part) <==> exists|rest: Seq<char>| s == part + rest,
        has_part(s, part) <==> exists|a: Seq<char>, b: Seq<char>| s == #[trigger] (a + part + b),
{
    if begins_with(s, part) {
        assert(s == part + s.skip(part.len() as int));
    }
    if exists|rest: Seq<char>| s == part + rest {
        let rest = choose|rest: Seq<char>| s == part + rest;
        assert(begins_with(part + rest, part));
    }
    if has_part(s, part) {
        let at = choose|at: int| stands_at(s, part, at);
        let a = s.take(at);
        let b = s.skip(at + part.len());
        assert(s == (a + part) + b);
    }
    if exists|a: Seq<char>, b: Seq<char>| s == #[trigger] (a + part + b) {
        let (a, b) = choose|a: Seq<char>, b: Seq<char>| s == #[trigger] (a + part + b);
        assert(s.subrange(a.len() as int, (a.len() + part.len()) as int) == part);
        assert(stands_at(s, part, a.len() as int));
    }
}

/// Joining puts one separator between any two neighbours and nothing else: one text is
/// itself, and two lists joined are the first, a separator and the second.
pub proof fn law_joining_is_exact(a: Seq<Seq<char>>, b: Seq<Seq<char>>, separator: Seq<char>)
    ensures
        a.len() == 0 ==> joined(a, separator) == Seq::<char>::empty(),
        a.len() == 1 ==> joined(a, separator) == a[0],
        a.len() > 0 && b.len() > 0 ==> joined(a + b, separator) == joined(a, separator)
            + separator + joined(b, separator),
{
    if a.len() > 0 && b.len() > 0 {
        lemma_joined_parts(a, b, separator);
    }
}

/// Numbers are written digit by digit: a number below ten is its digit, and a further
/// digit is put behind.
pub proof fn law_decimals_grow(n: nat, d: nat)
    requires
        d < 10,
    ensures
        decimal(d).len() == 1,
        decimal(d)[0] as int == '0' as int + d,
        n > 0 ==> decimal(10 * n + d) == decimal(n) + decimal(d),
{
    if n > 0 {
        let m: nat = 10 * n + d;
        assert(m / 10 == n && m % 10 == d);
        assert(decimal(m) == decimal(n) + decimal(d));
    }
}

/// A text is cut at each line feed, which is dropped together with a carriage return
/// right before it. What has no line feed is one line, unless it is empty.
pub proof fn law_lines_are_cut_at_feeds(line: Seq<char>, rest: Seq<char>)
    requires
        !line.contains('\n'),
    ensures
        line.len() > 0 ==> lines_of(line) == seq![line],
        line.len() == 0 ==> lines_of(line) == Seq::<Seq<char>>::empty(),
        !(line.len() > 0 && line.last() == '\r') ==> lines_of(line + seq!['\n'] + rest)
            == seq![line] + lines_of(rest),
        lines_of(line.push('\r') + seq!['\n'] + rest) == seq![line] + lines_of(rest),
{
    if line.len() > 0 {
        lemma_only_line(line);
    }
    lemma_first_line(line, rest);
    let returned = line.push('\r');
    assert forall|i: int| 0 <= i < returned.len() implies returned[i] != '\n' by {
        if i < line.len() {
            assert(line.contains(line[i]));
        }
    }
    lemma_first_line(returned, rest);
    assert(returned.drop_last() == line);
}

/// Whether a part stands in a text right behind its heading, and the next heading right
/// behind the part.
pub open spec fn stands_under(
    whole: Seq<char>,
    heading: Seq<char>,
    part: Seq<char>,
    next: Seq<char>,
) -> bool {
    exists|before: Seq<char>, after: Seq<char>|
        whole == #[trigger] (before + heading + part + next + after)
}

/// A character that is no white space is never trimmed.
pub proof fn lemma_trimmed_keeps(s: Seq<char>, i: int)
    requires
        0 <= i < s.len(),
        !is_space(s[i]),
    ensures
        trimmed(s).contains(s[i]),
{
    let t = trim_start(s);
    lemma_trim_start_keeps(s, i);
    let k = choose|k: int| 0 <= k < t.len() && t[k] == s[i];
    lemma_trim_end_keeps(t, k);
}

proof fn lemma_trim_start_keeps(s: Seq<char>, i: int)
    requires
        0 <= i < s.len(),
        !is_space(s[i]),
    ensures
        trim_start(s).contains(s[i]),
    decreases s.len(),
{
    if is_space(s[0]) {
        assert(s.drop_first()[i - 1] == s[i]);
        lemma_trim_start_keeps(s.drop_first(), i - 1);
    }
}

proof fn lemma_trim_end_keeps(s: Seq<char>, i: int)
    requires
        0 <= i < s.len(),
        !is_space(s[i]),
    ensures
        trim_end(s).contains(s[i]),
    decreases s.len(),
{
    if is_space(s.last()) {
        assert(s.drop_last()[i] == s[i]);
        lemma_trim_end_keeps(s.drop_last(), i);
    }
}

/// A number is filled up with zeros on the left, and only as far as it takes; the sign
/// stands before them and takes up room.
pub proof fn law_padding_adds_zeros(n: nat, width: int)
    ensures
        width <= decimal(n).len() ==> zero_padded(n as int, width) == decimal(n),
        width >= decimal(n).len() ==> zero_padded(n as int, width + 1) == seq!['0'] + zero_padded(
            n as int,
            width,
        ),
        n > 0 ==> zero_padded(-n, width) == seq!['-'] + zero_padded(n as int, width - 1),
{
    let digits = decimal(n);
    if width >= digits.len() {
        assert(zeros(width + 1 - digits.len()) == seq!['0'] + zeros(width - digits.len()));
        assert(zero_padded(n as int, width + 1) == seq!['0'] + zero_padded(n as int, width));
    } else {
        assert(zero_padded(n as int, width) == digits);
    }
    if width == digits.len() {
        assert(zero_padded(n as int, width) == digits);
    }
}

/// Which of two texts stands first is settled by the first character in which they differ,
/// and a text stands before all that go on with it.
pub proof fn law_order_is_settled_early(
    front: Seq<char>,
    a: char,
    rest: Seq<char>,
    b: char,
    other: Seq<char>,
)
    ensures
        a < b ==> no_greater(front + seq![a] + rest, front + seq![b] + other),
        a > b ==> !no_greater(front + seq![a] + rest, front + seq![b] + other),
        no_greater(front, front + rest),
        !no_greater(front + seq![a] + rest, front),
    decreases front.len(),
{
    let x = front + seq![a] + rest;
    let y = front + seq![b] + other;
    if front.len() == 0 {
        assert(x[0] == a && y[0] == b);
    } else {
        let tail = front.drop_first();
        law_order_is_settled_early(tail, a, rest, b, other);
        assert(x.drop_first() == tail + seq![a] + rest);
        assert(y.drop_first() == tail + seq![b] + other);
        assert((front + rest).drop_first() == tail + rest);
        assert(x[0] == front[0] && y[0] == front[0] && (front + rest)[0] == front[0]);
    }
}

/// Numbers filled up to two or four digits, written out.
#[verifier::rlimit(50)]
pub proof fn lemma_digits_written_out(n: int)
    ensures
        0 <= n < 100 ==> zero_padded(n, 2) == seq![
            ('0' as int + n / 10) as char,
            ('0' as int + n % 10) as char,
        ],
        0 <= n < 10_000 ==> zero_padded(n, 4) == seq![
            ('0' as int + n / 1000) as char,
            ('0' as int + n / 100 % 10) as char,
            ('0' as int + n / 10 % 10) as char,
            ('0' as int + n % 10) as char,
        ],
{
    if 0 <= n < 100 {
        lemma_two_digits(n);
    }
    if 0 <= n < 10_000 {
        lemma_four_digits(n);
        lemma_two_digits(n / 100);
        lemma_two_digits(n % 100);
        assert(n / 100 / 10 == n / 1000);
        assert(n % 100 / 10 == n / 10 % 10);
        assert(n % 100 % 10 == n % 10);
    }
}

} // verus!
