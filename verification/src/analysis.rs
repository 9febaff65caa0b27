//! What can be told about a recorded answer: pauses, pace and filler words.
//!
//! A recording is cut into frames of 20 ms, each with a loudness. Loudness is a
//! non-negative single-precision number and is handed over as its bit pattern:
//! for such numbers the patterns are ordered as the numbers are.

use vstd::prelude::*;

use crate::text;

verus! {

/// The number of samples, at 16 kHz, in a frame of 20 ms.
pub const FRAME_LEN: usize = 320;

/// The number of silent frames from which on a pause is a long one (350 ms, rounded).
pub const LONG_PAUSE_FRAMES: usize = 18;

// ---------------------------------------------------------------- loudness

/// The loudness levels in ascending order.
pub open spec fn ascending(levels: Seq<u32>) -> Seq<u32> {
    levels.sort_by(|a: u32, b: u32| a <= b)
}

/// Sorts loudness levels.
fn sort_levels(levels: &[u32]) -> (r: Vec<u32>)
    ensures
        r@ == ascending(levels@),
{
    let ghost leq = |a: u32, b: u32| a <= b;
    let mut out: Vec<u32> = Vec::new();
    assert(out@ == levels@.take(0));
    let mut i: usize = 0;
    while i < levels.len()
        invariant
            i <= levels.len(),
            out@.len() == i,
            out@.to_multiset() == levels@.take(i as int).to_multiset(),
            forall|a: int, b: int| 0 <= a <= b < out@.len() ==> out@[a] <= out@[b],
        decreases levels.len() - i,
    {
        let level: u32 = levels[i];
        let mut low: usize = 0;
        let mut high: usize = out.len();
        while low < high
            invariant
                low <= high <= out.len(),
                forall|a: int, b: int| 0 <= a <= b < out@.len() ==> out@[a] <= out@[b],
                forall|a: int| 0 <= a < low ==> out@[a] <= level,
                forall|a: int| high <= a < out@.len() ==> level < out@[a],
            decreases high - low,
        {
            let middle: usize = low + (high - low) / 2;
            if out[middle] <= level {
                low = middle + 1;
            } else {
                high = middle;
            }
        }
        proof {
            vstd::seq_lib::to_multiset_insert(out@, low as int, level);
            vstd::seq_lib::to_multiset_build(levels@.take(i as int), level);
            assert(levels@.take(i + 1) == levels@.take(i as int).push(level));
        }
        out.insert(low, level);
        i += 1;
    }
    proof {
        assert(levels@.take(levels@.len() as int) == levels@);
        levels@.lemma_sort_by_ensures(leq);
        vstd::seq_lib::lemma_sorted_unique(out@, ascending(levels@), leq);
    }
    out
}

/// The position in the ascending order of `n` levels below which a fifth of them lies.
pub open spec fn fifth(n: nat) -> nat {
    n / 5
}

/// The position in the ascending order of `n` levels below which four fifths of them lie.
pub open spec fn four_fifths(n: nat) -> nat {
    n * 4 / 5
}

/// The noise floor and the typical peak of a recording: the levels a fifth and
/// four fifths up the ascending order. There are none without a frame.
pub fn floor_and_peak(levels: &[u32]) -> (r: Option<(u32, u32)>)
    ensures
        r is None <==> levels@.len() == 0,
        r matches Some((floor, peak)) ==> {
            &&& floor == ascending(levels@)[fifth(levels@.len()) as int]
            &&& peak == ascending(levels@)[four_fifths(levels@.len()) as int]
        },
{
    if levels.len() == 0 {
        return None;
    }
    let sorted = sort_levels(levels);
    proof {
        levels@.lemma_sort_by_ensures(|a: u32, b: u32| a <= b);
        vstd::seq_lib::to_multiset_len(levels@);
        vstd::seq_lib::to_multiset_len(sorted@);
    }
    let low: usize = sorted.len() / 5;
    let high: usize = ((sorted.len() as u128) * 4 / 5) as usize;
    Some((sorted[low], sorted[high]))
}

/// Whether each frame is louder than the threshold.
pub open spec fn louder(levels: Seq<u32>, threshold: u32) -> Seq<bool> {
    levels.map_values(|level: u32| level > threshold)
}

/// Tells the frames with speech from the silent ones: speech is louder than the
/// threshold.
pub fn speech_frames(levels: &[u32], threshold: u32) -> (r: Vec<bool>)
    ensures
        r@ == louder(levels@, threshold),
{
    let mut out: Vec<bool> = Vec::new();
    let mut i: usize = 0;
    while i < levels.len()
        invariant
            i <= levels.len(),
            out@ == louder(levels@.take(i as int), threshold),
        decreases levels.len() - i,
    {
        out.push(levels[i] > threshold);
        assert(louder(levels@.take(i + 1), threshold) == louder(
            levels@.take(i as int),
            threshold,
        ).push(levels@[i as int] > threshold));
        i += 1;
    }
    assert(levels@.take(levels@.len() as int) == levels@);
    out
}

// ---------------------------------------------------------------- pauses

/// The number of silent frames right before frame `at`.
pub open spec fn silence_before(speech: Seq<bool>, at: int) -> nat
    decreases at,
{
    if at <= 0 || speech[at - 1] {
        0
    } else {
        1 + silence_before(speech, at - 1)
    }
}

/// Whether frame `at` holds speech and is not the first one that does. The silence
/// right before it, if any, is then a pause: it stands between speech and speech.
/// Silence that opens the recording is no pause, and neither is silence that ends it.
pub open spec fn resumes(speech: Seq<bool>, at: int) -> bool {
    speech[at] && silence_before(speech, at) < at
}

/// Whether speech sets in again at frame `at` after a long pause.
pub open spec fn ends_long_pause(speech: Seq<bool>, at: int) -> bool {
    resumes(speech, at) && LONG_PAUSE_FRAMES <= silence_before(speech, at)
}

/// The number of frames with speech among the first `n`.
pub open spec fn speech_count(speech: Seq<bool>, n: int) -> nat
    decreases n,
{
    if n <= 0 {
        0
    } else {
        speech_count(speech, n - 1) + if speech[n - 1] {
            1nat
        } else {
            0nat
        }
    }
}

/// The number of long pauses that have ended within the first `n` frames.
pub open spec fn long_pauses(speech: Seq<bool>, n: int) -> nat
    decreases n,
{
    if n <= 0 {
        0
    } else {
        long_pauses(speech, n - 1) + if ends_long_pause(speech, n - 1) {
            1nat
        } else {
            0nat
        }
    }
}

/// The number of frames in the pauses, long and short, that have ended within the
/// first `n` frames.
pub open spec fn pause_frames(speech: Seq<bool>, n: int) -> nat
    decreases n,
{
    if n <= 0 {
        0
    } else {
        pause_frames(speech, n - 1) + if resumes(speech, n - 1) {
            silence_before(speech, n - 1)
        } else {
            0
        }
    }
}

/// How an answer is divided into speech and pauses, in frames.
#[derive(Clone, Copy, PartialEq, Eq, Debug)]
pub struct Pauses {
    pub frames: usize,
    pub speech_frames: usize,
    /// The silence between stretches of speech.
    pub pause_frames: usize,
    pub long_pause_count: usize,
}

/// Finds the pauses of an answer.
pub fn find_pauses(speech: &[bool]) -> (r: Pauses)
    ensures
        r.frames == speech@.len(),
        r.speech_frames == speech_count(speech@, speech@.len() as int),
        r.pause_frames == pause_frames(speech@, speech@.len() as int),
        r.long_pause_count == long_pauses(speech@, speech@.len() as int),
{
    let mut speaking: usize = 0;
    let mut paused: usize = 0;
    let mut count: usize = 0;
    let mut silence: usize = 0;
    let mut seen_speech: bool = false;
    let mut i: usize = 0;
    while i < speech.len()
        invariant
            i <= speech.len(),
            speaking == speech_count(speech@, i as int),
            paused == pause_frames(speech@, i as int),
            count == long_pauses(speech@, i as int),
            silence == silence_before(speech@, i as int),
            seen_speech <==> silence < i,
            speaking + paused + silence <= i,
            count <= speaking,
        decreases speech.len() - i,
    {
        if speech[i] {
            if seen_speech {
                paused += silence;
                if silence >= LONG_PAUSE_FRAMES {
                    count += 1;
                }
            }
            silence = 0;
            seen_speech = true;
            speaking += 1;
        } else {
            silence += 1;
        }
        i += 1;
    }
    Pauses {
        frames: speech.len(),
        speech_frames: speaking,
        pause_frames: paused,
        long_pause_count: count,
    }
}

// ---------------------------------------------------------------- filler words

/// Whether a byte is an ASCII letter or digit.
pub open spec fn is_alphanumeric(b: u8) -> bool {
    0x30 <= b <= 0x39 || 0x41 <= b <= 0x5a || 0x61 <= b <= 0x7a
}

fn byte_is_alphanumeric(b: u8) -> (r: bool)
    ensures
        r == is_alphanumeric(b),
{
    (0x30 <= b && b <= 0x39) || (0x41 <= b && b <= 0x5a) || (0x61 <= b && b <= 0x7a)
}

/// Whether `word` stands at position `at` with no letter or digit on either side.
pub open spec fn word_at(hay: Seq<u8>, word: Seq<u8>, at: int) -> bool {
    &&& 0 <= at
    &&& at + word.len() <= hay.len()
    &&& hay.subrange(at, at + word.len()) == word
    &&& at == 0 || !is_alphanumeric(hay[at - 1])
    &&& at + word.len() == hay.len() || !is_alphanumeric(hay[at + word.len()])
}

/// How often `word` occurs from position `at` on, occurrences being taken from
/// the left and not overlapping.
pub open spec fn occurrences_from(hay: Seq<u8>, word: Seq<u8>, at: int) -> nat
    decreases hay.len() - at,
{
    if word.len() == 0 || at < 0 || at + word.len() > hay.len() {
        0
    } else if word_at(hay, word, at) {
        1 + occurrences_from(hay, word, at + word.len())
    } else {
        occurrences_from(hay, word, at + 1)
    }
}

/// How often a word or phrase occurs in a text.
pub open spec fn occurrences(hay: Seq<char>, word: Seq<char>) -> nat {
    occurrences_from(vstd::utf8::encode_utf8(hay), vstd::utf8::encode_utf8(word), 0)
}

fn bytes_stand_at(hay: &[u8], word: &[u8], at: usize) -> (r: bool)
    requires
        at + word@.len() <= hay@.len(),
    ensures
        r == (hay@.subrange(at as int, at + word@.len()) == word@),
{
    let len: usize = hay.len();
    let mut i: usize = 0;
    while i < word.len()
        invariant
            i <= word.len(),
            at + word@.len() <= len,
            len == hay@.len(),
            forall|k: int| 0 <= k < i ==> hay@[at + k] == word@[k],
        decreases word.len() - i,
    {
        if hay[at + i] != word[i] {
            assert(hay@.subrange(at as int, at + word@.len())[i as int] != word@[i as int]);
            return false;
        }
        i += 1;
    }
    assert(hay@.subrange(at as int, at + word@.len()) == word@);
    true
}

/// Counts how often a word or phrase occurs in a text, from the left and without
/// overlaps, where it is not part of a longer word.
pub fn count_word_occurrences(haystack: &str, needle: &str) -> (r: usize)
    ensures
        r == occurrences(haystack@, needle@),
{
    let hay = haystack.as_bytes();
    let word = needle.as_bytes();
    if word.len() == 0 || hay.len() < word.len() {
        return 0;
    }
    let mut count: usize = 0;
    let mut i: usize = 0;
    while i <= hay.len() - word.len()
        invariant
            1 <= word@.len() <= hay@.len(),
            i <= hay@.len(),
            count <= i,
            occurrences_from(hay@, word@, 0) == count + occurrences_from(hay@, word@, i as int),
        decreases hay@.len() - i,
    {
        let mut step: usize = 1;
        if bytes_stand_at(hay, word, i) {
            let free_before = i == 0 || !byte_is_alphanumeric(hay[i - 1]);
            let free_after = i + word.len() == hay.len() || !byte_is_alphanumeric(
                hay[i + word.len()],
            );
            if free_before && free_after {
                count += 1;
                step = word.len();
            }
        }
        i += step;
    }
    count
}

/// The words and phrases that count as fillers.
pub open spec fn filler_list() -> Seq<Seq<char>> {
    seq![
        "um"@,
        "uh"@,
        "uhm"@,
        "erm"@,
        "ah"@,
        "er"@,
        "hmm"@,
        "like"@,
        "basically"@,
        "literally"@,
        "honestly"@,
        "you know"@,
        "i mean"@,
        "sort of"@,
        "kind of"@,
        "right"@,
    ]
}

/// The words and phrases that count as fillers.
fn fillers() -> (r: Vec<&'static str>)
    ensures
        r@.len() == filler_list().len(),
        forall|i: int| 0 <= i < r@.len() ==> (#[trigger] r@[i])@ == filler_list()[i],
{
    vec!["um", "uh", "uhm", "erm", "ah", "er", "hmm", "like", "basically", "literally", "honestly", "you know", "i mean", "sort of", "kind of", "right"]
}

/// Text in lower case, as `str::to_lowercase` renders it.
pub uninterp spec fn lowercase(s: Seq<char>) -> Seq<char>;

/// An ASCII letter in lower case; any other character as it is.
pub open spec fn ascii_lower(c: char) -> char {
    if 'A' <= c <= 'Z' {
        (c as u8 + 32) as char
    } else {
        c
    }
}

/// `str::to_lowercase` depends on the text alone, and on ASCII text it lowers
/// the letters one by one. How it maps other characters is left unsaid.
pub assume_specification[ str::to_lowercase ](s: &str) -> (r: String)
    ensures
        r@ == lowercase(s@),
        vstd::utf8::is_ascii_chars(s@) ==> r@ == s@.map_values(|c: char| ascii_lower(c)),
;

/// How often a filler counts. The word "like" is none in phrases such as
/// "I would like".
pub open spec fn filler_times(hay: Seq<char>, filler: Seq<char>) -> nat {
    if filler == "like"@ {
        (occurrences(hay, filler) - occurrences(hay, "would like"@)) as nat
    } else {
        occurrences(hay, filler)
    }
}

/// How often the fillers of a list count in a text, all together.
pub open spec fn filler_total(hay: Seq<char>, list: Seq<Seq<char>>) -> nat
    decreases list.len(),
{
    if list.len() == 0 {
        0
    } else {
        filler_total(hay, list.drop_last()) + filler_times(hay, list.last())
    }
}

/// The note on a filler and how often it counts.
pub open spec fn filler_note(filler: Seq<char>, times: nat) -> Seq<char> {
    filler + " (×"@ + text::decimal(times) + ")"@
}

/// The notes on those fillers of a list that count in a text.
pub open spec fn filler_notes(hay: Seq<char>, list: Seq<Seq<char>>) -> Seq<Seq<char>>
    decreases list.len(),
{
    if list.len() == 0 {
        seq![]
    } else {
        let notes = filler_notes(hay, list.drop_last());
        let times = filler_times(hay, list.last());
        if times > 0 {
            notes.push(filler_note(list.last(), times))
        } else {
            notes
        }
    }
}

/// The number of positions from `at` on at which `word` stands.
spec fn places_from(hay: Seq<u8>, word: Seq<u8>, at: int) -> nat
    decreases hay.len() - at,
{
    if at < 0 || at >= hay.len() {
        0
    } else {
        places_from(hay, word, at + 1) + if word_at(hay, word, at) {
            1nat
        } else {
            0nat
        }
    }
}

proof fn lemma_places_shrink(hay: Seq<u8>, word: Seq<u8>, a: int, b: int)
    requires
        0 <= a <= b,
    ensures
        places_from(hay, word, b) <= places_from(hay, word, a),
    decreases b - a,
{
    if a < b {
        lemma_places_shrink(hay, word, a + 1, b);
    }
}

proof fn lemma_occurrences_are_places(hay: Seq<u8>, word: Seq<u8>, at: int)
    requires
        0 <= at,
    ensures
        occurrences_from(hay, word, at) <= places_from(hay, word, at),
    decreases hay.len() - at,
{
    if word.len() == 0 || at + word.len() > hay.len() {
    } else if word_at(hay, word, at) {
        lemma_occurrences_are_places(hay, word, at + word.len());
        lemma_places_shrink(hay, word, at + 1, at + word.len());
    } else {
        lemma_occurrences_are_places(hay, word, at + 1);
    }
}

/// Where "like" stands, it does not stand again within its own length.
proof fn lemma_like_apart(hay: Seq<u8>, like: Seq<u8>, at: int)
    requires
        like == seq![0x6cu8, 0x69u8, 0x6bu8, 0x65u8],
        word_at(hay, like, at),
    ensures
        !word_at(hay, like, at + 1),
        !word_at(hay, like, at + 2),
        !word_at(hay, like, at + 3),
{
    let here = hay.subrange(at, at + 4);
    assert(here[1] == 0x69 && here[2] == 0x6b && here[3] == 0x65);
    if word_at(hay, like, at + 1) {
        assert(hay.subrange(at + 1, at + 5)[0] == 0x6c);
    }
    if word_at(hay, like, at + 2) {
        assert(hay.subrange(at + 2, at + 6)[0] == 0x6c);
    }
    if word_at(hay, like, at + 3) {
        assert(hay.subrange(at + 3, at + 7)[0] == 0x6c);
    }
}

/// Each place of "like" is an occurrence.
proof fn lemma_like_places(hay: Seq<u8>, like: Seq<u8>, at: int)
    requires
        0 <= at,
        like == seq![0x6cu8, 0x69u8, 0x6bu8, 0x65u8],
    ensures
        occurrences_from(hay, like, at) == places_from(hay, like, at),
    decreases hay.len() - at,
{
    if at + 4 > hay.len() {
        if at < hay.len() {
            lemma_like_places(hay, like, at + 1);
        }
    } else if word_at(hay, like, at) {
        lemma_like_apart(hay, like, at);
        lemma_like_places(hay, like, at + 4);
        assert(places_from(hay, like, at + 3) == places_from(hay, like, at + 4));
        assert(places_from(hay, like, at + 2) == places_from(hay, like, at + 3));
        assert(places_from(hay, like, at + 1) == places_from(hay, like, at + 2));
    } else {
        lemma_like_places(hay, like, at + 1);
    }
}

/// Each place of "would like" brings a place of "like".
proof fn lemma_wish_places(hay: Seq<u8>, wish: Seq<u8>, like: Seq<u8>, at: int)
    requires
        0 <= at,
        wish.len() == 10,
        wish[5] == 0x20,
        like == wish.subrange(6, 10),
    ensures
        places_from(hay, wish, at) <= places_from(hay, like, at + 6),
    decreases hay.len() - at,
{
    if at < hay.len() {
        lemma_wish_places(hay, wish, like, at + 1);
        if word_at(hay, wish, at) {
            let here = hay.subrange(at, at + 10);
            assert(hay.subrange(at + 6, at + 10) == here.subrange(6, 10));
            assert(hay[at + 5] == here[5]);
            assert(word_at(hay, like, at + 6));
        }
    }
}

/// "like" occurs at least as often as "would like" does.
proof fn lemma_wishes_hold_like(hay: Seq<char>)
    ensures
        occurrences(hay, "would like"@) <= occurrences(hay, "like"@),
{
    reveal_strlit("like");
    reveal_strlit("would like");
    vstd::utf8::is_ascii_chars_encode_utf8("like"@);
    vstd::utf8::is_ascii_chars_encode_utf8("would like"@);
    let bytes = vstd::utf8::encode_utf8(hay);
    let like = vstd::utf8::encode_utf8("like"@);
    let wish = vstd::utf8::encode_utf8("would like"@);
    assert(like == seq![0x6cu8, 0x69u8, 0x6bu8, 0x65u8]);
    assert(like == wish.subrange(6, 10));
    lemma_like_places(bytes, like, 0);
    lemma_occurrences_are_places(bytes, wish, 0);
    lemma_wish_places(bytes, wish, like, 0);
    lemma_places_shrink(bytes, like, 0, 6);
}

/// The number of words of a list that stand at position `at`.
spec fn words_at(hay: Seq<u8>, list: Seq<Seq<char>>, at: int) -> nat
    decreases list.len(),
{
    if list.len() == 0 {
        0
    } else {
        words_at(hay, list.drop_last(), at) + if word_at(
            hay,
            vstd::utf8::encode_utf8(list.last()),
            at,
        ) {
            1nat
        } else {
            0nat
        }
    }
}

/// The positions from `at` on at which words of a list stand, counted word by word.
spec fn all_places_from(hay: Seq<u8>, list: Seq<Seq<char>>, at: int) -> nat
    decreases list.len(),
{
    if list.len() == 0 {
        0
    } else {
        all_places_from(hay, list.drop_last(), at) + places_from(
            hay,
            vstd::utf8::encode_utf8(list.last()),
            at,
        )
    }
}

proof fn lemma_all_places_step(hay: Seq<u8>, list: Seq<Seq<char>>, at: int)
    requires
        0 <= at,
    ensures
        at >= hay.len() ==> all_places_from(hay, list, at) == 0,
        at < hay.len() ==> all_places_from(hay, list, at) == words_at(hay, list, at)
            + all_places_from(hay, list, at + 1),
    decreases list.len(),
{
    if list.len() > 0 {
        lemma_all_places_step(hay, list.drop_last(), at);
    }
}

proof fn lemma_all_places_bounded(hay: Seq<u8>, list: Seq<Seq<char>>, at: int)
    requires
        0 <= at <= hay.len(),
        forall|i: int| 0 <= i < hay.len() ==> words_at(hay, list, i) <= 1,
    ensures
        all_places_from(hay, list, at) <= hay.len() - at,
    decreases hay.len() - at,
{
    lemma_all_places_step(hay, list, at);
    if at < hay.len() {
        lemma_all_places_bounded(hay, list, at + 1);
    }
}

proof fn lemma_total_within_places(hay: Seq<char>, list: Seq<Seq<char>>)
    ensures
        filler_total(hay, list) <= all_places_from(vstd::utf8::encode_utf8(hay), list, 0),
    decreases list.len(),
{
    if list.len() > 0 {
        lemma_total_within_places(hay, list.drop_last());
        lemma_wishes_hold_like(hay);
        lemma_occurrences_are_places(
            vstd::utf8::encode_utf8(hay),
            vstd::utf8::encode_utf8(list.last()),
            0,
        );
    }
}

/// Where an ASCII word stands, its first letters stand, and no letter follows it.
proof fn lemma_letters(hay: Seq<u8>, word: Seq<char>, at: int)
    requires
        vstd::utf8::is_ascii_chars(word),
        word.len() >= 2,
    ensures
        word_at(hay, vstd::utf8::encode_utf8(word), at) ==> {
            &&& 0 <= at
            &&& at + word.len() <= hay.len()
            &&& hay[at] == word[0] as u8
            &&& hay[at + 1] == word[1] as u8
            &&& word.len() > 2 ==> hay[at + 2] == word[2] as u8
            &&& word.len() == 2 ==> at + 2 == hay.len() || !is_alphanumeric(hay[at + 2])
        },
{
    vstd::utf8::is_ascii_chars_encode_utf8(word);
    let bytes = vstd::utf8::encode_utf8(word);
    if word_at(hay, bytes, at) {
        let here = hay.subrange(at, at + bytes.len());
        assert(here[0] == bytes[0] && here[1] == bytes[1]);
        assert(word[0] as u8 == bytes[0] && word[1] as u8 == bytes[1]);
        if word.len() > 2 {
            assert(here[2] == bytes[2] && word[2] as u8 == bytes[2]);
        }
    }
}

/// One more word of a list.
proof fn lemma_words_step(hay: Seq<u8>, list: Seq<Seq<char>>, n: int, at: int)
    requires
        0 <= n < list.len(),
    ensures
        words_at(hay, list.take(n + 1), at) == words_at(hay, list.take(n), at) + if word_at(
            hay,
            vstd::utf8::encode_utf8(list[n]),
            at,
        ) {
            1nat
        } else {
            0nat
        },
{
    assert(list.take(n + 1).drop_last() == list.take(n));
}

/// No two fillers stand at the same position.
proof fn lemma_fillers_apart(hay: Seq<u8>, at: int)
    ensures
        words_at(hay, filler_list(), at) <= 1,
{
    let list = filler_list();
    reveal_strlit("um");
    lemma_letters(hay, "um"@, at);
    reveal_strlit("uh");
    lemma_letters(hay, "uh"@, at);
    reveal_strlit("uhm");
    lemma_letters(hay, "uhm"@, at);
    reveal_strlit("erm");
    lemma_letters(hay, "erm"@, at);
    reveal_strlit("ah");
    lemma_letters(hay, "ah"@, at);
    reveal_strlit("er");
    lemma_letters(hay, "er"@, at);
    reveal_strlit("hmm");
    lemma_letters(hay, "hmm"@, at);
    reveal_strlit("like");
    lemma_letters(hay, "like"@, at);
    reveal_strlit("basically");
    lemma_letters(hay, "basically"@, at);
    reveal_strlit("literally");
    lemma_letters(hay, "literally"@, at);
    reveal_strlit("honestly");
    lemma_letters(hay, "honestly"@, at);
    reveal_strlit("you know");
    lemma_letters(hay, "you know"@, at);
    reveal_strlit("i mean");
    lemma_letters(hay, "i mean"@, at);
    reveal_strlit("sort of");
    lemma_letters(hay, "sort of"@, at);
    reveal_strlit("kind of");
    lemma_letters(hay, "kind of"@, at);
    reveal_strlit("right");
    lemma_letters(hay, "right"@, at);
    lemma_words_step(hay, list, 0, at);
    lemma_words_step(hay, list, 1, at);
    lemma_words_step(hay, list, 2, at);
    lemma_words_step(hay, list, 3, at);
    lemma_words_step(hay, list, 4, at);
    lemma_words_step(hay, list, 5, at);
    lemma_words_step(hay, list, 6, at);
    lemma_words_step(hay, list, 7, at);
    lemma_words_step(hay, list, 8, at);
    lemma_words_step(hay, list, 9, at);
    lemma_words_step(hay, list, 10, at);
    lemma_words_step(hay, list, 11, at);
    lemma_words_step(hay, list, 12, at);
    lemma_words_step(hay, list, 13, at);
    lemma_words_step(hay, list, 14, at);
    lemma_words_step(hay, list, 15, at);
    assert(list.take(16) == list);
}

/// All together, the first fillers of the list occur no more often than the text
/// has bytes.
proof fn lemma_filler_total_bounded(hay: Seq<char>, n: int)
    requires
        0 <= n <= filler_list().len(),
    ensures
        filler_total(hay, filler_list().take(n)) <= vstd::utf8::encode_utf8(hay).len(),
{
    let list = filler_list().take(n);
    let bytes = vstd::utf8::encode_utf8(hay);
    assert forall|i: int| 0 <= i < bytes.len() implies words_at(bytes, list, i) <= 1 by {
        lemma_fillers_apart(bytes, i);
        lemma_fewer_words(bytes, filler_list(), n, i);
    }
    lemma_total_within_places(hay, list);
    lemma_all_places_bounded(bytes, list, 0);
}

proof fn lemma_fewer_words(hay: Seq<u8>, list: Seq<Seq<char>>, n: int, at: int)
    requires
        0 <= n <= list.len(),
    ensures
        words_at(hay, list.take(n), at) <= words_at(hay, list, at),
    decreases list.len() - n,
{
    if n < list.len() {
        lemma_fewer_words(hay, list, n + 1, at);
        lemma_words_step(hay, list, n, at);
    } else {
        assert(list.take(n) == list);
    }
}

/// Finds the filler words of a transcript that is in lower case: how often they
/// occur all together, and a note on each that occurs.
pub fn count_lowercase_fillers(lower: &str) -> (r: (usize, Vec<String>))
    ensures
        r.0 == filler_total(lower@, filler_list()),
        text::texts(r.1@) == filler_notes(lower@, filler_list()),
{
    let list = fillers();
    let len: usize = lower.as_bytes().len();
    let mut count: usize = 0;
    let mut notes: Vec<String> = Vec::new();
    let mut i: usize = 0;
    assert(text::texts(notes@) == filler_notes(lower@, filler_list().take(0)));
    while i < list.len()
        invariant
            i <= list.len(),
            len == vstd::utf8::encode_utf8(lower@).len(),
            list@.len() == filler_list().len(),
            forall|k: int| 0 <= k < list@.len() ==> (#[trigger] list@[k])@ == filler_list()[k],
            count == filler_total(lower@, filler_list().take(i as int)),
            text::texts(notes@) == filler_notes(lower@, filler_list().take(i as int)),
        decreases list.len() - i,
    {
        let ghost before = notes@;
        let mut times: usize = count_word_occurrences(lower, list[i]);
        if text::same_text(list[i], "like") {
            proof {
                lemma_wishes_hold_like(lower@);
            }
            times = times - count_word_occurrences(lower, "would like");
        }
        assert(times == filler_times(lower@, filler_list()[i as int]));
        proof {
            assert(filler_list().take(i + 1).drop_last() == filler_list().take(i as int));
            lemma_filler_total_bounded(lower@, i + 1);
        }
        if times > 0 {
            count += times;
            let mut note = String::from_str(list[i]);
            note.append(" (×");
            text::push_number(&mut note, times as u128);
            note.append(")");
            notes.push(note);
            assert(text::texts(notes@) == text::texts(before).push(note@));
        }
        i += 1;
    }
    assert(filler_list().take(filler_list().len() as int) == filler_list());
    (count, notes)
}

/// A text with its ASCII letters in lower case.
pub open spec fn ascii_lowered(s: Seq<char>) -> Seq<char> {
    s.map_values(|c: char| ascii_lower(c))
}

/// Finds the filler words of a transcript, whatever its case: how often they
/// occur all together, and a note on each that occurs.
pub fn count_fillers(transcript: &str) -> (r: (usize, Vec<String>))
    ensures
        vstd::utf8::is_ascii_chars(transcript@) ==> {
            &&& r.0 == filler_total(ascii_lowered(transcript@), filler_list())
            &&& text::texts(r.1@) == filler_notes(ascii_lowered(transcript@), filler_list())
        },
        r.0 == filler_total(lowercase(transcript@), filler_list()),
        text::texts(r.1@) == filler_notes(lowercase(transcript@), filler_list()),
{
    let lower = transcript.to_lowercase();
    count_lowercase_fillers(lower.as_str())
}

// ---------------------------------------------------------------- metrics

/// What is counted in an answer.
#[derive(Debug)]
pub struct AnswerCounts {
    pub pauses: Pauses,
    pub words: usize,
    pub filler_count: usize,
    pub filler_examples: Vec<String>,
}

/// Counts what can be counted in an answer: speech, pauses, words and fillers.
/// `levels` holds the loudness of its frames; frames louder than `threshold` are
/// speech.
pub fn analyze(levels: &[u32], threshold: u32, transcript: &str) -> (r: AnswerCounts)
    ensures
        r.pauses.frames == levels@.len(),
        r.pauses.speech_frames == speech_count(
            louder(levels@, threshold),
            levels@.len() as int,
        ),
        r.pauses.pause_frames == pause_frames(louder(levels@, threshold), levels@.len() as int),
        r.pauses.long_pause_count == long_pauses(
            louder(levels@, threshold),
            levels@.len() as int,
        ),
        r.words == text::words_in(transcript@),
        r.filler_count == filler_total(lowercase(transcript@), filler_list()),
        text::texts(r.filler_examples@) == filler_notes(lowercase(transcript@), filler_list()),
        vstd::utf8::is_ascii_chars(transcript@) ==> {
            &&& r.filler_count == filler_total(ascii_lowered(transcript@), filler_list())
            &&& text::texts(r.filler_examples@) == filler_notes(
                ascii_lowered(transcript@),
                filler_list(),
            )
        },
{
    let speech = speech_frames(levels, threshold);
    let pauses = find_pauses(speech.as_slice());
    let words: usize = text::count_words(transcript);
    let (filler_count, filler_examples) = count_fillers(transcript);
    AnswerCounts { pauses, words, filler_count, filler_examples }
}

/// A measured quantity: the bit pattern of the single-precision number, for
/// storing and plotting, and the number as it is shown.
#[derive(Debug)]
pub struct Measure {
    pub bits: u32,
    pub shown: String,
}

impl Measure {
    /// Whether two measures are the same.
    pub open spec fn same(self, other: Measure) -> bool {
        self.bits == other.bits && self.shown@ == other.shown@
    }
}

impl Clone for Measure {
    fn clone(&self) -> (r: Measure)
        ensures
            self.same(r),
    {
        Measure { bits: self.bits, shown: self.shown.clone() }
    }
}

/// How an answer was delivered. Each measure is shown with the decimals that
/// stand beside its name.
#[derive(Debug)]
pub struct DeliveryMetrics {
    /// Length of the recording (one decimal).
    pub duration_secs: Measure,
    pub words: usize,
    /// Pace while speaking (no decimals).
    pub words_per_minute: Measure,
    /// Fraction of the frames that hold speech (two decimals).
    pub speech_ratio: Measure,
    /// Seconds of silence between stretches of speech (one decimal).
    pub total_pause_secs: Measure,
    /// The number of pauses over 350 ms.
    pub long_pause_count: usize,
    /// How much the loudness varies while speaking (two decimals).
    pub energy_cv: Measure,
    pub filler_count: usize,
    pub filler_examples: Vec<String>,
}

/// The list of filler notes as it is shown.
pub open spec fn breakdown(notes: Seq<Seq<char>>) -> Seq<char> {
    if notes.len() == 0 {
        "none"@
    } else {
        text::joined(notes, ", "@)
    }
}

impl Clone for DeliveryMetrics {
    fn clone(&self) -> (r: DeliveryMetrics)
        ensures
            self.same(r),
    {
        DeliveryMetrics {
            duration_secs: self.duration_secs.clone(),
            words: self.words,
            words_per_minute: self.words_per_minute.clone(),
            speech_ratio: self.speech_ratio.clone(),
            total_pause_secs: self.total_pause_secs.clone(),
            long_pause_count: self.long_pause_count,
            energy_cv: self.energy_cv.clone(),
            filler_count: self.filler_count,
            filler_examples: text::copies(&self.filler_examples),
        }
    }
}

impl DeliveryMetrics {
    /// Whether two metrics are the same.
    pub open spec fn same(self, other: DeliveryMetrics) -> bool {
        &&& self.duration_secs.same(other.duration_secs)
        &&& self.words == other.words
        &&& self.words_per_minute.same(other.words_per_minute)
        &&& self.speech_ratio.same(other.speech_ratio)
        &&& self.total_pause_secs.same(other.total_pause_secs)
        &&& self.long_pause_count == other.long_pause_count
        &&& self.energy_cv.same(other.energy_cv)
        &&& self.filler_count == other.filler_count
        &&& text::texts(self.filler_examples@) == text::texts(other.filler_examples@)
    }

    /// The metrics as lines of a prompt.
    pub open spec fn prompt_text(self) -> Seq<char> {
        "duration_secs: "@ + self.duration_secs.shown@ + "\nwords: "@ + text::decimal(
            self.words as nat,
        ) + "\nwords_per_minute: "@ + self.words_per_minute.shown@ + "\nspeech_ratio: "@
            + self.speech_ratio.shown@ + "\ntotal_mid_utterance_pause_secs: "@
            + self.total_pause_secs.shown@ + "\nlong_pauses_over_350ms: "@ + text::decimal(
            self.long_pause_count as nat,
        ) + "\nenergy_coefficient_of_variation: "@ + self.energy_cv.shown@ + "\nfiller_count: "@
            + text::decimal(self.filler_count as nat) + "\nfiller_breakdown: "@ + breakdown(
            text::texts(self.filler_examples@),
        )
    }

    /// Renders the metrics as a compact, neutral block for a prompt.
    pub fn for_prompt(&self) -> (r: String)
        ensures
            r@ == self.prompt_text(),
    {
        let mut out = String::from_str("duration_secs: ");
        out.append(self.duration_secs.shown.as_str());
        out.append("\nwords: ");
        text::push_number(&mut out, self.words as u128);
        out.append("\nwords_per_minute: ");
        out.append(self.words_per_minute.shown.as_str());
        out.append("\nspeech_ratio: ");
        out.append(self.speech_ratio.shown.as_str());
        out.append("\ntotal_mid_utterance_pause_secs: ");
        out.append(self.total_pause_secs.shown.as_str());
        out.append("\nlong_pauses_over_350ms: ");
        text::push_number(&mut out, self.long_pause_count as u128);
        out.append("\nenergy_coefficient_of_variation: ");
        out.append(self.energy_cv.shown.as_str());
        out.append("\nfiller_count: ");
        text::push_number(&mut out, self.filler_count as u128);
        out.append("\nfiller_breakdown: ");
        if self.filler_examples.len() == 0 {
            out.append("none");
        } else {
            let notes = text::join(&self.filler_examples, ", ");
            out.append(notes.as_str());
        }
        out
    }
}

// ---------------------------------------------------------------- laws

/// `n` silent frames.
pub open spec fn silent(n: nat) -> Seq<bool> {
    Seq::new(n, |i: int| false)
}

proof fn lemma_leading_silence(speech: Seq<bool>, lead: nat, at: int)
    requires
        0 <= at <= speech.len(),
    ensures
        silence_before(speech, at) <= at,
        silence_before(silent(lead) + speech, at + lead) == if silence_before(speech, at) < at {
            silence_before(speech, at)
        } else {
            (at + lead) as nat
        },
    decreases at,
{
    let longer = silent(lead) + speech;
    if at > 0 {
        assert(longer[at + lead - 1] == speech[at - 1]);
        lemma_leading_silence(speech, lead, at - 1);
    } else {
        lemma_all_silent(speech, lead, lead as int);
    }
}

proof fn lemma_all_silent(speech: Seq<bool>, lead: nat, at: int)
    requires
        0 <= at <= lead,
    ensures
        silence_before(silent(lead) + speech, at) == at,
    decreases at,
{
    if at > 0 {
        assert(!(silent(lead) + speech)[at - 1]);
        lemma_all_silent(speech, lead, at - 1);
    }
}

proof fn lemma_no_pause_in_lead(speech: Seq<bool>, lead: nat, n: int)
    requires
        0 <= n <= lead,
    ensures
        long_pauses(silent(lead) + speech, n) == 0,
        pause_frames(silent(lead) + speech, n) == 0,
        speech_count(silent(lead) + speech, n) == 0,
    decreases n,
{
    if n > 0 {
        assert(!(silent(lead) + speech)[n - 1]);
        lemma_no_pause_in_lead(speech, lead, n - 1);
    }
}

proof fn lemma_lead_keeps_pauses(speech: Seq<bool>, lead: nat, n: int)
    requires
        0 <= n <= speech.len(),
    ensures
        long_pauses(silent(lead) + speech, n + lead) == long_pauses(speech, n),
        pause_frames(silent(lead) + speech, n + lead) == pause_frames(speech, n),
        speech_count(silent(lead) + speech, n + lead) == speech_count(speech, n),
    decreases n,
{
    if n > 0 {
        lemma_lead_keeps_pauses(speech, lead, n - 1);
        lemma_leading_silence(speech, lead, n - 1);
        assert((silent(lead) + speech)[n + lead - 1] == speech[n - 1]);
    } else {
        lemma_no_pause_in_lead(speech, lead, lead as int);
    }
}

proof fn lemma_same_start(a: Seq<bool>, b: Seq<bool>, n: int)
    requires
        0 <= n <= a.len() <= b.len(),
        forall|i: int| 0 <= i < a.len() ==> a[i] == b[i],
    ensures
        silence_before(a, n) == silence_before(b, n),
        long_pauses(a, n) == long_pauses(b, n),
        pause_frames(a, n) == pause_frames(b, n),
        speech_count(a, n) == speech_count(b, n),
    decreases n,
{
    if n > 0 {
        lemma_same_start(a, b, n - 1);
    }
}

proof fn lemma_trail_keeps_pauses(speech: Seq<bool>, trail: nat, n: int)
    requires
        speech.len() <= n <= speech.len() + trail,
    ensures
        long_pauses(speech + silent(trail), n) == long_pauses(speech, speech.len() as int),
        pause_frames(speech + silent(trail), n) == pause_frames(speech, speech.len() as int),
        speech_count(speech + silent(trail), n) == speech_count(speech, speech.len() as int),
    decreases n,
{
    let longer = speech + silent(trail);
    if n > speech.len() {
        lemma_trail_keeps_pauses(speech, trail, n - 1);
        assert(!longer[n - 1]);
    } else {
        lemma_same_start(speech, longer, n);
    }
}

/// Silence before the first word and after the last is no pause: it changes
/// neither the pauses that are counted nor the time spent in them.
pub proof fn law_outer_silence_is_no_pause(speech: Seq<bool>, lead: nat, trail: nat)
    ensures
        ({
            let longer = silent(lead) + speech + silent(trail);
            &&& long_pauses(longer, longer.len() as int) == long_pauses(speech, speech.len() as int)
            &&& pause_frames(longer, longer.len() as int) == pause_frames(
                speech,
                speech.len() as int,
            )
            &&& speech_count(longer, longer.len() as int) == speech_count(
                speech,
                speech.len() as int,
            )
        }),
{
    let led = silent(lead) + speech;
    lemma_lead_keeps_pauses(speech, lead, speech.len() as int);
    lemma_trail_keeps_pauses(led, trail, (led.len() + trail) as int);
}

proof fn lemma_pause_bounds(speech: Seq<bool>, n: int)
    requires
        0 <= n <= speech.len(),
    ensures
        silence_before(speech, n) + pause_frames(speech, n) + speech_count(speech, n) <= n,
        long_pauses(speech, n) * LONG_PAUSE_FRAMES <= pause_frames(speech, n),
    decreases n,
{
    if n > 0 {
        lemma_pause_bounds(speech, n - 1);
        assert((long_pauses(speech, n - 1) + 1) * LONG_PAUSE_FRAMES == long_pauses(speech, n - 1)
            * LONG_PAUSE_FRAMES + LONG_PAUSE_FRAMES) by (nonlinear_arith);
    }
}

/// Speech and pauses share the recording without overlap, and each long pause
/// lasts at least as long as the limit.
pub proof fn law_pauses_fit(speech: Seq<bool>)
    ensures
        speech_count(speech, speech.len() as int) + pause_frames(speech, speech.len() as int)
            <= speech.len(),
        long_pauses(speech, speech.len() as int) * LONG_PAUSE_FRAMES <= pause_frames(
            speech,
            speech.len() as int,
        ),
{
    lemma_pause_bounds(speech, speech.len() as int);
}

proof fn lemma_notes_of_counts(hay: Seq<char>, list: Seq<Seq<char>>)
    ensures
        filler_notes(hay, list).len() == 0 <==> filler_total(hay, list) == 0,
    decreases list.len(),
{
    if list.len() > 0 {
        lemma_notes_of_counts(hay, list.drop_last());
    }
}

/// There is a note exactly where a filler counts, and no byte of the text begins
/// more than one filler: they count no more often than the text has bytes.
pub proof fn law_notes_match_count(hay: Seq<char>)
    ensures
        filler_notes(hay, filler_list()).len() == 0 <==> filler_total(hay, filler_list()) == 0,
        filler_total(hay, filler_list()) <= vstd::utf8::encode_utf8(hay).len(),
{
    lemma_notes_of_counts(hay, filler_list());
    assert(filler_list().take(filler_list().len() as int) == filler_list());
    lemma_filler_total_bounded(hay, filler_list().len() as int);
}

/// Nothing stands at a full stop, at the space behind it, or across them.
proof fn lemma_nothing_across(a: Seq<u8>, b: Seq<u8>, word: Seq<u8>, at: int)
    requires
        word.len() > 0,
        !word.contains(0x2e),
        word[0] != 0x20,
        0 <= at < a.len() + 2,
        at + word.len() > a.len(),
    ensures
        !word_at(a + seq![0x2eu8, 0x20u8] + b, word, at),
{
    let hay = a + seq![0x2eu8, 0x20u8] + b;
    if word_at(hay, word, at) {
        let here = hay.subrange(at, at + word.len());
        if at <= a.len() {
            assert(here[a.len() - at] == hay[a.len() as int]);
            assert(word.contains(word[a.len() - at]));
        } else {
            assert(here[0] == hay[at]);
        }
    }
}

/// A word stands in the second of two texts where it stands in both together.
proof fn lemma_occurrences_in_second(a: Seq<u8>, b: Seq<u8>, word: Seq<u8>, at: int)
    requires
        0 <= at,
    ensures
        occurrences_from(a + seq![0x2eu8, 0x20u8] + b, word, a.len() + 2 + at)
            == occurrences_from(b, word, at),
    decreases b.len() - at,
{
    let hay = a + seq![0x2eu8, 0x20u8] + b;
    let far = a.len() + 2 + at;
    if word.len() > 0 && at + word.len() <= b.len() {
        assert(hay.subrange(far, far + word.len()) == b.subrange(at, at + word.len()));
        assert(at > 0 ==> hay[far - 1] == b[at - 1]);
        assert(at == 0 ==> hay[far - 1] == 0x20);
        assert(at + word.len() < b.len() ==> hay[far + word.len()] == b[at + word.len()]);
        assert(word_at(hay, word, far) == word_at(b, word, at));
        lemma_occurrences_in_second(a, b, word, at + 1);
        lemma_occurrences_in_second(a, b, word, at + word.len());
    }
}

/// A word occurs in two texts as often as in each of them.
proof fn lemma_occurrences_split(a: Seq<u8>, b: Seq<u8>, word: Seq<u8>, at: int)
    requires
        word.len() > 0,
        !word.contains(0x2e),
        word[0] != 0x20,
        0 <= at <= a.len() + 2,
    ensures
        occurrences_from(a + seq![0x2eu8, 0x20u8] + b, word, at) == occurrences_from(a, word, at)
            + occurrences_from(b, word, 0),
    decreases a.len() + 2 - at,
{
    let hay = a + seq![0x2eu8, 0x20u8] + b;
    if at == a.len() + 2 {
        lemma_occurrences_in_second(a, b, word, 0);
    } else if at + word.len() > a.len() {
        lemma_nothing_across(a, b, word, at);
        lemma_occurrences_split(a, b, word, at + 1);
        if at + word.len() > hay.len() {
            assert(occurrences_from(hay, word, at + 1) == 0);
        }
    } else {
        assert(hay.subrange(at, at + word.len()) == a.subrange(at, at + word.len()));
        assert(at > 0 ==> hay[at - 1] == a[at - 1]);
        assert(at + word.len() < a.len() ==> hay[at + word.len()] == a[at + word.len()]);
        assert(at + word.len() == a.len() ==> hay[at + word.len()] == 0x2e);
        assert(word_at(hay, word, at) == word_at(a, word, at));
        lemma_occurrences_split(a, b, word, at + 1);
        lemma_occurrences_split(a, b, word, at + word.len());
    }
}

/// Whether a phrase is in ASCII, begins with a letter and holds no full stop.
spec fn is_phrase(word: Seq<char>) -> bool {
    &&& vstd::utf8::is_ascii_chars(word)
    &&& word.len() > 0
    &&& word[0] != ' '
    &&& !word.contains('.')
}

/// A phrase occurs in two sentences as often as in each of them.
proof fn lemma_phrase_adds_up(a: Seq<char>, b: Seq<char>, word: Seq<char>)
    requires
        is_phrase(word),
    ensures
        occurrences(a + ". "@ + b, word) == occurrences(a, word) + occurrences(b, word),
{
    reveal_strlit(". ");
    let bytes = vstd::utf8::encode_utf8(word);
    vstd::utf8::is_ascii_chars_encode_utf8(word);
    vstd::utf8::is_ascii_chars_encode_utf8(". "@);
    crate::rows::lemma_encode_more(a + ". "@, b);
    crate::rows::lemma_encode_more(a, ". "@);
    assert(vstd::utf8::encode_utf8(". "@) == seq![0x2eu8, 0x20u8]);
    assert(word[0] as u8 == bytes[0]);
    assert forall|i: int| 0 <= i < bytes.len() implies bytes[i] != 0x2e by {
        assert(word[i] as u8 == bytes[i]);
        assert(word.contains(word[i]));
    }
    lemma_occurrences_split(
        vstd::utf8::encode_utf8(a),
        vstd::utf8::encode_utf8(b),
        bytes,
        0,
    );
}

proof fn lemma_fillers_are_phrases(i: int)
    requires
        0 <= i < filler_list().len(),
    ensures
        is_phrase(filler_list()[i]),
        is_phrase("would like"@),
{
    reveal_strlit("um");
    reveal_strlit("uh");
    reveal_strlit("uhm");
    reveal_strlit("erm");
    reveal_strlit("ah");
    reveal_strlit("er");
    reveal_strlit("hmm");
    reveal_strlit("like");
    reveal_strlit("basically");
    reveal_strlit("literally");
    reveal_strlit("honestly");
    reveal_strlit("you know");
    reveal_strlit("i mean");
    reveal_strlit("sort of");
    reveal_strlit("kind of");
    reveal_strlit("right");
    reveal_strlit("would like");
}

proof fn lemma_totals_add_up(a: Seq<char>, b: Seq<char>, n: int)
    requires
        0 <= n <= filler_list().len(),
    ensures
        filler_total(a + ". "@ + b, filler_list().take(n)) == filler_total(
            a,
            filler_list().take(n),
        ) + filler_total(b, filler_list().take(n)),
    decreases n,
{
    if n > 0 {
        let list = filler_list().take(n);
        assert(list.drop_last() == filler_list().take(n - 1));
        lemma_totals_add_up(a, b, n - 1);
        lemma_fillers_are_phrases(n - 1);
        lemma_phrase_adds_up(a, b, list.last());
        lemma_phrase_adds_up(a, b, "would like"@);
        lemma_wishes_hold_like(a);
        lemma_wishes_hold_like(b);
    }
}

/// The fillers of two sentences, both in lower case, are those of the one and those
/// of the other. For ASCII text the case makes no difference.
pub proof fn law_fillers_add_up(a: Seq<char>, b: Seq<char>)
    ensures
        filler_total(a + ". "@ + b, filler_list()) == filler_total(a, filler_list())
            + filler_total(b, filler_list()),
        filler_total(ascii_lowered(a + ". "@ + b), filler_list()) == filler_total(
            ascii_lowered(a),
            filler_list(),
        ) + filler_total(ascii_lowered(b), filler_list()),
{
    let n = filler_list().len() as int;
    assert(filler_list().take(n) == filler_list());
    lemma_totals_add_up(a, b, n);
    reveal_strlit(". ");
    assert(ascii_lowered(a + ". "@ + b) == ascii_lowered(a) + ". "@ + ascii_lowered(b));
    lemma_totals_add_up(ascii_lowered(a), ascii_lowered(b), n);
}

/// `n` frames of speech.
pub open spec fn spoken(n: nat) -> Seq<bool> {
    Seq::new(n, |i: int| true)
}

proof fn lemma_speech_run(speech: Seq<bool>, from: int, to: int)
    requires
        0 <= from < to <= speech.len(),
        forall|i: int| from <= i < to ==> #[trigger] speech[i],
    ensures
        silence_before(speech, to) == 0,
        long_pauses(speech, to) == long_pauses(speech, from + 1),
        pause_frames(speech, to) == pause_frames(speech, from + 1),
        speech_count(speech, to) == speech_count(speech, from) + (to - from),
    decreases to - from,
{
    assert(speech[to - 1]);
    if to > from + 1 {
        lemma_speech_run(speech, from, to - 1);
    }
}

proof fn lemma_silent_run(speech: Seq<bool>, from: int, to: int)
    requires
        0 < from <= to <= speech.len(),
        speech[from - 1],
        forall|i: int| from <= i < to ==> !(#[trigger] speech[i]),
    ensures
        silence_before(speech, to) == to - from,
        long_pauses(speech, to) == long_pauses(speech, from),
        pause_frames(speech, to) == pause_frames(speech, from),
        speech_count(speech, to) == speech_count(speech, from),
    decreases to - from,
{
    if to > from {
        assert(!speech[to - 1]);
        lemma_silent_run(speech, from, to - 1);
    }
}

/// Silence of `k` frames between two stretches of speech is a pause of `k` frames, and a
/// long one if and only if it lasts for 350 ms or more, at 20 ms for each frame.
#[verifier::rlimit(50)]
pub proof fn law_silence_between_speech_is_one_pause(n: nat, k: nat, m: nat)
    requires
        n > 0,
        m > 0,
    ensures
        ({
            let answer = spoken(n) + silent(k) + spoken(m);
            &&& long_pauses(answer, answer.len() as int) == if k * 20 >= 350 {
                1nat
            } else {
                0nat
            }
            &&& pause_frames(answer, answer.len() as int) == k
            &&& speech_count(answer, answer.len() as int) == n + m
        }),
{
    let s = spoken(n) + silent(k) + spoken(m);
    let a = n as int;
    let b = (n + k) as int;
    let c = (n + k + m) as int;
    assert forall|i: int| 0 <= i < a implies #[trigger] s[i] by {}
    assert forall|i: int| a <= i < b implies !(#[trigger] s[i]) by {}
    assert forall|i: int| b <= i < c implies #[trigger] s[i] by {}
    lemma_speech_run(s, 0, a);
    lemma_silent_run(s, a, b);
    lemma_speech_run(s, b, c);
    assert(s[b]);
    assert(long_pauses(s, 1) == 0 && pause_frames(s, 1) == 0) by {
        reveal_with_fuel(long_pauses, 2);
        reveal_with_fuel(pause_frames, 2);
    }
    assert(silence_before(s, b) == k);
    assert(resumes(s, b));
    assert(long_pauses(s, b + 1) == long_pauses(s, b) + if ends_long_pause(s, b) {
        1nat
    } else {
        0nat
    });
    assert(pause_frames(s, b + 1) == pause_frames(s, b) + k);
    assert(s.len() == c);
}

proof fn lemma_stretches(a: Seq<bool>, b: Seq<bool>, j: int)
    requires
        a.len() > 0,
        b.len() > 0,
        a.last(),
        b[0],
        1 <= j <= b.len(),
    ensures
        ({
            let all = a + b.drop_first();
            let n = a.len() as int;
            &&& silence_before(all, n - 1 + j) == silence_before(b, j)
            &&& silence_before(b, j) < j
            &&& long_pauses(all, n - 1 + j) == long_pauses(a, n) + long_pauses(b, j)
            &&& pause_frames(all, n - 1 + j) == pause_frames(a, n) + pause_frames(b, j)
            &&& speech_count(all, n - 1 + j) + 1 == speech_count(a, n) + speech_count(b, j)
        }),
    decreases j,
{
    let all = a + b.drop_first();
    let n = a.len() as int;
    if j == 1 {
        lemma_same_start(a, all, n);
        assert(a[n - 1] && all[n - 1]);
        reveal_with_fuel(long_pauses, 2);
        reveal_with_fuel(pause_frames, 2);
        reveal_with_fuel(speech_count, 2);
    } else {
        lemma_stretches(a, b, j - 1);
        assert(all[n - 1 + j - 1] == b[j - 1]);
    }
}

/// The counts of two stretches that share a frame of speech add up; that frame counts
/// once.
pub proof fn law_stretches_add_up(a: Seq<bool>, b: Seq<bool>)
    requires
        a.len() > 0,
        b.len() > 0,
        a.last(),
        b[0],
    ensures
        ({
            let all = a + b.drop_first();
            let len = all.len() as int;
            &&& long_pauses(all, len) == long_pauses(a, a.len() as int) + long_pauses(
                b,
                b.len() as int,
            )
            &&& pause_frames(all, len) == pause_frames(a, a.len() as int) + pause_frames(
                b,
                b.len() as int,
            )
            &&& speech_count(all, len) + 1 == speech_count(a, a.len() as int) + speech_count(
                b,
                b.len() as int,
            )
        }),
{
    lemma_stretches(a, b, b.len() as int);
}

/// A frame is speech if and only if it is louder than the threshold.
pub proof fn law_louder_frames_are_speech(levels: Seq<u32>, threshold: u32)
    ensures
        louder(levels, threshold).len() == levels.len(),
        forall|i: int|
            0 <= i < levels.len() ==> (#[trigger] louder(levels, threshold)[i] <==> levels[i]
                > threshold),
{
}

/// How many levels are below a limit.
pub open spec fn below(levels: Seq<u32>, limit: int) -> nat
    decreases levels.len(),
{
    if levels.len() == 0 {
        0
    } else {
        below(levels.drop_last(), limit) + if levels.last() < limit {
            1nat
        } else {
            0nat
        }
    }
}

proof fn lemma_below_is_counted(levels: Seq<u32>, limit: int)
    ensures
        below(levels, limit) == levels.to_multiset().filter(|v: u32| v < limit).len(),
    decreases levels.len(),
{
    broadcast use vstd::seq_lib::group_to_multiset_ensures;
    broadcast use vstd::multiset::group_multiset_axioms;

    let low = |v: u32| v < limit;
    if levels.len() == 0 {
        assert(levels.to_multiset().filter(low) =~= vstd::multiset::Multiset::<u32>::empty());
    } else {
        let front = levels.drop_last();
        let last = levels.last();
        lemma_below_is_counted(front, limit);
        assert(front.push(last) == levels);
        vstd::seq_lib::to_multiset_build(front, last);
        if last < limit {
            assert(levels.to_multiset().filter(low) =~= front.to_multiset().filter(low).insert(
                last,
            ));
        } else {
            assert(levels.to_multiset().filter(low) =~= front.to_multiset().filter(low));
        }
    }
}

proof fn lemma_below_in_order(sorted: Seq<u32>, limit: int, at: int)
    requires
        forall|i: int, j: int| 0 <= i <= j < sorted.len() ==> sorted[i] <= sorted[j],
        0 <= at < sorted.len(),
    ensures
        limit <= sorted[at] ==> below(sorted, limit) <= at,
        limit > sorted[at] ==> below(sorted, limit) > at,
    decreases sorted.len(),
{
    let front = sorted.drop_last();
    if at < sorted.len() - 1 {
        assert(front[at] == sorted[at]);
        lemma_below_in_order(front, limit, at);
    } else {
        lemma_below_at_most(front, limit);
        if limit > sorted[at] {
            assert forall|i: int| 0 <= i < front.len() implies front[i] < limit by {
                assert(sorted[i] <= sorted[at]);
            }
            lemma_all_below(front, limit);
        }
    }
}

proof fn lemma_below_at_most(levels: Seq<u32>, limit: int)
    ensures
        below(levels, limit) <= levels.len(),
    decreases levels.len(),
{
    if levels.len() > 0 {
        lemma_below_at_most(levels.drop_last(), limit);
    }
}

proof fn lemma_all_below(levels: Seq<u32>, limit: int)
    requires
        forall|i: int| 0 <= i < levels.len() ==> levels[i] < limit,
    ensures
        below(levels, limit) == levels.len(),
    decreases levels.len(),
{
    if levels.len() > 0 {
        lemma_all_below(levels.drop_last(), limit);
    }
}

/// A fifth of the levels at most is below the noise floor, and more than a fifth is no
/// higher; four fifths at most are below the peak, and more than four fifths are no
/// higher.
#[verifier::rlimit(50)]
pub proof fn law_floor_and_peak_divide_the_levels(levels: Seq<u32>)
    requires
        levels.len() > 0,
    ensures
        ({
            let n = levels.len();
            let floor = ascending(levels)[fifth(n) as int];
            let peak = ascending(levels)[four_fifths(n) as int];
            &&& levels.contains(floor) && levels.contains(peak)
            &&& 5 * below(levels, floor as int) <= n < 5 * below(levels, floor + 1)
            &&& 5 * below(levels, peak as int) <= 4 * n < 5 * below(levels, peak + 1)
        }),
{
    broadcast use vstd::seq_lib::group_to_multiset_ensures;

    let n = levels.len();
    let leq = |a: u32, b: u32| a <= b;
    let sorted = ascending(levels);
    levels.lemma_sort_by_ensures(leq);
    vstd::seq_lib::to_multiset_len(levels);
    vstd::seq_lib::to_multiset_len(sorted);
    assert forall|i: int, j: int| 0 <= i <= j < sorted.len() implies sorted[i] <= sorted[j] by {
        assert(i < j ==> leq(sorted[i], sorted[j]));
    }
    let low = fifth(n) as int;
    let high = four_fifths(n) as int;
    let floor = sorted[low];
    let peak = sorted[high];
    assert(sorted.contains(floor) && sorted.contains(peak));
    assert(sorted.to_multiset().contains(floor) && sorted.to_multiset().contains(peak));
    lemma_below_in_order(sorted, floor as int, low);
    lemma_below_in_order(sorted, floor + 1, low);
    lemma_below_in_order(sorted, peak as int, high);
    lemma_below_in_order(sorted, peak + 1, high);
    lemma_below_is_counted(sorted, floor as int);
    lemma_below_is_counted(levels, floor as int);
    lemma_below_is_counted(sorted, floor + 1);
    lemma_below_is_counted(levels, floor + 1);
    lemma_below_is_counted(sorted, peak as int);
    lemma_below_is_counted(levels, peak as int);
    lemma_below_is_counted(sorted, peak + 1);
    lemma_below_is_counted(levels, peak + 1);
}

// ---------------------------------------------------------------- laws of the words

/// Whether a byte may not touch a word: an ASCII letter or digit.
pub open spec fn clings(b: u8) -> bool {
    '0' as u8 <= b <= '9' as u8 || 'A' as u8 <= b <= 'Z' as u8 || 'a' as u8 <= b <= 'z' as u8
}

/// Whether a word is in a text from `at` on, free on both sides.
pub open spec fn is_free_at(hay: Seq<u8>, word: Seq<u8>, at: int) -> bool {
    &&& 0 <= at <= hay.len() - word.len()
    &&& forall|k: int| 0 <= k < word.len() ==> hay[at + k] == #[trigger] word[k]
    &&& at > 0 ==> !clings(hay[at - 1])
    &&& at + word.len() < hay.len() ==> !clings(hay[at + word.len()])
}

/// Whether a position lies within `len` of one of some places.
pub open spec fn is_covered(places: Seq<int>, len: nat, at: int) -> bool {
    exists|i: int| 0 <= i < places.len() && #[trigger] places[i] <= at < places[i] + len
}

/// Whether `places` are those at which a word is found when a text is read from `from` on:
/// it is there at each of them, they do not overlap, and wherever else it is, it
/// overlaps with an earlier one.
pub open spec fn are_places(hay: Seq<u8>, word: Seq<u8>, from: int, places: Seq<int>) -> bool {
    &&& forall|i: int|
        0 <= i < places.len() ==> from <= #[trigger] places[i] && is_free_at(hay, word, places[i])
    &&& forall|i: int, j: int|
        0 <= i < j < places.len() ==> #[trigger] places[i] + word.len() <= #[trigger] places[j]
    &&& forall|at: int|
        from <= at && is_free_at(hay, word, at) ==> #[trigger] is_covered(
            places,
            word.len(),
            at,
        )
}

proof fn lemma_free_is_word_at(hay: Seq<u8>, word: Seq<u8>, at: int)
    ensures
        is_free_at(hay, word, at) == word_at(hay, word, at),
{
    if 0 <= at <= hay.len() - word.len() {
        let here = hay.subrange(at, at + word.len());
        if is_free_at(hay, word, at) {
            assert(here == word) by {
                assert forall|k: int| 0 <= k < word.len() implies here[k] == word[k] by {
                    assert(hay[at + k] == word[k]);
                }
            }
        }
        if word_at(hay, word, at) {
            assert forall|k: int| 0 <= k < word.len() implies hay[at + k] == #[trigger] word[k] by {
                assert(here[k] == word[k]);
            }
        }
    }
}

#[verifier::rlimit(50)]
proof fn lemma_places_are_found(hay: Seq<u8>, word: Seq<u8>, from: int) -> (places: Seq<int>)
    requires
        word.len() > 0,
        from >= 0,
    ensures
        are_places(hay, word, from, places),
        places.len() == occurrences_from(hay, word, from),
    decreases hay.len() - from,
{
    let none = Seq::<int>::empty();
    if from + word.len() > hay.len() {
        none
    } else if word_at(hay, word, from) {
        let later = lemma_places_are_found(hay, word, (from + word.len()) as int);
        let places = seq![from] + later;
        lemma_free_is_word_at(hay, word, from);
        assert forall|i: int| 0 <= i < places.len() implies from <= #[trigger] places[i]
            && is_free_at(hay, word, places[i]) by {
            if i > 0 {
                assert(places[i] == later[i - 1]);
            }
        }
        assert forall|i: int, j: int| 0 <= i < j < places.len() implies #[trigger] places[i]
            + word.len() <= #[trigger] places[j] by {
            assert(places[j] == later[j - 1]);
            if i > 0 {
                assert(places[i] == later[i - 1]);
            }
        }
        assert forall|at: int| from <= at && is_free_at(hay, word, at) implies
            #[trigger] is_covered(places, word.len(), at) by {
            if at < from + word.len() {
                assert(places[0] == from);
            } else {
                assert(is_covered(later, word.len(), at));
                let i = choose|i: int|
                    0 <= i < later.len() && #[trigger] later[i] <= at < later[i] + word.len();
                assert(places[i + 1] == later[i]);
            }
        }
        places
    } else {
        let places = lemma_places_are_found(hay, word, from + 1);
        lemma_free_is_word_at(hay, word, from);
        assert forall|at: int| from <= at && is_free_at(hay, word, at) implies
            #[trigger] is_covered(places, word.len(), at) by {
            assert(at != from);
        }
        places
    }
}

/// A word occurs as often as it is found when the text is read from the left.
pub proof fn law_occurrences_are_found(hay: Seq<char>, word: Seq<char>)
    ensures
        word.len() > 0 ==> exists|places: Seq<int>| #[trigger]
            are_places(
                vstd::utf8::encode_utf8(hay),
                vstd::utf8::encode_utf8(word),
                0,
                places,
            ) && occurrences(hay, word) == places.len(),
        word.len() == 0 ==> occurrences(hay, word) == 0,
{
    let bytes = vstd::utf8::encode_utf8(word);
    if word.len() > 0 {
        assert(vstd::utf8::encode_scalar(word[0] as u32).len() > 0);
        assert(bytes.len() > 0);
        let places = lemma_places_are_found(vstd::utf8::encode_utf8(hay), bytes, 0);
        assert(are_places(vstd::utf8::encode_utf8(hay), bytes, 0, places));
    }
}

/// A text made of letters and digits alone holds a word at most once: where it is
/// the word.
#[verifier::rlimit(50)]
pub proof fn law_word_is_no_part_of_another(hay: Seq<char>, word: Seq<char>)
    requires
        word.len() > 0,
        vstd::utf8::is_ascii_chars(hay),
        vstd::utf8::is_ascii_chars(word),
        forall|i: int| 0 <= i < hay.len() ==> clings(#[trigger] hay[i] as u8),
    ensures
        occurrences(hay, word) == if hay == word {
            1nat
        } else {
            0nat
        },
{
    let bytes = vstd::utf8::encode_utf8(hay);
    let other = vstd::utf8::encode_utf8(word);
    vstd::utf8::is_ascii_chars_encode_utf8(hay);
    vstd::utf8::is_ascii_chars_encode_utf8(word);
    assert(other.len() == word.len() && bytes.len() == hay.len());
    let places = lemma_places_are_found(bytes, other, 0);
    assert forall|at: int| #[trigger] is_free_at(bytes, other, at) implies at == 0 && other.len()
        == bytes.len() by {
        if at > 0 {
            assert(clings(hay[at - 1] as u8));
        }
        if at + other.len() < bytes.len() {
            assert(clings(hay[at + other.len()] as u8));
        }
    }
    if hay == word {
        assert(is_free_at(bytes, other, 0));
        assert(is_covered(places, other.len(), 0));
        let i = choose|i: int|
            0 <= i < places.len() && #[trigger] places[i] <= 0 < places[i] + other.len();
        assert(places.len() > 0);
        if places.len() > 1 {
            assert(places[0] + other.len() <= places[1]);
            assert(is_free_at(bytes, other, places[1]));
        }
    } else {
        if places.len() > 0 {
            assert(is_free_at(bytes, other, places[0]));
            assert forall|k: int| 0 <= k < word.len() implies hay[k] == word[k] by {
                assert(bytes[0 + k] == other[k]);
                assert(hay[k] as u8 == bytes[k] && word[k] as u8 == other[k]);
            }
            assert(hay == word);
        }
    }
}

/// The notes on a list of fillers are those on its one half and then those on the other,
/// and the counts add up. The note on a filler that occurs is the filler and how often; on
/// one that does not there is none.
#[verifier::rlimit(50)]
pub proof fn law_fillers_are_noted_one_by_one(
    hay: Seq<char>,
    a: Seq<Seq<char>>,
    b: Seq<Seq<char>>,
    filler: Seq<char>,
)
    requires
        filler != "like"@,
    ensures
        filler_total(hay, a + b) == filler_total(hay, a) + filler_total(hay, b),
        filler_notes(hay, a + b) == filler_notes(hay, a) + filler_notes(hay, b),
        filler_total(hay, seq![filler]) == occurrences(hay, filler),
        filler_notes(hay, seq![filler]) == if occurrences(hay, filler) > 0 {
            seq![filler + " (×"@ + text::decimal(occurrences(hay, filler)) + ")"@]
        } else {
            seq![]
        },
        filler_total(hay, seq!["like"@]) + occurrences(hay, "would like"@) == occurrences(
            hay,
            "like"@,
        ),
        filler_notes(hay, seq!["like"@]) == if occurrences(hay, "like"@) > occurrences(
            hay,
            "would like"@,
        ) {
            seq![
                "like"@ + " (×"@ + text::decimal(
                    (occurrences(hay, "like"@) - occurrences(hay, "would like"@)) as nat,
                ) + ")"@,
            ]
        } else {
            seq![]
        },
    decreases b.len(),
{
    let none = Seq::<Seq<char>>::empty();
    lemma_wishes_hold_like(hay);
    assert(seq![filler].drop_last() == none && seq![filler].last() == filler);
    assert(seq!["like"@].drop_last() == none && seq!["like"@].last() == "like"@);
    assert(filler_total(hay, none) == 0);
    assert(filler_notes(hay, none) == none);
    if b.len() == 0 {
        assert(a + b == a);
        assert(filler_notes(hay, a) + none == filler_notes(hay, a));
    } else {
        law_fillers_are_noted_one_by_one(hay, a, b.drop_last(), filler);
        assert((a + b).drop_last() == a + b.drop_last());
        assert((a + b).last() == b.last());
    }
}

/// Sixteen words and phrases count as fillers, each as often as it occurs, but for "like"
/// in phrases such as "I would like".
#[verifier::rlimit(50)]
pub proof fn law_sixteen_fillers_count(hay: Seq<char>)
    ensures
        filler_total(hay, filler_list()) + occurrences(hay, "would like"@) == occurrences(
            hay,
            "um"@,
        ) + occurrences(hay, "uh"@) + occurrences(hay, "uhm"@) + occurrences(hay, "erm"@)
            + occurrences(hay, "ah"@) + occurrences(hay, "er"@) + occurrences(hay, "hmm"@)
            + occurrences(hay, "like"@) + occurrences(hay, "basically"@) + occurrences(
            hay,
            "literally"@,
        ) + occurrences(hay, "honestly"@) + occurrences(hay, "you know"@) + occurrences(
            hay,
            "i mean"@,
        ) + occurrences(hay, "sort of"@) + occurrences(hay, "kind of"@) + occurrences(
            hay,
            "right"@,
        ),
{
    reveal_strlit("um");
    reveal_strlit("uh");
    reveal_strlit("uhm");
    reveal_strlit("erm");
    reveal_strlit("ah");
    reveal_strlit("er");
    reveal_strlit("hmm");
    reveal_strlit("like");
    reveal_strlit("basically");
    reveal_strlit("literally");
    reveal_strlit("honestly");
    reveal_strlit("you know");
    reveal_strlit("i mean");
    reveal_strlit("sort of");
    reveal_strlit("kind of");
    reveal_strlit("right");
    lemma_wishes_hold_like(hay);
    let list = filler_list();
    assert("like"@[0] == 'l' && "literally"@[0] == 'l' && "literally"@.len() == 9);
    assert(filler_total(hay, list.take(0)) == 0);
    assert(list.take(16) == list);
    lemma_next_filler(hay, 1);
    lemma_next_filler(hay, 2);
    lemma_next_filler(hay, 3);
    lemma_next_filler(hay, 4);
    lemma_next_filler(hay, 5);
    lemma_next_filler(hay, 6);
    lemma_next_filler(hay, 7);
    lemma_next_filler(hay, 8);
    lemma_next_filler(hay, 9);
    lemma_next_filler(hay, 10);
    lemma_next_filler(hay, 11);
    lemma_next_filler(hay, 12);
    lemma_next_filler(hay, 13);
    lemma_next_filler(hay, 14);
    lemma_next_filler(hay, 15);
    lemma_next_filler(hay, 16);
}

proof fn lemma_next_filler(hay: Seq<char>, n: int)
    requires
        0 < n <= filler_list().len(),
    ensures
        filler_total(hay, filler_list().take(n)) == filler_total(hay, filler_list().take(n - 1))
            + filler_times(hay, filler_list()[n - 1]),
{
    assert(filler_list().take(n).drop_last() == filler_list().take(n - 1));
    assert(filler_list().take(n).last() == filler_list()[n - 1]);
}

/// The metrics of a prompt are nine lines, each with its name and its value.
#[verifier::rlimit(50)]
pub proof fn law_prompt_has_a_line_for_each_metric(metrics: DeliveryMetrics)
    ensures
        metrics.prompt_text() == text::joined(
            seq![
                "duration_secs: "@ + metrics.duration_secs.shown@,
                "words: "@ + text::decimal(metrics.words as nat),
                "words_per_minute: "@ + metrics.words_per_minute.shown@,
                "speech_ratio: "@ + metrics.speech_ratio.shown@,
                "total_mid_utterance_pause_secs: "@ + metrics.total_pause_secs.shown@,
                "long_pauses_over_350ms: "@ + text::decimal(metrics.long_pause_count as nat),
                "energy_coefficient_of_variation: "@ + metrics.energy_cv.shown@,
                "filler_count: "@ + text::decimal(metrics.filler_count as nat),
                "filler_breakdown: "@ + if metrics.filler_examples@.len() == 0 {
                    "none"@
                } else {
                    text::joined(text::texts(metrics.filler_examples@), ", "@)
                },
            ],
            "\n"@,
        ),
{
    reveal_strlit("\n");
    reveal_strlit("words: ");
    reveal_strlit("\nwords: ");
    reveal_strlit("words_per_minute: ");
    reveal_strlit("\nwords_per_minute: ");
    reveal_strlit("speech_ratio: ");
    reveal_strlit("\nspeech_ratio: ");
    reveal_strlit("total_mid_utterance_pause_secs: ");
    reveal_strlit("\ntotal_mid_utterance_pause_secs: ");
    reveal_strlit("long_pauses_over_350ms: ");
    reveal_strlit("\nlong_pauses_over_350ms: ");
    reveal_strlit("energy_coefficient_of_variation: ");
    reveal_strlit("\nenergy_coefficient_of_variation: ");
    reveal_strlit("filler_count: ");
    reveal_strlit("\nfiller_count: ");
    reveal_strlit("filler_breakdown: ");
    reveal_strlit("\nfiller_breakdown: ");
    assert("\nwords: "@ == "\n"@ + "words: "@);
    assert("\nwords_per_minute: "@ == "\n"@ + "words_per_minute: "@);
    assert("\nspeech_ratio: "@ == "\n"@ + "speech_ratio: "@);
    assert("\ntotal_mid_utterance_pause_secs: "@ == "\n"@ + "total_mid_utterance_pause_secs: "@);
    assert("\nlong_pauses_over_350ms: "@ == "\n"@ + "long_pauses_over_350ms: "@);
    assert("\nenergy_coefficient_of_variation: "@ == "\n"@ + "energy_coefficient_of_variation: "@);
    assert("\nfiller_count: "@ == "\n"@ + "filler_count: "@);
    assert("\nfiller_breakdown: "@ == "\n"@ + "filler_breakdown: "@);
    let examples = breakdown(text::texts(metrics.filler_examples@));
    let lines = seq![
        "duration_secs: "@ + metrics.duration_secs.shown@,
        "words: "@ + text::decimal(metrics.words as nat),
        "words_per_minute: "@ + metrics.words_per_minute.shown@,
        "speech_ratio: "@ + metrics.speech_ratio.shown@,
        "total_mid_utterance_pause_secs: "@ + metrics.total_pause_secs.shown@,
        "long_pauses_over_350ms: "@ + text::decimal(metrics.long_pause_count as nat),
        "energy_coefficient_of_variation: "@ + metrics.energy_cv.shown@,
        "filler_count: "@ + text::decimal(metrics.filler_count as nat),
        "filler_breakdown: "@ + examples,
    ];
    assert(lines.take(1) == seq![lines[0]]);
    assert(text::joined(seq![lines[0]], "\n"@) == lines[0]);
    lemma_next_metric(lines, 1, "\nwords: "@, "words: "@, text::decimal(metrics.words as nat));
    lemma_next_metric(
        lines,
        2,
        "\nwords_per_minute: "@,
        "words_per_minute: "@,
        metrics.words_per_minute.shown@,
    );
    lemma_next_metric(
        lines,
        3,
        "\nspeech_ratio: "@,
        "speech_ratio: "@,
        metrics.speech_ratio.shown@,
    );
    lemma_next_metric(
        lines,
        4,
        "\ntotal_mid_utterance_pause_secs: "@,
        "total_mid_utterance_pause_secs: "@,
        metrics.total_pause_secs.shown@,
    );
    lemma_next_metric(
        lines,
        5,
        "\nlong_pauses_over_350ms: "@,
        "long_pauses_over_350ms: "@,
        text::decimal(metrics.long_pause_count as nat),
    );
    lemma_next_metric(
        lines,
        6,
        "\nenergy_coefficient_of_variation: "@,
        "energy_coefficient_of_variation: "@,
        metrics.energy_cv.shown@,
    );
    lemma_next_metric(
        lines,
        7,
        "\nfiller_count: "@,
        "filler_count: "@,
        text::decimal(metrics.filler_count as nat),
    );
    lemma_next_metric(lines, 8, "\nfiller_breakdown: "@, "filler_breakdown: "@, examples);
    assert(lines.take(9) == lines);
}

proof fn lemma_next_metric(
    lines: Seq<Seq<char>>,
    n: int,
    heading: Seq<char>,
    label: Seq<char>,
    value: Seq<char>,
)
    requires
        0 < n < lines.len(),
        heading == "\n"@ + label,
        lines[n] == label + value,
    ensures
        text::joined(lines.take(n + 1), "\n"@) == text::joined(lines.take(n), "\n"@) + heading
            + value,
{
    let before = text::joined(lines.take(n), "\n"@);
    assert(lines.take(n + 1).drop_last() == lines.take(n));
    assert(before + "\n"@ + (label + value) == before + ("\n"@ + label) + value);
}

/// Measures that are the same agree in the number and in how it is shown, and metrics that
/// are the same agree in every part.
pub proof fn law_same_metrics_agree(a: DeliveryMetrics, b: DeliveryMetrics, x: Measure, y: Measure)
    ensures
        x.same(y) <==> x.bits == y.bits && x.shown@ == y.shown@,
        a.same(b) ==> {
            &&& a.prompt_text() == b.prompt_text()
            &&& a.duration_secs.bits == b.duration_secs.bits
            &&& a.words_per_minute.bits == b.words_per_minute.bits
            &&& a.speech_ratio.bits == b.speech_ratio.bits
            &&& a.total_pause_secs.bits == b.total_pause_secs.bits
            &&& a.energy_cv.bits == b.energy_cv.bits
        },
{
}

} // verus!
