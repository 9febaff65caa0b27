use speakflow::calendar::format_utc;
use speakflow::rows;
use speakflow::text;

fn as_strings(lines: Vec<&[char]>) -> Vec<String> {
    lines.iter().map(|l| l.iter().collect()).collect()
}

fn lines(s: &str) -> Vec<String> {
    let chars = text::to_chars(s);
    as_strings(text::lines(&chars))
}

#[test]
fn white_space_is_that_of_the_standard_library() {
    let mut code: u32 = 0;
    while code <= 0x10ffff {
        if let Some(c) = char::from_u32(code) {
            assert_eq!(text::is_whitespace(c), c.is_whitespace(), "{:x}", code);
        }
        code += 1;
    }
}

#[test]
fn texts_are_trimmed_on_both_sides() {
    for s in ["", " ", "\t a b \n", "a", "\u{2003}x\u{a0}", "\u{200b}y"] {
        assert_eq!(text::trim_text(s), s.trim());
        assert_eq!(text::is_blank(s), s.trim().is_empty());
    }
}

#[test]
fn lines_end_in_a_line_feed_or_with_the_text() {
    for s in ["", "\n", "a", "a\n", "a\r\nb", "a\n\nb\n", "\r", "a\r", "a\r\r\n", "\n\n"] {
        let expected: Vec<String> = s.lines().map(|l| l.to_string()).collect();
        assert_eq!(lines(s), expected, "{:?}", s);
    }
}

#[test]
fn words_are_separated_by_white_space() {
    for s in ["", "  ", "one", " one two ", "a\tb\nc\u{a0}d", "über élan"] {
        assert_eq!(text::count_words(s), s.split_whitespace().count());
    }
}

#[test]
fn parts_are_found() {
    let chars = text::to_chars("hello world");
    assert!(text::contains(&chars, "o w"));
    assert!(text::contains(&chars, ""));
    assert!(!text::contains(&chars, "worlds"));
    assert!(text::starts_with(&chars, "hell"));
    assert!(!text::starts_with(&chars, "ello"));
    let rest = text::strip_prefix(&chars, "hello ").map(|r| text::from_chars(r));
    assert_eq!(rest, Some("world".to_string()));
    assert!(text::strip_prefix(&chars, "world").is_none());
    assert_eq!(text::find_char(&chars, 0, 'o'), 4);
    assert_eq!(text::find_char(&chars, 5, 'o'), 2);
    assert_eq!(text::find_char(&chars, 0, 'z'), 11);
    assert!(text::same_text("a", "a"));
    assert!(!text::same_text("a", "ab"));
}

#[test]
fn numbers_are_written_in_decimal() {
    for n in [0u128, 7, 10, 99, 100, 1_000_001, u64::MAX as u128, u128::MAX] {
        assert_eq!(text::number(n), n.to_string());
    }
    for (n, width) in [(0i64, 4usize), (7, 2), (12, 2), (1970, 4), (-5, 4), (12345, 4), (-1, 2)] {
        let mut out = String::from("<");
        text::push_padded(&mut out, n, width);
        assert_eq!(out, format!("<{:0width$}", n, width = width));
    }
}

#[test]
fn lists_are_joined() {
    let list = vec!["a".to_string(), "".to_string(), "c".to_string()];
    assert_eq!(text::join(&list, ", "), "a, , c");
    assert_eq!(text::join(&Vec::new(), ", "), "");
}

#[test]
fn times_are_shown_as_utc() {
    assert_eq!(format_utc(0), "1970-01-01 00:00 UTC");
    assert_eq!(format_utc(-1), "1969-12-31 23:59 UTC");
    assert_eq!(format_utc(951_782_400), "2000-02-29 00:00 UTC");
    assert_eq!(format_utc(951_868_799), "2000-02-29 23:59 UTC");
    assert_eq!(format_utc(951_868_800), "2000-03-01 00:00 UTC");
    assert_eq!(format_utc(1_700_000_000), "2023-11-14 22:13 UTC");
    assert_eq!(format_utc(4_107_542_399), "2100-02-28 23:59 UTC");
    assert_eq!(format_utc(4_107_542_400), "2100-03-01 00:00 UTC");
    assert_eq!(format_utc(-62_135_596_800), "0001-01-01 00:00 UTC");
    assert_eq!(format_utc(-62_167_219_200), "0000-01-01 00:00 UTC");
    assert_eq!(format_utc(-62_167_219_201), "-001-12-31 23:59 UTC");
    assert_eq!(format_utc(253_402_300_800), "10000-01-01 00:00 UTC");
}

#[test]
fn days_follow_one_another() {
    let mut last = String::new();
    let mut day: i64 = -800_000;
    while day < 100_000 {
        let shown = format_utc(day * 86_400);
        assert_ne!(shown, last);
        last = shown;
        day += 1;
    }
}

#[test]
fn later_moments_have_later_texts() {
    let mut moments: Vec<i64> = vec![-62_167_219_200, 253_402_300_799, -1, 0, 59, 60, 61];
    let mut t: i64 = -62_167_219_200;
    while t < 253_402_300_799 {
        moments.push(t);
        t += 98_765_432;
    }
    moments.sort();
    for pair in moments.windows(2) {
        let (a, b) = (format_utc(pair[0]), format_utc(pair[1]));
        assert_eq!(a.len(), 20);
        assert!(a <= b);
        assert_eq!(a == b, pair[0].div_euclid(60) == pair[1].div_euclid(60));
    }
}

#[test]
fn every_second_has_a_date() {
    assert!(format_utc(i64::MAX).ends_with(" UTC"));
    assert!(format_utc(i64::MIN).starts_with('-'));
}

#[test]
fn rows_are_read_line_by_line() {
    assert_eq!(rows::rows_in(b"{\"a\":1}\n  {\"b\":2} \r\n\n   \n{\"c\":3}"), vec![
        "{\"a\":1}".to_string(),
        "{\"b\":2}".to_string(),
        "{\"c\":3}".to_string(),
    ]);
    assert!(rows::rows_in(b"").is_empty());
    assert!(rows::rows_in(b"\n\n").is_empty());
}

#[test]
fn a_row_that_is_no_text_is_passed_over() {
    let mut bytes = b"first\n".to_vec();
    bytes.extend_from_slice(&[0xff, 0xfe, b'x', b'\n']);
    bytes.extend_from_slice("zweite — ü\n".as_bytes());
    assert_eq!(rows::rows_in(&bytes), vec!["first".to_string(), "zweite — ü".to_string()]);
}

#[test]
fn an_appended_row_is_read_back() {
    let mut log = b"one\ntwo\n".to_vec();
    let before = rows::rows_in(&log);
    log.extend_from_slice(rows::row_line("drei ✓").as_bytes());
    let after = rows::rows_in(&log);
    assert_eq!(after[..2], before[..]);
    assert_eq!(after[2], "drei ✓");
    assert_eq!(after.len(), 3);
}

#[test]
fn logs_add_up() {
    let a = b"x\n\xff\ny";
    let b = b"\nz";
    let mut all = a.to_vec();
    all.push(b'\n');
    all.extend_from_slice(b);
    let mut expected = rows::rows_in(a);
    expected.extend(rows::rows_in(b));
    assert_eq!(rows::rows_in(&all), expected);
}

#[test]
fn a_written_log_is_read() {
    let written = ["{\"a\":1}", "ü", "two words"];
    let mut log = String::new();
    for row in written {
        log.push_str(&rows::row_line(row));
    }
    assert_eq!(log, "{\"a\":1}\nü\ntwo words\n");
    assert_eq!(rows::rows_in(log.as_bytes()), written.map(|r| r.to_string()).to_vec());
}
