//! Text functions held against those of the standard library.

use vantage::text::{
    find, is_white_space, matches_at, parse_u64, push_chars, push_hex8, push_u64, same_chars,
    same_ignoring_case, slice_chars, split_lines, split_words, to_chars, to_text, trim, u64_text,
};

const SAMPLES: [&str; 14] = [
    "",
    " ",
    "word",
    " two  words ",
    "a\tb\u{a0}c\u{3000}d",
    "\u{1680}x\u{2028}y\u{85}",
    "one\ntwo\r\nthree",
    "\n\n",
    "trailing\n",
    "trailing\r\n",
    "lone\rreturn\r",
    "\r\n\r",
    "caf\u{e9} \u{1f600} end",
    "\u{200b}not white",
];

fn strings(parts: Vec<Vec<char>>) -> Vec<String> {
    parts.iter().map(|part| part.iter().collect()).collect()
}

#[test]
fn white_space_is_that_of_the_standard_library() {
    for n in 0..=0x10_ffff_u32 {
        if let Some(c) = char::from_u32(n) {
            assert_eq!(is_white_space(c), c.is_whitespace(), "{n:#x}");
        }
    }
}

#[test]
fn texts_split_as_in_the_standard_library() {
    for sample in SAMPLES {
        let chars = to_chars(sample);
        let words: Vec<&str> = sample.split_whitespace().collect();
        assert_eq!(strings(split_words(&chars)), words, "{sample:?}");
        let lines: Vec<&str> = sample.lines().collect();
        assert_eq!(strings(split_lines(&chars)), lines, "{sample:?}");
        assert_eq!(to_text(&trim(&chars)), sample.trim(), "{sample:?}");
    }
}

#[test]
fn texts_are_found_as_in_the_standard_library() {
    let hay = "a-b - c - d";
    let chars = to_chars(hay);
    for needle in ["-", " - ", "", "d", "e", "a-b - c - d", "a-b - c - d "] {
        let wanted = to_chars(needle);
        assert_eq!(find(&chars, &wanted), hay.find(needle), "{needle:?}");
    }
    assert!(matches_at(&chars, &to_chars("b -"), 2));
    assert!(!matches_at(&chars, &to_chars("d-"), 10));
    assert!(!matches_at(&chars, &to_chars("d"), 99));
}

#[test]
fn numbers_are_read_as_in_the_standard_library() {
    for text in [
        "", "+", "-", "-1", "+7", "0", "007", "42", " 42", "4 2", "x",
        "18446744073709551615", "18446744073709551616", "99999999999999999999999",
        "18446744073709551616x", "+18446744073709551615", "1_000", "\u{664}", "++1",
    ] {
        let ours = parse_u64(&to_chars(text)).map_err(|error| error.message().to_owned());
        let theirs = text.parse::<u64>().map_err(|error| error.to_string());
        assert_eq!(ours, theirs, "{text:?}");
    }
}

#[test]
fn numbers_are_written_as_in_the_standard_library() {
    for n in [0, 1, 9, 10, 99, 1_000_000, u64::MAX] {
        assert_eq!(u64_text(n), n.to_string());
        assert_eq!(parse_u64(&to_chars(&u64_text(n))), Ok(n));
        let mut out = "n=".to_owned();
        push_u64(&mut out, n);
        assert_eq!(out, format!("n={n}"));
    }
    for n in [0, 1, 0xab, 0xefb2_d4b7, u32::MAX] {
        let mut out = String::new();
        push_hex8(&mut out, n);
        assert_eq!(out, format!("{n:#010x}"));
    }
}

#[test]
fn chars_go_in_and_out() {
    for sample in SAMPLES {
        let chars = to_chars(sample);
        assert_eq!(chars, sample.chars().collect::<Vec<char>>());
        let mut out = "<".to_owned();
        push_chars(&mut out, &chars);
        assert_eq!(out, format!("<{sample}"));
        assert!(same_chars(&chars, &to_chars(sample)));
    }
    assert!(!same_chars(&to_chars("ab"), &to_chars("abc")));
    assert!(!same_chars(&to_chars("ab"), &to_chars("aB")));
    assert_eq!(slice_chars(&to_chars("abcd"), 1, 3), vec!['b', 'c']);
}

#[test]
fn case_is_ignored_for_ascii_alone() {
    for (a, b) in [("TCP", "tcp"), ("GeT", "gEt"), ("\u{c9}", "\u{e9}"), ("a", "ab"), ("k", "\u{212a}"), ("@", "`")] {
        assert_eq!(same_ignoring_case(a, b), a.eq_ignore_ascii_case(b), "{a} {b}");
    }
}
