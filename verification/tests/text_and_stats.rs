use minimalmark::stats::{
    chars_label, count_stats, cursor_label, cursor_status, reading_label, words_label,
};
use minimalmark::text::{decimal_string, is_whitespace};

#[test]
fn decimal_string_writes_digits() {
    assert_eq!(decimal_string(0), "0");
    assert_eq!(decimal_string(7), "7");
    assert_eq!(decimal_string(10), "10");
    assert_eq!(decimal_string(12345), "12345");
    assert_eq!(decimal_string(u64::MAX), u64::MAX.to_string());
}

#[test]
fn whitespace_follows_unicode() {
    for c in ['\t', '\n', '\u{0B}', '\u{0C}', '\r', ' ', '\u{85}', '\u{A0}', '\u{2003}', '\u{3000}'] {
        assert!(is_whitespace(c), "{:?}", c);
        assert_eq!(is_whitespace(c), c.is_whitespace());
    }
    for c in ['a', '#', '\u{200B}', '\u{E9}', '0'] {
        assert!(!is_whitespace(c), "{:?}", c);
        assert_eq!(is_whitespace(c), c.is_whitespace());
    }
}

#[test]
fn count_stats_of_a_document() {
    let text = "Hello world. This is a test!\n\nSecond paragraph?";
    let (words, chars, sentences, paragraphs, minutes) = count_stats(text);
    assert_eq!(words, 8);
    assert_eq!(chars, text.chars().count());
    assert_eq!(sentences, 3);
    assert_eq!(paragraphs, 2);
    assert_eq!(minutes, 1);
}

#[test]
fn count_stats_of_empty_text() {
    assert_eq!(count_stats(""), (0, 0, 0, 0, 0));
}

#[test]
fn count_stats_blank_paragraphs_are_not_counted() {
    assert_eq!(count_stats("\n\n\n").3, 0);
    assert_eq!(count_stats("a\n\n \n\nb").3, 2);
    // "\n\n\n" after a word: the split takes the first two newlines.
    assert_eq!(count_stats("a\n\n\nb").3, 2);
    assert_eq!(count_stats("one paragraph\nstill one").3, 1);
}

#[test]
fn count_stats_matches_std_splitting() {
    let samples = [
        "  leading and trailing  ",
        "tabs\tand\u{3000}ideographic space",
        "x.y!z?",
        "a\n\n\n\nb\n\nc\n\n",
        "…déjà vu… done.",
    ];
    for t in samples {
        let (w, c, s, p, m) = count_stats(t);
        assert_eq!(w, t.split_whitespace().count(), "{:?}", t);
        assert_eq!(c, t.chars().count());
        assert_eq!(s, t.split(|c| c == '.' || c == '!' || c == '?').count().saturating_sub(1));
        assert_eq!(p, t.split("\n\n").filter(|p| !p.trim().is_empty()).count(), "{:?}", t);
        assert_eq!(m as f64, (w as f64 / 200.0).ceil());
    }
}

#[test]
fn reading_time_rounds_up() {
    let words200 = "w ".repeat(200);
    let words201 = "w ".repeat(201);
    let words400 = "w ".repeat(400);
    assert_eq!(count_stats(&words200).4, 1);
    assert_eq!(count_stats(&words201).4, 2);
    assert_eq!(count_stats(&words400).4, 2);
}

#[test]
fn status_labels() {
    assert_eq!(words_label(5), "5 words");
    assert_eq!(chars_label(0), "0 chars");
    assert_eq!(reading_label(3), "3 min read");
    assert_eq!(cursor_label(1, 1), "Ln 1, Col 1");
    assert_eq!(cursor_status(0, 0), "Ln 1, Col 1");
    assert_eq!(cursor_status(9, 41), "Ln 10, Col 42");
}
