use minimalmark::livepreview::{live_preview_byte_spans, live_preview_spans, Span, SpanStyle};
use minimalmark::outline::{outline_headings, outline_label, outline_margin};

fn span(start: usize, end: usize, style: SpanStyle) -> Span {
    Span { start, end, style }
}

fn entries(text: &str) -> Vec<(String, u32, usize)> {
    outline_headings(text).into_iter().map(|e| (e.title, e.level, e.line)).collect()
}

#[test]
fn outline_lists_headings_with_levels_and_lines() {
    let text = "# Title\n\n## Sub\n####### no\n#NoSpace\n   ### Indented  \n###### six\n# ";
    assert_eq!(
        entries(text),
        vec![
            ("Title".to_string(), 1, 0),
            ("Sub".to_string(), 2, 2),
            ("Indented".to_string(), 3, 5),
        ]
    );
}

#[test]
fn outline_handles_level_five_and_crlf() {
    assert_eq!(entries("##### Deep\r\ntext\r\n"), vec![("Deep".to_string(), 5, 0)]);
    assert_eq!(entries(""), vec![]);
    assert_eq!(entries("\n\n# Last"), vec![("Last".to_string(), 1, 2)]);
}

#[test]
fn outline_labels_and_margins() {
    assert_eq!(outline_label(1, "Title"), "● Title");
    assert_eq!(outline_label(2, "Sub"), "  ○ Sub");
    assert_eq!(outline_label(4, "Deep"), "  – Deep");
    assert_eq!(outline_margin(1), 4);
    assert_eq!(outline_margin(3), 28);
}

#[test]
fn live_preview_styles_heading_and_bold() {
    let text = "# Title\nSome **bold** text";
    assert_eq!(
        live_preview_spans(text, 1),
        vec![
            span(0, 2, SpanStyle::Hide),
            span(2, 7, SpanStyle::Heading1),
            span(13, 15, SpanStyle::Hide),
            span(15, 19, SpanStyle::Bold),
            span(19, 21, SpanStyle::Hide),
        ]
    );
}

#[test]
fn live_preview_leaves_cursor_line_heading_raw() {
    let text = "# Title\nSome **bold** text";
    assert_eq!(
        live_preview_spans(text, 0),
        vec![
            span(13, 15, SpanStyle::Hide),
            span(15, 19, SpanStyle::Bold),
            span(19, 21, SpanStyle::Hide),
        ]
    );
}

#[test]
fn live_preview_italic_skips_bold_markers() {
    let text = "*a* and **b**";
    assert_eq!(
        live_preview_spans(text, 5),
        vec![
            span(8, 10, SpanStyle::Hide),
            span(10, 11, SpanStyle::Bold),
            span(11, 13, SpanStyle::Hide),
            span(0, 1, SpanStyle::Hide),
            span(1, 2, SpanStyle::Italic),
            span(2, 3, SpanStyle::Hide),
        ]
    );
}

#[test]
fn live_preview_other_markers() {
    assert_eq!(
        live_preview_spans("~~x~~ `c` _i_ __b__", 3),
        vec![
            span(14, 16, SpanStyle::Hide),
            span(16, 17, SpanStyle::Bold),
            span(17, 19, SpanStyle::Hide),
            span(10, 11, SpanStyle::Hide),
            span(11, 12, SpanStyle::Italic),
            span(12, 13, SpanStyle::Hide),
            span(0, 2, SpanStyle::Hide),
            span(2, 3, SpanStyle::Strike),
            span(3, 5, SpanStyle::Hide),
            span(6, 7, SpanStyle::Hide),
            span(7, 8, SpanStyle::Code),
            span(8, 9, SpanStyle::Hide),
        ]
    );
}

#[test]
fn live_preview_edge_cases() {
    assert_eq!(live_preview_spans("", 0), vec![]);
    assert_eq!(live_preview_spans("**", 3), vec![]);
    assert_eq!(live_preview_spans("``", 3), vec![]);
    // Levels four to six are not styled; the heading at the end of a text
    // ending in a newline keeps that newline in its range.
    assert_eq!(live_preview_spans("#### four\n", 9), vec![]);
    assert_eq!(
        live_preview_spans("  ## Two\n", 9),
        vec![span(2, 5, SpanStyle::Hide), span(5, 9, SpanStyle::Heading2)]
    );
    assert_eq!(live_preview_spans("### ", 9), vec![span(0, 4, SpanStyle::Hide)]);
}

#[test]
fn live_preview_spans_stay_in_text() {
    let samples = ["# a\n**b** *c* `d` ~~e~~ __f__ _g_\n## h", "*** _ __ ~~~ ``` #", "é **ü** é"];
    for t in samples {
        for cursor in 0..4 {
            for s in live_preview_spans(t, cursor) {
                assert!(s.start < s.end && s.end <= t.len(), "{:?} in {:?}", s, t);
            }
        }
    }
}

#[test]
fn plain_text_is_not_styled() {
    assert_eq!(live_preview_spans("Hello world.\nSecond line, no marks (really)!", 0), vec![]);
    assert_eq!(live_preview_spans("Hello world.\nSecond line", 1), vec![]);
}

#[test]
fn live_preview_spans_count_characters() {
    // "é" is one character of two bytes.
    let text = "é **b**";
    assert_eq!(
        live_preview_byte_spans(text, 1),
        vec![
            Span { start: 3, end: 5, style: SpanStyle::Hide },
            Span { start: 5, end: 6, style: SpanStyle::Bold },
            Span { start: 6, end: 8, style: SpanStyle::Hide },
        ]
    );
    assert_eq!(
        live_preview_spans(text, 1),
        vec![
            Span { start: 2, end: 4, style: SpanStyle::Hide },
            Span { start: 4, end: 5, style: SpanStyle::Bold },
            Span { start: 5, end: 7, style: SpanStyle::Hide },
        ]
    );
    // A heading after a three-byte character.
    assert_eq!(
        live_preview_spans("€
# T", 0),
        vec![
            Span { start: 2, end: 4, style: SpanStyle::Hide },
            Span { start: 4, end: 5, style: SpanStyle::Heading1 },
        ]
    );
}
