use minimalmark::markdown::{
    extract_headings, headings_from_events, math_html, names_mermaid, render_markdown,
    rewrite_events, MdEvent,
};
use minimalmark::preview::{preview_document, preview_for, window_title, KATEX_CDN, MARKDOWN_CSS, MERMAID_CDN};
use minimalmark::settings::{
    font_choices, font_css, font_index, theme_from_index, theme_index, AppSettings, ThemeMode,
};

#[test]
fn render_plain_markdown() {
    let r = render_markdown("Hello *world*");
    assert_eq!(r.html, "<p>Hello <em>world</em></p>\n");
    assert!(!r.has_math);
    assert!(!r.has_mermaid);
}

#[test]
fn render_uses_gfm_extensions() {
    let r = render_markdown("~~gone~~");
    assert_eq!(r.html, "<p><del>gone</del></p>\n");
    let t = render_markdown("| a | b |\n|---|---|\n| 1 | 2 |\n");
    assert!(t.html.contains("<table>"));
}

#[test]
fn render_inline_math() {
    let r = render_markdown("Area `$x^2$` here");
    assert_eq!(r.html, "<p>Area <span class=\"katex-inline\">x^2</span> here</p>\n");
    assert!(r.has_math);
    assert!(!r.has_mermaid);
}

#[test]
fn render_display_math() {
    let r = render_markdown("`$$E=mc^2$$`");
    assert_eq!(r.html, "<p><div class=\"katex-display\">E=mc^2</div></p>\n");
    assert!(r.has_math);
}

#[test]
fn render_detects_mermaid() {
    let r = render_markdown("```mermaid\ngraph TD;\n```\n");
    assert!(r.has_mermaid);
    assert!(!r.has_math);
    assert!(r.html.contains("graph TD;"));
    assert!(!render_markdown("```rust\nfn main() {}\n```\n").has_mermaid);
}

#[test]
fn math_html_cases() {
    assert_eq!(math_html("x"), None);
    assert_eq!(math_html(""), None);
    assert_eq!(math_html("$"), Some("<span class=\"katex-inline\"></span>".to_string()));
    assert_eq!(math_html("$$"), Some("<div class=\"katex-display\"></div>".to_string()));
    assert_eq!(math_html("$a$"), Some("<span class=\"katex-inline\">a</span>".to_string()));
    assert_eq!(math_html("$$$a$$$"), Some("<div class=\"katex-display\">$a$</div>".to_string()));
    assert_eq!(math_html("$a"), None);
}

#[test]
fn mermaid_names() {
    assert!(names_mermaid("mermaid"));
    assert!(names_mermaid("{.mermaid}"));
    assert!(!names_mermaid("merma"));
    assert!(!names_mermaid("js"));
}

#[test]
fn rewrite_events_replaces_math_code_only() {
    let events = vec![
        MdEvent::Text("$a$".to_string()),
        MdEvent::Code("$a$".to_string()),
        MdEvent::Code("plain".to_string()),
        MdEvent::FencedCodeStart("mermaid".to_string()),
        MdEvent::Other,
    ];
    let (reps, math, mermaid) = rewrite_events(&events);
    assert_eq!(
        reps,
        vec![None, Some("<span class=\"katex-inline\">a</span>".to_string()), None, None, None]
    );
    assert!(math);
    assert!(mermaid);
    let (reps, math, mermaid) = rewrite_events(&vec![]);
    assert!(reps.is_empty() && !math && !mermaid);
}

#[test]
fn headings_from_events_pairs_start_and_text() {
    let events = vec![
        MdEvent::HeadingStart(1),
        MdEvent::Text("One".to_string()),
        MdEvent::Other,
        MdEvent::HeadingStart(2),
        MdEvent::Other,
        MdEvent::Text("not a title".to_string()),
        MdEvent::HeadingStart(3),
    ];
    assert_eq!(headings_from_events(&events), vec![(1, "One".to_string())]);
}

#[test]
fn extract_headings_from_text() {
    assert_eq!(
        extract_headings("# One\n## Two\ntext\n### *Em*\n"),
        vec![(1, "One".to_string()), (2, "Two".to_string())]
    );
    assert_eq!(extract_headings("no headings"), vec![]);
}

#[test]
fn preview_document_assembly() {
    let plain = preview_document("<p>x</p>", false, false);
    let expected = format!(
        "<!DOCTYPE html><html><head><meta charset='utf-8'>{}</head><body><p>x</p></body></html>",
        MARKDOWN_CSS
    );
    assert_eq!(plain, expected);
    let both = preview_document("b", true, true);
    assert_eq!(
        both,
        format!(
            "<!DOCTYPE html><html><head><meta charset='utf-8'>{}{}{}</head><body>b</body></html>",
            MARKDOWN_CSS, KATEX_CDN, MERMAID_CDN
        )
    );
    let doc = preview_for("`$x$`");
    assert!(doc.contains(KATEX_CDN));
    assert!(!doc.contains(MERMAID_CDN));
    assert!(doc.contains("<span class=\"katex-inline\">x</span>"));
}

#[test]
fn window_titles() {
    assert_eq!(window_title(Some("notes.md")), "MinimalMark - notes.md");
    assert_eq!(window_title(None), "MinimalMark");
}

#[test]
fn default_settings() {
    let s = AppSettings::default();
    assert_eq!(s.theme, ThemeMode::System);
    assert_eq!(s.editor_font, "SF Mono, JetBrains Mono, Fira Code, monospace");
    assert_eq!(s.editor_font_size, 14);
    assert!(s.auto_save);
    assert_eq!(s.auto_save_interval, 30);
    assert!(s.spell_check && s.word_wrap && s.sync_scrolling && s.live_preview && s.auto_pair);
    assert!(!s.show_line_numbers && !s.focus_mode && !s.is_maximized);
    assert!(!s.typewriter_mode && !s.hemingway_mode);
    assert!(s.recent_files.is_empty());
    assert_eq!((s.window_width, s.window_height), (1280, 800));
}

#[test]
fn recent_files_move_to_front_without_duplicates() {
    let mut s = AppSettings::default();
    s.add_recent_file("a.md");
    s.add_recent_file("b.md");
    s.add_recent_file("a.md");
    assert_eq!(s.recent_files, vec!["a.md".to_string(), "b.md".to_string()]);
    s.add_recent_file("a.md");
    assert_eq!(s.recent_files, vec!["a.md".to_string(), "b.md".to_string()]);
}

#[test]
fn recent_files_keep_ten() {
    let mut s = AppSettings::default();
    for i in 0..12 {
        s.add_recent_file(&format!("f{}.md", i));
    }
    assert_eq!(s.recent_files.len(), 10);
    assert_eq!(s.recent_files[0], "f11.md");
    assert_eq!(s.recent_files[9], "f2.md");
    s.add_recent_file("f5.md");
    assert_eq!(s.recent_files.len(), 10);
    assert_eq!(s.recent_files[0], "f5.md");
    assert_eq!(s.recent_files.iter().filter(|p| *p == "f5.md").count(), 1);
    assert_eq!(s.editor_font_size, 14);
}

#[test]
fn theme_index_round_trip() {
    for t in [ThemeMode::System, ThemeMode::Light, ThemeMode::Dark] {
        assert_eq!(theme_from_index(theme_index(t)), t);
    }
    assert_eq!(theme_index(ThemeMode::Dark), 2);
    assert_eq!(theme_from_index(7), ThemeMode::System);
}

#[test]
fn font_choices_dedup_limit_and_fallback() {
    let fams: Vec<String> =
        ["Fira Code", "", "Fira Code", "Hack"].iter().map(|s| s.to_string()).collect();
    assert_eq!(font_choices(&fams), vec!["Fira Code".to_string(), "Hack".to_string()]);
    assert_eq!(font_choices(&vec![]), vec!["monospace".to_string()]);
    assert_eq!(font_choices(&vec![String::new()]), vec!["monospace".to_string()]);
    let many: Vec<String> = (0..60).map(|i| format!("Font {}", i)).collect();
    let got = font_choices(&many);
    assert_eq!(got.len(), 50);
    assert_eq!(got[49], "Font 49");
}

#[test]
fn font_index_finds_first_match() {
    let fonts: Vec<String> = ["A", "B", "B"].iter().map(|s| s.to_string()).collect();
    assert_eq!(font_index(&fonts, "B"), 1);
    assert_eq!(font_index(&fonts, "Z"), 0);
}

#[test]
fn font_css_text() {
    assert_eq!(
        font_css("Fira Code", 14),
        "textview { font-family: 'Fira Code'; font-size: 14px; }"
    );
}

#[test]
fn font_css_fallback_list() {
    assert_eq!(
        font_css("SF Mono, JetBrains Mono, Fira Code, monospace", 14),
        "textview { font-family: 'SF Mono', 'JetBrains Mono', 'Fira Code', monospace; font-size: 14px; }"
    );
}

#[test]
fn font_css_blank_items_and_generics() {
    assert_eq!(
        font_css(" serif ,, Noto Sans ,sans-serif", 12),
        "textview { font-family: serif, 'Noto Sans', sans-serif; font-size: 12px; }"
    );
    assert_eq!(
        font_css("  ,  ", 10),
        "textview { font-family: monospace; font-size: 10px; }"
    );
}
