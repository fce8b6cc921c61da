use minimalmark::commands::{
    context_menu_entries, format_edit, hemingway_blocks, mode_panes, page_mode, shortcut_action,
    source_view_for_mode, window_command, Edit, EditKey, FormatAction, MenuEntry, Panes,
    ShortcutKey, ViewMode, WindowAction, WindowCommand,
};
use minimalmark::editing::{auto_pair_closing, focus_range, wrap_plan, EditorModes, PairKey, PreviewAction, WrapPlan};

#[test]
fn editor_modes_start_live() {
    let m = EditorModes::new();
    assert!(!m.source_view);
    assert!(m.live_preview);
    assert!(m.may_apply());
    assert!(m.reapplies_on_change());
}

#[test]
fn toggle_source_view_twice_restores() {
    let mut m = EditorModes::new();
    assert_eq!(m.toggle_source_view(), (true, PreviewAction::Remove));
    assert!(!m.reapplies_on_change());
    assert_eq!(m.toggle_source_view(), (false, PreviewAction::Apply));
    assert_eq!(m, EditorModes::new());
}

#[test]
fn set_source_view_is_idempotent() {
    let mut m = EditorModes::new();
    assert_eq!(m.set_source_view(true), PreviewAction::Remove);
    assert_eq!(m.set_source_view(true), PreviewAction::Nothing);
    assert_eq!(m.set_live_preview(true), PreviewAction::Nothing);
    assert_eq!(m.set_source_view(false), PreviewAction::Apply);
    assert_eq!(m.set_live_preview(false), PreviewAction::Remove);
    assert_eq!(m.set_source_view(true), PreviewAction::Remove);
    assert_eq!(m.set_source_view(false), PreviewAction::Nothing);
    assert_eq!(m.toggle_source_view(), (true, PreviewAction::Remove));
    assert_eq!(m.toggle_source_view(), (false, PreviewAction::Nothing));
}

#[test]
fn auto_pair() {
    assert_eq!(auto_pair_closing(PairKey::BracketLeft, None), Some(']'));
    assert_eq!(auto_pair_closing(PairKey::BraceLeft, Some('x')), Some('}'));
    assert_eq!(auto_pair_closing(PairKey::ParenLeft, Some('"')), Some(')'));
    assert_eq!(auto_pair_closing(PairKey::Quote, None), Some('"'));
    assert_eq!(auto_pair_closing(PairKey::Apostrophe, Some('a')), Some('\''));
    assert_eq!(auto_pair_closing(PairKey::Quote, Some('\'')), None);
    assert_eq!(auto_pair_closing(PairKey::Apostrophe, Some('"')), None);
}

#[test]
fn wrap_plans() {
    match wrap_plan("**", "**", Some((3, 7, "bold")), 0) {
        WrapPlan::Replace { start, end, text, select_end } => {
            assert_eq!((start, end, select_end), (3, 7, 9));
            assert_eq!(text, "**bold**");
        }
        other => panic!("unexpected {:?}", other),
    }
    match wrap_plan("![alt](", ")", None, 5) {
        WrapPlan::Insert { pos, after_pos } => assert_eq!((pos, after_pos), (5, 12)),
        other => panic!("unexpected {:?}", other),
    }
    // Byte lengths are added: "é" is two bytes.
    match wrap_plan("*", "*", Some((0, 1, "é")), 0) {
        WrapPlan::Replace { select_end, .. } => assert_eq!(select_end, 3),
        other => panic!("unexpected {:?}", other),
    }
}

fn wrap_of(a: FormatAction) -> (String, String) {
    match format_edit(a) {
        Edit::Wrap(b, c) => (b, c),
        other => panic!("not a wrap: {:?}", other),
    }
}

#[test]
fn format_edits() {
    assert_eq!(wrap_of(FormatAction::Bold), ("**".to_string(), "**".to_string()));
    assert_eq!(wrap_of(FormatAction::Link), ("[".to_string(), "](url)".to_string()));
    assert_eq!(wrap_of(FormatAction::CodeBlock), ("```\n".to_string(), "\n```".to_string()));
    match format_edit(FormatAction::Table) {
        Edit::Insert(t) => assert_eq!(t, "\n| Col 1 | Col 2 |\n|-------|-------|\n| Cell  | Cell  |\n"),
        other => panic!("{:?}", other),
    }
    match format_edit(FormatAction::TaskList) {
        Edit::PrefixLine(p) => assert_eq!(p, "- [ ] "),
        other => panic!("{:?}", other),
    }
    match format_edit(FormatAction::Heading3) {
        Edit::PrefixLine(p) => assert_eq!(p, "### "),
        other => panic!("{:?}", other),
    }
}

#[test]
fn context_menu_layout() {
    let menu = context_menu_entries();
    assert_eq!(menu.len(), 23);
    assert!(matches!(&menu[0], MenuEntry::Header(t) if t == "Format"));
    assert!(matches!(&menu[1], MenuEntry::Item(l, t, FormatAction::Bold) if l == "Bold  Ctrl+B" && t == "Bold"));
    assert!(matches!(&menu[5], MenuEntry::Separator));
    assert!(matches!(&menu[22], MenuEntry::Item(l, _, FormatAction::HorizontalRule) if l == "Horizontal Rule"));
    let headers: Vec<&str> = menu
        .iter()
        .filter_map(|e| match e {
            MenuEntry::Header(t) => Some(t.as_str()),
            _ => None,
        })
        .collect();
    assert_eq!(headers, vec!["Format", "Headings", "Lists", "Insert"]);
}

#[test]
fn shortcuts() {
    assert_eq!(shortcut_action(true, false, ShortcutKey::B), Some(WindowAction::Bold));
    assert_eq!(shortcut_action(true, true, ShortcutKey::K), Some(WindowAction::InlineCode));
    assert_eq!(shortcut_action(true, false, ShortcutKey::K), Some(WindowAction::Strikethrough));
    assert_eq!(shortcut_action(true, true, ShortcutKey::T), Some(WindowAction::Table));
    assert_eq!(shortcut_action(false, false, ShortcutKey::F11), Some(WindowAction::Fullscreen));
    assert_eq!(shortcut_action(false, true, ShortcutKey::F11), None);
    assert_eq!(shortcut_action(false, false, ShortcutKey::B), None);
    assert_eq!(shortcut_action(true, true, ShortcutKey::B), None);
    assert_eq!(shortcut_action(true, false, ShortcutKey::Other), None);
}

#[test]
fn window_commands() {
    assert_eq!(
        window_command(WindowAction::Bold, ViewMode::Live),
        WindowCommand::Format(FormatAction::Bold)
    );
    assert_eq!(
        window_command(WindowAction::ToggleSource, ViewMode::Source),
        WindowCommand::EnterMode(ViewMode::Preview)
    );
    assert_eq!(
        window_command(WindowAction::ToggleSource, ViewMode::Live),
        WindowCommand::EnterMode(ViewMode::Source)
    );
    assert_eq!(
        window_command(WindowAction::ToggleSource, ViewMode::Preview),
        WindowCommand::EnterMode(ViewMode::Source)
    );
    assert_eq!(window_command(WindowAction::Save, ViewMode::Live), WindowCommand::Save);
    assert_eq!(window_command(WindowAction::SaveAs, ViewMode::Live), WindowCommand::SaveAs);
    assert_eq!(window_command(WindowAction::Open, ViewMode::Preview), WindowCommand::Open);
    assert_eq!(window_command(WindowAction::New, ViewMode::Source), WindowCommand::New);
    assert_eq!(window_command(WindowAction::Find, ViewMode::Live), WindowCommand::Find);
    assert_eq!(window_command(WindowAction::Settings, ViewMode::Live), WindowCommand::Ignore);
    assert_eq!(
        window_command(WindowAction::Fullscreen, ViewMode::Live),
        WindowCommand::ToggleFullscreen
    );
}

#[test]
fn page_modes() {
    assert_eq!(page_mode("source"), ViewMode::Source);
    assert_eq!(page_mode("preview"), ViewMode::Preview);
    assert_eq!(page_mode(""), ViewMode::Live);
    assert_eq!(page_mode("sources"), ViewMode::Live);
    assert_eq!(source_view_for_mode(ViewMode::Source), Some(true));
    assert_eq!(source_view_for_mode(ViewMode::Live), Some(false));
    assert_eq!(source_view_for_mode(ViewMode::Preview), None);
    assert_eq!(page_mode("split"), ViewMode::Split);
    assert_eq!(page_mode("live"), ViewMode::Live);
    assert_eq!(source_view_for_mode(ViewMode::Split), None);
    assert_eq!(mode_panes(ViewMode::Source), Panes { editor: true, preview: false });
    assert_eq!(mode_panes(ViewMode::Live), Panes { editor: true, preview: false });
    assert_eq!(mode_panes(ViewMode::Split), Panes { editor: true, preview: true });
    assert_eq!(mode_panes(ViewMode::Preview), Panes { editor: false, preview: true });
}

#[test]
fn toggle_source_from_live_shows_raw_markdown() {
    let c = window_command(WindowAction::ToggleSource, ViewMode::Live);
    assert_eq!(c, WindowCommand::EnterMode(ViewMode::Source));
    assert_eq!(mode_panes(ViewMode::Source), Panes { editor: true, preview: false });
    assert_eq!(source_view_for_mode(ViewMode::Source), Some(true));
    assert_eq!(
        window_command(WindowAction::ToggleSource, ViewMode::Split),
        WindowCommand::EnterMode(ViewMode::Source)
    );
    assert_eq!(shortcut_action(true, false, ShortcutKey::Slash), Some(WindowAction::ToggleSource));
}

#[test]
fn hemingway_mode() {
    assert!(hemingway_blocks(true, EditKey::BackSpace));
    assert!(hemingway_blocks(true, EditKey::Delete));
    assert!(!hemingway_blocks(true, EditKey::Other));
    assert!(!hemingway_blocks(false, EditKey::BackSpace));
}

#[test]
fn readme_shortcuts() {
    let table = [
        (true, false, ShortcutKey::B, WindowAction::Bold),
        (true, false, ShortcutKey::I, WindowAction::Italic),
        (true, false, ShortcutKey::K, WindowAction::Strikethrough),
        (true, false, ShortcutKey::L, WindowAction::Link),
        (true, true, ShortcutKey::K, WindowAction::InlineCode),
        (true, true, ShortcutKey::I, WindowAction::Image),
        (true, true, ShortcutKey::T, WindowAction::Table),
        (true, false, ShortcutKey::S, WindowAction::Save),
        (true, false, ShortcutKey::O, WindowAction::Open),
        (false, false, ShortcutKey::F11, WindowAction::Fullscreen),
    ];
    for (ctrl, shift, key, action) in table {
        assert_eq!(shortcut_action(ctrl, shift, key), Some(action));
    }
    assert_eq!(window_command(WindowAction::Open, ViewMode::Live), WindowCommand::Open);
    assert_eq!(
        window_command(WindowAction::Italic, ViewMode::Live),
        WindowCommand::Format(FormatAction::Italic)
    );
    assert_eq!(
        window_command(WindowAction::InlineCode, ViewMode::Live),
        WindowCommand::Format(FormatAction::InlineCode)
    );
}

#[test]
fn focus_mode_shortcut() {
    assert_eq!(shortcut_action(true, true, ShortcutKey::F), Some(WindowAction::FocusMode));
    assert_eq!(shortcut_action(true, false, ShortcutKey::F), Some(WindowAction::Find));
    assert_eq!(
        window_command(WindowAction::FocusMode, ViewMode::Live),
        WindowCommand::ToggleFocusMode
    );
}

#[test]
fn focus_range_is_the_cursor_paragraph() {
    let text = "one\n\ntwo words\nmore\n\nthree";
    // "two words\nmore" spans characters 5 to 19.
    assert_eq!(focus_range(text, 7), (5, 19));
    assert_eq!(focus_range(text, 5), (5, 19));
    assert_eq!(focus_range(text, 19), (5, 19));
    assert_eq!(focus_range(text, 1), (0, 3));
    assert_eq!(focus_range(text, 100), (21, 26));
    assert_eq!(focus_range("", 0), (0, 0));
    // Characters, not bytes.
    assert_eq!(focus_range("é\n\nü ü", 4), (3, 6));
}
