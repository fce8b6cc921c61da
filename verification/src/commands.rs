//! Formatting commands and where they come from: the context menu, the
//! keyboard shortcuts and the window's view modes.

use vstd::prelude::*;
use vstd::string::StringExecFns;
use crate::text::chars_of;
use crate::outline::{hash_prefix, heading_level};

verus! {

/// A Markdown formatting command of the editor.
#[derive(Clone, Copy, Debug, PartialEq, Eq, Structural)]
pub enum FormatAction {
    Bold,
    Italic,
    Strikethrough,
    InlineCode,
    Link,
    Image,
    CodeBlock,
    Table,
    HorizontalRule,
    Heading1,
    Heading2,
    Heading3,
    BulletList,
    NumberedList,
    TaskList,
    Blockquote,
}

/// An edit of the text.
#[derive(Clone, Debug)]
pub enum Edit {
    /// Put `before` and `after` around the selection, or at the cursor.
    Wrap(String, String),
    /// Insert text at the cursor.
    Insert(String),
    /// Insert a prefix at the start of the cursor's line.
    PrefixLine(String),
}

/// The plain value of an `Edit`.
pub enum EditView {
    Wrap(Seq<char>, Seq<char>),
    Insert(Seq<char>),
    PrefixLine(Seq<char>),
}

impl DeepView for Edit {
    type V = EditView;

    open spec fn deep_view(&self) -> EditView {
        match self {
            Edit::Wrap(b, a) => EditView::Wrap(b@, a@),
            Edit::Insert(t) => EditView::Insert(t@),
            Edit::PrefixLine(p) => EditView::PrefixLine(p@),
        }
    }
}

/// The edit that each formatting command makes.
pub open spec fn edit_of(a: FormatAction) -> EditView {
    match a {
        FormatAction::Bold => EditView::Wrap("**"@, "**"@),
        FormatAction::Italic => EditView::Wrap("*"@, "*"@),
        FormatAction::Strikethrough => EditView::Wrap("~~"@, "~~"@),
        FormatAction::InlineCode => EditView::Wrap("`"@, "`"@),
        FormatAction::Link => EditView::Wrap("["@, "](url)"@),
        FormatAction::Image => EditView::Wrap("![alt]("@, ")"@),
        FormatAction::CodeBlock => EditView::Wrap("```\n"@, "\n```"@),
        FormatAction::Table => EditView::Insert(
            "\n| Col 1 | Col 2 |\n|-------|-------|\n| Cell  | Cell  |\n"@,
        ),
        FormatAction::HorizontalRule => EditView::Insert("\n---\n"@),
        FormatAction::Heading1 => EditView::PrefixLine("# "@),
        FormatAction::Heading2 => EditView::PrefixLine("## "@),
        FormatAction::Heading3 => EditView::PrefixLine("### "@),
        FormatAction::BulletList => EditView::PrefixLine("- "@),
        FormatAction::NumberedList => EditView::PrefixLine("1. "@),
        FormatAction::TaskList => EditView::PrefixLine("- [ ] "@),
        FormatAction::Blockquote => EditView::PrefixLine("> "@),
    }
}

/// The heading level that a formatting command sets: 1 to 3 for the
/// heading commands, 0 for every other command.
pub open spec fn heading_action_level(a: FormatAction) -> nat {
    match a {
        FormatAction::Heading1 => 1,
        FormatAction::Heading2 => 2,
        FormatAction::Heading3 => 3,
        _ => 0,
    }
}

/// `n` hash marks.
pub open spec fn hashes(n: nat) -> Seq<char> {
    Seq::new(n, |i: int| '#')
}

proof fn lemma_hash_prefix_of_hashes(n: nat, rest: Seq<char>)
    requires
        rest.len() > 0,
        rest[0] != '#',
    ensures
        hash_prefix(hashes(n) + rest) == n,
    decreases n,
{
    if n > 0 {
        assert((hashes(n) + rest).drop_first() =~= hashes((n - 1) as nat) + rest);
        assert((hashes(n) + rest)[0] == '#');
        lemma_hash_prefix_of_hashes((n - 1) as nat, rest);
    } else {
        assert(hashes(n) + rest =~= rest);
    }
}

/// The heading command of level `n` prefixes the line with exactly `n`
/// hash marks and one space, and no other command prefixes the line with
/// a hash mark. A line so prefixed, with any non-empty title, is a heading
/// of level `n` in the outline.
pub proof fn lemma_heading_edits(a: FormatAction, title: Seq<char>)
    ensures
        heading_action_level(a) > 0 ==> edit_of(a) == EditView::PrefixLine(
            hashes(heading_action_level(a)) + seq![' '],
        ),
        heading_action_level(a) == 0 ==> !(edit_of(a) matches EditView::PrefixLine(p) && p.len()
            > 0 && p[0] == '#'),
        heading_action_level(a) > 0 && title.len() > 0 ==> heading_level(
            hashes(heading_action_level(a)) + seq![' '] + title,
        ) == Some(heading_action_level(a)),
{
    reveal_strlit("# ");
    reveal_strlit("## ");
    reveal_strlit("### ");
    reveal_strlit("- ");
    reveal_strlit("1. ");
    reveal_strlit("- [ ] ");
    reveal_strlit("> ");
    let n = heading_action_level(a);
    if n > 0 {
        assert(edit_of(a) == EditView::PrefixLine(hashes(n) + seq![' '])) by {
            match a {
                FormatAction::Heading1 => {
                    assert("# "@ =~= hashes(1) + seq![' ']);
                },
                FormatAction::Heading2 => {
                    assert("## "@ =~= hashes(2) + seq![' ']);
                },
                FormatAction::Heading3 => {
                    assert("### "@ =~= hashes(3) + seq![' ']);
                },
                _ => {},
            }
        }
        if title.len() > 0 {
            let t = hashes(n) + seq![' '] + title;
            assert(t =~= hashes(n) + (seq![' '] + title));
            lemma_hash_prefix_of_hashes(n, seq![' '] + title);
            assert(t[n as int] == ' ');
        }
    }
}

fn wrap(before: &str, after: &str) -> (e: Edit)
    ensures
        e.deep_view() == EditView::Wrap(before@, after@),
{
    Edit::Wrap(String::from_str(before), String::from_str(after))
}

/// The edit that a formatting command makes.
pub fn format_edit(a: FormatAction) -> (e: Edit)
    ensures
        e.deep_view() == edit_of(a),
{
    match a {
        FormatAction::Bold => wrap("**", "**"),
        FormatAction::Italic => wrap("*", "*"),
        FormatAction::Strikethrough => wrap("~~", "~~"),
        FormatAction::InlineCode => wrap("`", "`"),
        FormatAction::Link => wrap("[", "](url)"),
        FormatAction::Image => wrap("![alt](", ")"),
        FormatAction::CodeBlock => wrap("```\n", "\n```"),
        FormatAction::Table => Edit::Insert(
            String::from_str("\n| Col 1 | Col 2 |\n|-------|-------|\n| Cell  | Cell  |\n"),
        ),
        FormatAction::HorizontalRule => Edit::Insert(String::from_str("\n---\n")),
        FormatAction::Heading1 => Edit::PrefixLine(String::from_str("# ")),
        FormatAction::Heading2 => Edit::PrefixLine(String::from_str("## ")),
        FormatAction::Heading3 => Edit::PrefixLine(String::from_str("### ")),
        FormatAction::BulletList => Edit::PrefixLine(String::from_str("- ")),
        FormatAction::NumberedList => Edit::PrefixLine(String::from_str("1. ")),
        FormatAction::TaskList => Edit::PrefixLine(String::from_str("- [ ] ")),
        FormatAction::Blockquote => Edit::PrefixLine(String::from_str("> ")),
    }
}

/// An entry of the editor's context menu.
#[derive(Clone, Debug)]
pub enum MenuEntry {
    /// A section title.
    Header(String),
    /// A button with its label and tooltip, and the command it runs.
    Item(String, String, FormatAction),
    /// A horizontal separator.
    Separator,
}

/// The plain value of a `MenuEntry`.
pub enum MenuEntryView {
    Header(Seq<char>),
    Item(Seq<char>, Seq<char>, FormatAction),
    Separator,
}

impl DeepView for MenuEntry {
    type V = MenuEntryView;

    open spec fn deep_view(&self) -> MenuEntryView {
        match self {
            MenuEntry::Header(t) => MenuEntryView::Header(t@),
            MenuEntry::Item(l, t, a) => MenuEntryView::Item(l@, t@, *a),
            MenuEntry::Separator => MenuEntryView::Separator,
        }
    }
}

/// The entries of the context menu, top to bottom: the Format, Headings,
/// Lists and Insert sections, separated by separators.
pub open spec fn context_menu_spec() -> Seq<MenuEntryView> {
    seq![
        MenuEntryView::Header("Format"@),
        MenuEntryView::Item("Bold  Ctrl+B"@, "Bold"@, FormatAction::Bold),
        MenuEntryView::Item("Italic  Ctrl+I"@, "Italic"@, FormatAction::Italic),
        MenuEntryView::Item("Strikethrough  Ctrl+Shift+X"@, "Strikethrough"@, FormatAction::Strikethrough),
        MenuEntryView::Item("Inline Code  Ctrl+Shift+C"@, "Inline Code"@, FormatAction::InlineCode),
        MenuEntryView::Separator,
        MenuEntryView::Header("Headings"@),
        MenuEntryView::Item("Heading 1  Ctrl+1"@, "Heading 1"@, FormatAction::Heading1),
        MenuEntryView::Item("Heading 2  Ctrl+2"@, "Heading 2"@, FormatAction::Heading2),
        MenuEntryView::Item("Heading 3  Ctrl+3"@, "Heading 3"@, FormatAction::Heading3),
        MenuEntryView::Separator,
        MenuEntryView::Header("Lists"@),
        MenuEntryView::Item("Bullet List  Ctrl+Shift+8"@, "Bullet List"@, FormatAction::BulletList),
        MenuEntryView::Item("Numbered List  Ctrl+Shift+7"@, "Numbered List"@, FormatAction::NumberedList),
        MenuEntryView::Item("Task List"@, "Task List"@, FormatAction::TaskList),
        MenuEntryView::Separator,
        MenuEntryView::Header("Insert"@),
        MenuEntryView::Item("Link  Ctrl+L"@, "Link"@, FormatAction::Link),
        MenuEntryView::Item("Image"@, "Image"@, FormatAction::Image),
        MenuEntryView::Item("Blockquote"@, "Blockquote"@, FormatAction::Blockquote),
        MenuEntryView::Item("Table"@, "Table"@, FormatAction::Table),
        MenuEntryView::Item("Code Block"@, "Code Block"@, FormatAction::CodeBlock),
        MenuEntryView::Item("Horizontal Rule"@, "Horizontal Rule"@, FormatAction::HorizontalRule),
    ]
}

/// The entries of the editor's context menu, top to bottom.
pub fn context_menu_entries() -> (menu: Vec<MenuEntry>)
    ensures
        menu.deep_view() == context_menu_spec(),
{
    let mut menu: Vec<MenuEntry> = Vec::new();
    menu.push(MenuEntry::Header(String::from_str("Format")));
    menu.push(MenuEntry::Item(String::from_str("Bold  Ctrl+B"), String::from_str("Bold"), FormatAction::Bold));
    menu.push(MenuEntry::Item(String::from_str("Italic  Ctrl+I"), String::from_str("Italic"), FormatAction::Italic));
    menu.push(MenuEntry::Item(String::from_str("Strikethrough  Ctrl+Shift+X"), String::from_str("Strikethrough"), FormatAction::Strikethrough));
    menu.push(MenuEntry::Item(String::from_str("Inline Code  Ctrl+Shift+C"), String::from_str("Inline Code"), FormatAction::InlineCode));
    menu.push(MenuEntry::Separator);
    menu.push(MenuEntry::Header(String::from_str("Headings")));
    menu.push(MenuEntry::Item(String::from_str("Heading 1  Ctrl+1"), String::from_str("Heading 1"), FormatAction::Heading1));
    menu.push(MenuEntry::Item(String::from_str("Heading 2  Ctrl+2"), String::from_str("Heading 2"), FormatAction::Heading2));
    menu.push(MenuEntry::Item(String::from_str("Heading 3  Ctrl+3"), String::from_str("Heading 3"), FormatAction::Heading3));
    menu.push(MenuEntry::Separator);
    menu.push(MenuEntry::Header(String::from_str("Lists")));
    menu.push(MenuEntry::Item(String::from_str("Bullet List  Ctrl+Shift+8"), String::from_str("Bullet List"), FormatAction::BulletList));
    menu.push(MenuEntry::Item(String::from_str("Numbered List  Ctrl+Shift+7"), String::from_str("Numbered List"), FormatAction::NumberedList));
    menu.push(MenuEntry::Item(String::from_str("Task List"), String::from_str("Task List"), FormatAction::TaskList));
    menu.push(MenuEntry::Separator);
    menu.push(MenuEntry::Header(String::from_str("Insert")));
    menu.push(MenuEntry::Item(String::from_str("Link  Ctrl+L"), String::from_str("Link"), FormatAction::Link));
    menu.push(MenuEntry::Item(String::from_str("Image"), String::from_str("Image"), FormatAction::Image));
    menu.push(MenuEntry::Item(String::from_str("Blockquote"), String::from_str("Blockquote"), FormatAction::Blockquote));
    menu.push(MenuEntry::Item(String::from_str("Table"), String::from_str("Table"), FormatAction::Table));
    menu.push(MenuEntry::Item(String::from_str("Code Block"), String::from_str("Code Block"), FormatAction::CodeBlock));
    menu.push(MenuEntry::Item(String::from_str("Horizontal Rule"), String::from_str("Horizontal Rule"), FormatAction::HorizontalRule));
    assert(menu.deep_view() =~= context_menu_spec());
    menu
}

/// The keys that keyboard shortcuts use.
#[derive(Clone, Copy, Debug, PartialEq, Eq, Structural)]
pub enum ShortcutKey {
    B,
    I,
    K,
    L,
    T,
    S,
    O,
    N,
    F,
    F11,
    /// `/`
    Slash,
    Other,
}

/// The actions of the main window.
#[derive(Clone, Copy, Debug, PartialEq, Eq, Structural)]
pub enum WindowAction {
    Bold,
    Italic,
    Strikethrough,
    Link,
    InlineCode,
    Image,
    Table,
    Heading1,
    Heading2,
    Heading3,
    BulletList,
    NumberedList,
    Blockquote,
    ToggleSource,
    FocusMode,
    TypewriterMode,
    CommandPalette,
    Settings,
    Save,
    SaveAs,
    Open,
    New,
    Find,
    Fullscreen,
}

/// The keyboard shortcuts: Ctrl+B bold, Ctrl+I italic, Ctrl+K
/// strike-through, Ctrl+L link, Ctrl+Shift+K inline code, Ctrl+Shift+I
/// image, Ctrl+Shift+T table, Ctrl+S save, Ctrl+Shift+S save as, Ctrl+O
/// open, Ctrl+N new, Ctrl+F find, Ctrl+Shift+F focus mode, Ctrl+/ source
/// view, F11 and Ctrl+F11 fullscreen.
pub open spec fn shortcut_of(ctrl: bool, shift: bool, key: ShortcutKey) -> Option<WindowAction> {
    match (ctrl, shift, key) {
        (true, false, ShortcutKey::B) => Some(WindowAction::Bold),
        (true, false, ShortcutKey::I) => Some(WindowAction::Italic),
        (true, false, ShortcutKey::K) => Some(WindowAction::Strikethrough),
        (true, false, ShortcutKey::L) => Some(WindowAction::Link),
        (true, true, ShortcutKey::K) => Some(WindowAction::InlineCode),
        (true, true, ShortcutKey::I) => Some(WindowAction::Image),
        (true, true, ShortcutKey::T) => Some(WindowAction::Table),
        (true, false, ShortcutKey::S) => Some(WindowAction::Save),
        (true, true, ShortcutKey::S) => Some(WindowAction::SaveAs),
        (true, false, ShortcutKey::O) => Some(WindowAction::Open),
        (true, false, ShortcutKey::N) => Some(WindowAction::New),
        (true, false, ShortcutKey::F) => Some(WindowAction::Find),
        (true, true, ShortcutKey::F) => Some(WindowAction::FocusMode),
        (true, false, ShortcutKey::Slash) => Some(WindowAction::ToggleSource),
        (true, false, ShortcutKey::F11) => Some(WindowAction::Fullscreen),
        (false, false, ShortcutKey::F11) => Some(WindowAction::Fullscreen),
        _ => None,
    }
}

/// The action of a key press with the given modifiers, if it is a shortcut.
pub fn shortcut_action(ctrl: bool, shift: bool, key: ShortcutKey) -> (r: Option<WindowAction>)
    ensures
        r == shortcut_of(ctrl, shift, key),
{
    match (ctrl, shift, key) {
        (true, false, ShortcutKey::B) => Some(WindowAction::Bold),
        (true, false, ShortcutKey::I) => Some(WindowAction::Italic),
        (true, false, ShortcutKey::K) => Some(WindowAction::Strikethrough),
        (true, false, ShortcutKey::L) => Some(WindowAction::Link),
        (true, true, ShortcutKey::K) => Some(WindowAction::InlineCode),
        (true, true, ShortcutKey::I) => Some(WindowAction::Image),
        (true, true, ShortcutKey::T) => Some(WindowAction::Table),
        (true, false, ShortcutKey::S) => Some(WindowAction::Save),
        (true, true, ShortcutKey::S) => Some(WindowAction::SaveAs),
        (true, false, ShortcutKey::O) => Some(WindowAction::Open),
        (true, false, ShortcutKey::N) => Some(WindowAction::New),
        (true, false, ShortcutKey::F) => Some(WindowAction::Find),
        (true, true, ShortcutKey::F) => Some(WindowAction::FocusMode),
        (true, false, ShortcutKey::Slash) => Some(WindowAction::ToggleSource),
        (true, false, ShortcutKey::F11) => Some(WindowAction::Fullscreen),
        (false, false, ShortcutKey::F11) => Some(WindowAction::Fullscreen),
        _ => None,
    }
}

/// The view modes of the main window.
#[derive(Clone, Copy, Debug, PartialEq, Eq, Structural)]
pub enum ViewMode {
    /// Raw Markdown.
    Source,
    /// Markdown with inline rendering.
    Live,
    /// The editor and the rendered preview side by side.
    Split,
    /// The rendered preview.
    Preview,
}

/// Which panes of the window a view mode shows.
#[derive(Clone, Copy, Debug, PartialEq, Eq, Structural)]
pub struct Panes {
    /// The editor is shown.
    pub editor: bool,
    /// The rendered preview is shown.
    pub preview: bool,
}

/// What the window does for an action.
#[derive(Clone, Copy, Debug, PartialEq, Eq, Structural)]
pub enum WindowCommand {
    /// Run a formatting command in the editor.
    Format(FormatAction),
    /// Enter a view mode: show its panes and set the editor's source view
    /// as `source_view_for_mode` says.
    EnterMode(ViewMode),
    /// Turn focus mode on or off.
    ToggleFocusMode,
    /// Save to the current file, or ask for one.
    Save,
    /// Ask for a file and save to it.
    SaveAs,
    /// Ask for a file and load it into the editor.
    Open,
    /// Start a new, empty document with no file.
    New,
    /// Show the search bar.
    Find,
    /// Enter or leave fullscreen.
    ToggleFullscreen,
    /// Nothing.
    Ignore,
}

/// The panes that show a view mode: the editor alone for the source and
/// live views, both for the split view, the preview alone for the preview.
pub open spec fn panes_of(m: ViewMode) -> Panes {
    match m {
        ViewMode::Source | ViewMode::Live => Panes { editor: true, preview: false },
        ViewMode::Split => Panes { editor: true, preview: true },
        ViewMode::Preview => Panes { editor: false, preview: true },
    }
}

/// The panes that show view mode `m`.
pub fn mode_panes(m: ViewMode) -> (p: Panes)
    ensures
        p == panes_of(m),
{
    match m {
        ViewMode::Source | ViewMode::Live => Panes { editor: true, preview: false },
        ViewMode::Split => Panes { editor: true, preview: true },
        ViewMode::Preview => Panes { editor: false, preview: true },
    }
}

/// The view mode that toggling the source view leads to: the source view
/// goes to the preview, and every other view goes to the raw Markdown of
/// the source view.
pub open spec fn toggled_mode(m: ViewMode) -> ViewMode {
    match m {
        ViewMode::Source => ViewMode::Preview,
        _ => ViewMode::Source,
    }
}

/// The command of an action when the window is in view mode `mode`.
/// Toggling the source view enters `toggled_mode(mode)`; typewriter mode,
/// the command palette and settings do nothing here.
pub open spec fn command_of(a: WindowAction, mode: ViewMode) -> WindowCommand {
    match a {
        WindowAction::Bold => WindowCommand::Format(FormatAction::Bold),
        WindowAction::Italic => WindowCommand::Format(FormatAction::Italic),
        WindowAction::Strikethrough => WindowCommand::Format(FormatAction::Strikethrough),
        WindowAction::Link => WindowCommand::Format(FormatAction::Link),
        WindowAction::InlineCode => WindowCommand::Format(FormatAction::InlineCode),
        WindowAction::Image => WindowCommand::Format(FormatAction::Image),
        WindowAction::Table => WindowCommand::Format(FormatAction::Table),
        WindowAction::Heading1 => WindowCommand::Format(FormatAction::Heading1),
        WindowAction::Heading2 => WindowCommand::Format(FormatAction::Heading2),
        WindowAction::Heading3 => WindowCommand::Format(FormatAction::Heading3),
        WindowAction::BulletList => WindowCommand::Format(FormatAction::BulletList),
        WindowAction::NumberedList => WindowCommand::Format(FormatAction::NumberedList),
        WindowAction::Blockquote => WindowCommand::Format(FormatAction::Blockquote),
        WindowAction::ToggleSource => WindowCommand::EnterMode(toggled_mode(mode)),
        WindowAction::FocusMode => WindowCommand::ToggleFocusMode,
        WindowAction::Save => WindowCommand::Save,
        WindowAction::SaveAs => WindowCommand::SaveAs,
        WindowAction::Open => WindowCommand::Open,
        WindowAction::New => WindowCommand::New,
        WindowAction::Find => WindowCommand::Find,
        WindowAction::Fullscreen => WindowCommand::ToggleFullscreen,
        _ => WindowCommand::Ignore,
    }
}

/// The command that the window runs for an action.
pub fn window_command(a: WindowAction, mode: ViewMode) -> (c: WindowCommand)
    ensures
        c == command_of(a, mode),
{
    match a {
        WindowAction::Bold => WindowCommand::Format(FormatAction::Bold),
        WindowAction::Italic => WindowCommand::Format(FormatAction::Italic),
        WindowAction::Strikethrough => WindowCommand::Format(FormatAction::Strikethrough),
        WindowAction::Link => WindowCommand::Format(FormatAction::Link),
        WindowAction::InlineCode => WindowCommand::Format(FormatAction::InlineCode),
        WindowAction::Image => WindowCommand::Format(FormatAction::Image),
        WindowAction::Table => WindowCommand::Format(FormatAction::Table),
        WindowAction::Heading1 => WindowCommand::Format(FormatAction::Heading1),
        WindowAction::Heading2 => WindowCommand::Format(FormatAction::Heading2),
        WindowAction::Heading3 => WindowCommand::Format(FormatAction::Heading3),
        WindowAction::BulletList => WindowCommand::Format(FormatAction::BulletList),
        WindowAction::NumberedList => WindowCommand::Format(FormatAction::NumberedList),
        WindowAction::Blockquote => WindowCommand::Format(FormatAction::Blockquote),
        WindowAction::ToggleSource => WindowCommand::EnterMode(
            match mode {
                ViewMode::Source => ViewMode::Preview,
                _ => ViewMode::Source,
            },
        ),
        WindowAction::FocusMode => WindowCommand::ToggleFocusMode,
        WindowAction::Save => WindowCommand::Save,
        WindowAction::SaveAs => WindowCommand::SaveAs,
        WindowAction::Open => WindowCommand::Open,
        WindowAction::New => WindowCommand::New,
        WindowAction::Find => WindowCommand::Find,
        WindowAction::Fullscreen => WindowCommand::ToggleFullscreen,
        _ => WindowCommand::Ignore,
    }
}

/// Toggling the source view from the live, split or preview view shows
/// the raw Markdown: the editor alone with source view on; from the source
/// view it shows the preview. Two toggles from the source view come back
/// to it.
pub proof fn lemma_toggle_source_shows_raw(mode: ViewMode)
    ensures
        mode != ViewMode::Source ==> command_of(WindowAction::ToggleSource, mode)
            == WindowCommand::EnterMode(ViewMode::Source),
        mode != ViewMode::Source ==> panes_of(ViewMode::Source) == (Panes {
            editor: true,
            preview: false,
        }) && source_view_of(ViewMode::Source) == Some(true),
        mode == ViewMode::Source ==> command_of(WindowAction::ToggleSource, mode)
            == WindowCommand::EnterMode(ViewMode::Preview),
        toggled_mode(toggled_mode(ViewMode::Source)) == ViewMode::Source,
{
}

/// The characters of the page name `source`.
pub open spec fn source_page_name() -> Seq<char> {
    seq!['s', 'o', 'u', 'r', 'c', 'e']
}

/// The characters of the page name `preview`.
pub open spec fn preview_page_name() -> Seq<char> {
    seq!['p', 'r', 'e', 'v', 'i', 'e', 'w']
}

/// The characters of the page name `split`.
pub open spec fn split_page_name() -> Seq<char> {
    seq!['s', 'p', 'l', 'i', 't']
}

/// The view mode for the name of a page of the view switcher: `source`
/// gives the source view, `preview` the preview, `split` the split view,
/// and any other name the live view.
pub open spec fn mode_of_page(name: Seq<char>) -> ViewMode {
    if name == source_page_name() {
        ViewMode::Source
    } else if name == preview_page_name() {
        ViewMode::Preview
    } else if name == split_page_name() {
        ViewMode::Split
    } else {
        ViewMode::Live
    }
}

fn chars_equal(v: &Vec<char>, w: &Vec<char>) -> (r: bool)
    ensures
        r == (v@ == w@),
{
    if v.len() != w.len() {
        return false;
    }
    let mut i: usize = 0;
    while i < v.len()
        invariant
            v@.len() == w@.len(),
            i <= v@.len(),
            forall|j: int| 0 <= j < i ==> v@[j] == w@[j],
        decreases v@.len() - i,
    {
        if v[i] != w[i] {
            return false;
        }
        i = i + 1;
    }
    assert(v@ =~= w@);
    true
}

/// The view mode that the window enters when the page named `name` shows.
pub fn page_mode(name: &str) -> (m: ViewMode)
    ensures
        m == mode_of_page(name@),
{
    let v = chars_of(name);
    let mut src: Vec<char> = Vec::new();
    src.push('s');
    src.push('o');
    src.push('u');
    src.push('r');
    src.push('c');
    src.push('e');
    assert(src@ =~= source_page_name());
    if chars_equal(&v, &src) {
        return ViewMode::Source;
    }
    let mut pre: Vec<char> = Vec::new();
    pre.push('p');
    pre.push('r');
    pre.push('e');
    pre.push('v');
    pre.push('i');
    pre.push('e');
    pre.push('w');
    assert(pre@ =~= preview_page_name());
    if chars_equal(&v, &pre) {
        return ViewMode::Preview;
    }
    let mut spl: Vec<char> = Vec::new();
    spl.push('s');
    spl.push('p');
    spl.push('l');
    spl.push('i');
    spl.push('t');
    assert(spl@ =~= split_page_name());
    if chars_equal(&v, &spl) {
        return ViewMode::Split;
    }
    ViewMode::Live
}

/// What entering a view mode asks of the editor: the source view turns
/// source view on, the live view turns it off, the split view and the
/// preview leave it.
pub open spec fn source_view_of(m: ViewMode) -> Option<bool> {
    match m {
        ViewMode::Source => Some(true),
        ViewMode::Live => Some(false),
        ViewMode::Split | ViewMode::Preview => None,
    }
}

/// What entering view mode `m` asks of the editor's source view.
pub fn source_view_for_mode(m: ViewMode) -> (r: Option<bool>)
    ensures
        r == source_view_of(m),
{
    match m {
        ViewMode::Source => Some(true),
        ViewMode::Live => Some(false),
        ViewMode::Split | ViewMode::Preview => None,
    }
}

/// The editing keys that Hemingway mode intercepts.
#[derive(Clone, Copy, Debug, PartialEq, Eq, Structural)]
pub enum EditKey {
    BackSpace,
    Delete,
    Other,
}

/// Whether a key press is swallowed: in Hemingway mode, backspace and
/// delete are.
pub fn hemingway_blocks(hemingway: bool, key: EditKey) -> (b: bool)
    ensures
        b == (hemingway && (key == EditKey::BackSpace || key == EditKey::Delete)),
{
    hemingway && (key == EditKey::BackSpace || key == EditKey::Delete)
}

} // verus!
