//! Editor decisions: the source-view and live-preview modes and what they
//! do to the preview tags, auto-pairing of brackets and quotes, and the
//! Markdown formatting commands of the toolbar, context menu and shortcuts.

use vstd::prelude::*;
use vstd::string::StringExecFns;
use vstd::string::StringSliceAdditionalSpecFns;
use crate::text::chars_of;

verus! {

/// What the editor does to its live-preview tags.
#[derive(Clone, Copy, Debug, PartialEq, Eq, Structural)]
pub enum PreviewAction {
    /// Recompute and apply the live-preview tags.
    Apply,
    /// Remove every live-preview tag.
    Remove,
    /// Leave the tags as they are.
    Nothing,
}

/// The display modes of the editor.
#[derive(Clone, Copy, Debug, PartialEq, Eq, Structural)]
pub struct EditorModes {
    /// The raw Markdown is shown without live-preview tags.
    pub source_view: bool,
    /// Live preview (inline rendering) is enabled.
    pub live_preview: bool,
}

impl EditorModes {
    /// Whether the live preview is re-applied after a change of the text or
    /// the cursor.
    pub open spec fn reapplies_spec(self) -> bool {
        self.live_preview && !self.source_view
    }

    /// A new editor starts out of source view with live preview enabled.
    pub fn new() -> (m: Self)
        ensures
            !m.source_view,
            m.live_preview,
    {
        EditorModes { source_view: false, live_preview: true }
    }

    /// Whether the live preview may be applied: never in source view.
    pub fn may_apply(&self) -> (b: bool)
        ensures
            b == !self.source_view,
    {
        !self.source_view
    }

    /// Whether a change of the text or of the cursor re-applies the live
    /// preview: when it is enabled and the editor is not in source view.
    pub fn reapplies_on_change(&self) -> (b: bool)
        ensures
            b == self.reapplies_spec(),
    {
        self.live_preview && !self.source_view
    }

    /// Enables or disables live preview. Enabling applies the tags unless
    /// the editor is in source view; disabling removes them.
    pub fn set_live_preview(&mut self, enabled: bool) -> (a: PreviewAction)
        ensures
            *final(self) == with_live_preview(*old(self), enabled),
            a == live_preview_action(*old(self), enabled),
    {
        self.live_preview = enabled;
        if enabled {
            if self.source_view { PreviewAction::Nothing } else { PreviewAction::Apply }
        } else {
            PreviewAction::Remove
        }
    }

    /// Switches source view on or off and returns the new state. Entering
    /// source view removes the tags; leaving it applies them if live preview
    /// is enabled.
    pub fn toggle_source_view(&mut self) -> (r: (bool, PreviewAction))
        ensures
            *final(self) == toggled(*old(self)),
            r.0 == final(self).source_view,
            r.1 == toggle_action(*old(self)),
    {
        let new_state = !self.source_view;
        self.source_view = new_state;
        let action = if new_state {
            PreviewAction::Remove
        } else if self.live_preview {
            PreviewAction::Apply
        } else {
            PreviewAction::Nothing
        };
        (new_state, action)
    }

    /// Sets source view. Nothing happens when it already has that state;
    /// otherwise it acts as `toggle_source_view`.
    pub fn set_source_view(&mut self, enabled: bool) -> (a: PreviewAction)
        ensures
            *final(self) == with_source_view(*old(self), enabled),
            a == source_view_action(*old(self), enabled),
    {
        if enabled == self.source_view {
            return PreviewAction::Nothing;
        }
        self.source_view = enabled;
        if enabled {
            PreviewAction::Remove
        } else if self.live_preview {
            PreviewAction::Apply
        } else {
            PreviewAction::Nothing
        }
    }
}

/// The modes after live preview is set to `enabled`.
pub open spec fn with_live_preview(m: EditorModes, enabled: bool) -> EditorModes {
    EditorModes { live_preview: enabled, ..m }
}

/// What setting live preview to `enabled` does to the tags.
pub open spec fn live_preview_action(m: EditorModes, enabled: bool) -> PreviewAction {
    if !enabled {
        PreviewAction::Remove
    } else if m.source_view {
        PreviewAction::Nothing
    } else {
        PreviewAction::Apply
    }
}

/// The modes after source view is toggled.
pub open spec fn toggled(m: EditorModes) -> EditorModes {
    EditorModes { source_view: !m.source_view, ..m }
}

/// What toggling source view does to the tags.
pub open spec fn toggle_action(m: EditorModes) -> PreviewAction {
    if !m.source_view {
        PreviewAction::Remove
    } else if m.live_preview {
        PreviewAction::Apply
    } else {
        PreviewAction::Nothing
    }
}

/// The modes after source view is set to `enabled`.
pub open spec fn with_source_view(m: EditorModes, enabled: bool) -> EditorModes {
    EditorModes { source_view: enabled, ..m }
}

/// What setting source view to `enabled` does to the tags.
pub open spec fn source_view_action(m: EditorModes, enabled: bool) -> PreviewAction {
    if enabled == m.source_view {
        PreviewAction::Nothing
    } else {
        toggle_action(m)
    }
}

/// Toggling source view twice gives back the modes one started from, and
/// the second toggle undoes the first: one removes the tags, the other
/// applies them if live preview is on.
pub proof fn lemma_toggle_twice(m: EditorModes)
    ensures
        toggled(toggled(m)) == m,
        toggle_action(m) == PreviewAction::Remove || toggle_action(toggled(m))
            == PreviewAction::Remove,
{
}

/// Setting source view twice to the same value is the same as setting it
/// once, and the second time does nothing to the tags.
pub proof fn lemma_set_source_view_idempotent(m: EditorModes, enabled: bool)
    ensures
        with_source_view(with_source_view(m, enabled), enabled) == with_source_view(m, enabled),
        source_view_action(with_source_view(m, enabled), enabled) == PreviewAction::Nothing,
{
}

/// Toggling source view is setting it to the other value.
pub proof fn lemma_toggle_is_set(m: EditorModes)
    ensures
        toggled(m) == with_source_view(m, !m.source_view),
        toggle_action(m) == source_view_action(m, !m.source_view),
{
}

/// In source view the live-preview tags are never applied: neither by
/// entering source view nor by enabling live preview while in it.
pub proof fn lemma_source_view_never_applies(m: EditorModes, enabled: bool)
    ensures
        source_view_action(m, true) != PreviewAction::Apply,
        m.source_view ==> live_preview_action(m, enabled) != PreviewAction::Apply,
        with_source_view(m, true).source_view ==> !with_source_view(m, true).reapplies_spec(),
{
}

/// The key presses that auto-pairing reacts to.
#[derive(Clone, Copy, Debug, PartialEq, Eq, Structural)]
pub enum PairKey {
    /// `[`
    BracketLeft,
    /// `{`
    BraceLeft,
    /// `(`
    ParenLeft,
    /// `'`
    Apostrophe,
    /// `"`
    Quote,
}

/// The character that auto-pairing inserts after the cursor for a key,
/// given the character right after the cursor (`None` at the end of the
/// text). A quote is not paired when a quote of either kind follows.
pub open spec fn pair_closing(key: PairKey, next: Option<char>) -> Option<char> {
    match key {
        PairKey::BracketLeft => Some(']'),
        PairKey::BraceLeft => Some('}'),
        PairKey::ParenLeft => Some(')'),
        PairKey::Apostrophe | PairKey::Quote => {
            if next == Some('"') || next == Some('\'') {
                None
            } else if key == PairKey::Apostrophe {
                Some('\'')
            } else {
                Some('"')
            }
        },
    }
}

/// The character that a key types.
pub open spec fn typed_char(key: PairKey) -> char {
    match key {
        PairKey::BracketLeft => '[',
        PairKey::BraceLeft => '{',
        PairKey::ParenLeft => '(',
        PairKey::Apostrophe => '\'',
        PairKey::Quote => '"',
    }
}

/// Whether `c` is a quote character, `"` or `'`.
pub open spec fn is_quote_char(c: char) -> bool {
    c == '"' || c == '\''
}

/// Auto-pairing closes each bracket with its matching bracket whatever
/// follows; a quote is closed with the same quote, except right before a
/// quote of either kind, where nothing is inserted. Whatever is inserted
/// is never the character typed for a bracket, and is that character for
/// a quote.
pub proof fn lemma_auto_pair(key: PairKey, next: Option<char>)
    ensures
        key == PairKey::BracketLeft ==> pair_closing(key, next) == Some(']'),
        key == PairKey::BraceLeft ==> pair_closing(key, next) == Some('}'),
        key == PairKey::ParenLeft ==> pair_closing(key, next) == Some(')'),
        is_quote_char(typed_char(key)) ==> (pair_closing(key, next) is None <==> (next matches Some(
            c,
        ) && is_quote_char(c))),
        is_quote_char(typed_char(key)) && pair_closing(key, next) is Some ==> pair_closing(
            key,
            next,
        ) == Some(typed_char(key)),
{
}

/// The closing character to insert for an auto-paired key, if any.
pub fn auto_pair_closing(key: PairKey, next: Option<char>) -> (r: Option<char>)
    ensures
        r == pair_closing(key, next),
{
    match key {
        PairKey::BracketLeft => Some(']'),
        PairKey::BraceLeft => Some('}'),
        PairKey::ParenLeft => Some(')'),
        PairKey::Apostrophe | PairKey::Quote => {
            let quote_follows = match next {
                Some(c) => c == '"' || c == '\'',
                None => false,
            };
            if quote_follows {
                None
            } else {
                match key {
                    PairKey::Apostrophe => Some('\''),
                    _ => Some('"'),
                }
            }
        },
    }
}

/// The buffer operations that put markers around the selection or at the
/// cursor. Offsets are the character offsets of the text buffer; lengths
/// added to them are the byte lengths of the strings, as the editor adds
/// them.
#[derive(Clone, Debug)]
pub enum WrapPlan {
    /// Replace `[start, end)` by `text`, then select `[start, select_end)`.
    Replace { start: i32, end: i32, text: String, select_end: i32 },
    /// Insert the opening marker at `pos` and the closing marker at
    /// `after_pos`, then put the cursor at `after_pos`.
    Insert { pos: i32, after_pos: i32 },
}

/// The plan for putting `before` and `after` around the selection
/// `[start, end)` whose text is `selected`, or, without a selection,
/// around the cursor at `cursor`. With a selection, the selection is
/// replaced by `before + selected + after` and the new selection ends the
/// byte lengths of `before` and of the selected text after `start`;
/// without one, the cursor ends up the byte length of `before` after
/// `cursor`.
pub fn wrap_plan(before: &str, after: &str, selection: Option<(i32, i32, &str)>, cursor: i32) -> (p:
    WrapPlan)
    requires
        before.spec_bytes().len() <= i32::MAX,
        match selection {
            Some((s, e, t)) => t.spec_bytes().len() <= i32::MAX && i32::MIN <= s
                + before.spec_bytes().len() + t.spec_bytes().len() <= i32::MAX,
            None => cursor + before.spec_bytes().len() <= i32::MAX,
        },
    ensures
        match selection {
            Some((s, e, t)) => p matches WrapPlan::Replace { start, end, text, select_end } && start
                == s && end == e && text@ == before@ + t@ + after@ && select_end == s
                + before.spec_bytes().len() + t.spec_bytes().len(),
            None => p matches WrapPlan::Insert { pos, after_pos } && pos == cursor && after_pos
                == cursor + before.spec_bytes().len(),
        },
{
    let blen = before.len() as i32;
    match selection {
        Some((s, e, t)) => {
            let mut text = String::from_str(before);
            text.append(t);
            text.append(after);
            let tlen = t.len() as i32;
            WrapPlan::Replace { start: s, end: e, text, select_end: s + blen + tlen }
        },
        None => WrapPlan::Insert { pos: cursor, after_pos: cursor + blen },
    }
}

/// Where the paragraph around position `i` of `s` starts: right after the
/// last blank line (`"\n\n"`) that ends at or before `i`, or at 0.
pub open spec fn paragraph_start(s: Seq<char>, i: int) -> int
    decreases i,
{
    if i <= 0 {
        0
    } else if i >= 2 && s[i - 2] == '\n' && s[i - 1] == '\n' {
        i
    } else {
        paragraph_start(s, i - 1)
    }
}

/// Where the paragraph around position `j` of `s` ends: at the first blank
/// line (`"\n\n"`) that starts at or after `j`, or at the end of `s`.
pub open spec fn paragraph_end(s: Seq<char>, j: int) -> int
    decreases s.len() - j,
{
    if j >= s.len() {
        s.len() as int
    } else if j + 1 < s.len() && s[j] == '\n' && s[j + 1] == '\n' {
        j
    } else {
        paragraph_end(s, j + 1)
    }
}

/// The character range of the paragraph that focus mode keeps in full
/// colour, for the cursor at character `cursor` of `text` (a cursor past
/// the end counts as at the end). Everything outside it is dimmed.
pub fn focus_range(text: &str, cursor: usize) -> (r: (usize, usize))
    ensures
        ({
            let c = if cursor <= text@.len() { cursor as int } else { text@.len() as int };
            r.0 == paragraph_start(text@, c) && r.1 == paragraph_end(text@, c)
        }),
{
    let v = chars_of(text);
    let n = v.len();
    let c = if cursor <= n { cursor } else { n };
    let mut a = c;
    while a > 0 && !(a >= 2 && v[a - 2] == '\n' && v[a - 1] == '\n')
        invariant
            a <= c <= n,
            n == v@.len(),
            paragraph_start(v@, a as int) == paragraph_start(v@, c as int),
        decreases a,
    {
        a = a - 1;
    }
    let mut b = c;
    while b < n && !(b + 1 < n && v[b] == '\n' && v[b + 1] == '\n')
        invariant
            c <= b <= n,
            n == v@.len(),
            paragraph_end(v@, b as int) == paragraph_end(v@, c as int),
        decreases n - b,
    {
        b = b + 1;
    }
    (a, b)
}

} // verus!
