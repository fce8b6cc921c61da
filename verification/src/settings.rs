//! The application settings: their defaults, the list of recent files, the
//! theme choices and the editor font.

use vstd::prelude::*;
use vstd::string::StringExecFns;
use crate::text::{decimal, decimal_string, chars_of, string_of};
use crate::outline::{split_on, trim, trim_bounds};

verus! {

/// The colour scheme of the application.
#[derive(Clone, Copy, Debug, PartialEq, Eq, Structural)]
pub enum ThemeMode {
    Light,
    Dark,
    System,
}

/// The settings of the application. The preview width and the line spacing,
/// which are fractional, are kept by the application beside these.
#[derive(Clone, Debug)]
pub struct AppSettings {
    pub theme: ThemeMode,
    pub editor_font: String,
    pub editor_font_size: u32,
    pub auto_save: bool,
    pub auto_save_interval: u64,
    pub spell_check: bool,
    pub word_wrap: bool,
    pub show_line_numbers: bool,
    pub focus_mode: bool,
    pub sync_scrolling: bool,
    pub recent_files: Vec<String>,
    pub window_width: i32,
    pub window_height: i32,
    pub is_maximized: bool,
    pub live_preview: bool,
    pub auto_pair: bool,
    pub typewriter_mode: bool,
    pub hemingway_mode: bool,
}

/// The default editor font list.
pub open spec fn default_font() -> Seq<char> {
    "SF Mono, JetBrains Mono, Fira Code, monospace"@
}

/// The default settings.
pub open spec fn is_default(s: AppSettings) -> bool {
    &&& s.theme == ThemeMode::System
    &&& s.editor_font@ == default_font()
    &&& s.editor_font_size == 14
    &&& s.auto_save
    &&& s.auto_save_interval == 30
    &&& s.spell_check
    &&& s.word_wrap
    &&& !s.show_line_numbers
    &&& !s.focus_mode
    &&& s.sync_scrolling
    &&& s.recent_files@.len() == 0
    &&& s.window_width == 1280
    &&& s.window_height == 800
    &&& !s.is_maximized
    &&& s.live_preview
    &&& s.auto_pair
    &&& !s.typewriter_mode
    &&& !s.hemingway_mode
}

impl Default for AppSettings {
    fn default() -> (s: Self)
        ensures
            is_default(s),
    {
        AppSettings {
            theme: ThemeMode::System,
            editor_font: String::from_str("SF Mono, JetBrains Mono, Fira Code, monospace"),
            editor_font_size: 14,
            auto_save: true,
            auto_save_interval: 30,
            spell_check: true,
            word_wrap: true,
            show_line_numbers: false,
            focus_mode: false,
            sync_scrolling: true,
            recent_files: Vec::new(),
            window_width: 1280,
            window_height: 800,
            is_maximized: false,
            live_preview: true,
            auto_pair: true,
            typewriter_mode: false,
            hemingway_mode: false,
        }
    }
}

/// The number of recent files that are kept.
pub const MAX_RECENT_FILES: usize = 10;

/// `ps` without the entries equal to `p`, in order.
pub open spec fn without(ps: Seq<Seq<char>>, p: Seq<char>) -> Seq<Seq<char>>
    decreases ps.len(),
{
    if ps.len() == 0 {
        Seq::empty()
    } else if ps.last() == p {
        without(ps.drop_last(), p)
    } else {
        without(ps.drop_last(), p).push(ps.last())
    }
}

/// The recent files after `path` is opened: `path` first, then the others
/// without `path`, at most ten of them in all.
pub open spec fn recent_after(ps: Seq<Seq<char>>, path: Seq<char>) -> Seq<Seq<char>> {
    let l = seq![path] + without(ps, path);
    if l.len() > MAX_RECENT_FILES { l.take(MAX_RECENT_FILES as int) } else { l }
}

/// The settings `b` equal the settings `a` in every field but the recent files.
pub open spec fn same_but_recent(a: AppSettings, b: AppSettings) -> bool {
    &&& a.theme == b.theme
    &&& a.editor_font == b.editor_font
    &&& a.editor_font_size == b.editor_font_size
    &&& a.auto_save == b.auto_save
    &&& a.auto_save_interval == b.auto_save_interval
    &&& a.spell_check == b.spell_check
    &&& a.word_wrap == b.word_wrap
    &&& a.show_line_numbers == b.show_line_numbers
    &&& a.focus_mode == b.focus_mode
    &&& a.sync_scrolling == b.sync_scrolling
    &&& a.window_width == b.window_width
    &&& a.window_height == b.window_height
    &&& a.is_maximized == b.is_maximized
    &&& a.live_preview == b.live_preview
    &&& a.auto_pair == b.auto_pair
    &&& a.typewriter_mode == b.typewriter_mode
    &&& a.hemingway_mode == b.hemingway_mode
}

impl AppSettings {
    /// Records that `path` was opened: it moves to the front of the recent
    /// files, other copies of it are dropped, and at most ten are kept.
    pub fn add_recent_file(&mut self, path: &str)
        ensures
            final(self).recent_files.deep_view() == recent_after(
                old(self).recent_files.deep_view(),
                path@,
            ),
            same_but_recent(*old(self), *final(self)),
    {
        let p = String::from_str(path);
        let ghost ps = self.recent_files.deep_view();
        let mut kept: Vec<String> = Vec::new();
        let mut i: usize = 0;
        let n = self.recent_files.len();
        while i < n
            invariant
                n == self.recent_files@.len(),
                ps == self.recent_files.deep_view(),
                ps.len() == n,
                p@ == path@,
                i <= n,
                kept.deep_view() == without(ps.take(i as int), path@),
            decreases n - i,
        {
            let ghost t = ps.take(i + 1);
            assert(t.drop_last() =~= ps.take(i as int));
            assert(t.last() == self.recent_files@[i as int]@);
            if self.recent_files[i] != p {
                let ghost prev = kept.deep_view();
                kept.push(self.recent_files[i].clone());
                assert(kept.deep_view() =~= prev.push(ps[i as int]));
            }
            i = i + 1;
        }
        assert(ps.take(n as int) =~= ps);
        let mut recent: Vec<String> = Vec::new();
        recent.push(p);
        let mut j: usize = 0;
        let m = kept.len();
        let ghost w = kept.deep_view();
        while j < m && recent.len() < MAX_RECENT_FILES
            invariant
                m == kept@.len(),
                w == kept.deep_view(),
                w.len() == m,
                j <= m,
                recent.len() == j + 1,
                recent.len() <= MAX_RECENT_FILES,
                recent.deep_view() == (seq![path@] + w).take(j + 1),
            decreases m - j,
        {
            let ghost prev = recent.deep_view();
            recent.push(kept[j].clone());
            assert(recent.deep_view() =~= (seq![path@] + w).take(j + 2)) by {
                assert(recent.deep_view() =~= prev.push(w[j as int]));
            }
            j = j + 1;
        }
        proof {
            let l = seq![path@] + w;
            if j == m {
                assert(l.take(j + 1) =~= l);
            } else {
                assert(l.len() > MAX_RECENT_FILES);
            }
        }
        self.recent_files = recent;
    }
}

/// The index of a theme in the theme chooser: System, Light, Dark.
pub open spec fn theme_index_of(t: ThemeMode) -> u32 {
    match t {
        ThemeMode::System => 0,
        ThemeMode::Light => 1,
        ThemeMode::Dark => 2,
    }
}

/// The theme chosen at an index of the theme chooser; any index but 1 and 2
/// chooses the system theme.
pub open spec fn theme_at_index(i: u32) -> ThemeMode {
    if i == 1 {
        ThemeMode::Light
    } else if i == 2 {
        ThemeMode::Dark
    } else {
        ThemeMode::System
    }
}

/// The index of a theme in the theme chooser.
pub fn theme_index(t: ThemeMode) -> (i: u32)
    ensures
        i == theme_index_of(t),
{
    match t {
        ThemeMode::System => 0,
        ThemeMode::Light => 1,
        ThemeMode::Dark => 2,
    }
}

/// The theme chosen at an index of the theme chooser.
pub fn theme_from_index(i: u32) -> (t: ThemeMode)
    ensures
        t == theme_at_index(i),
{
    match i {
        1 => ThemeMode::Light,
        2 => ThemeMode::Dark,
        _ => ThemeMode::System,
    }
}

/// Choosing the entry of a theme in the chooser gives back that theme.
pub proof fn lemma_theme_index_round_trip(t: ThemeMode)
    ensures
        theme_at_index(theme_index_of(t)) == t,
        theme_index_of(t) < 3,
{
}

/// No two entries of `ps` are equal.
pub open spec fn no_duplicates(ps: Seq<Seq<char>>) -> bool {
    forall|i: int, j: int| 0 <= i < j < ps.len() ==> ps[i] != ps[j]
}

proof fn lemma_without_facts(ps: Seq<Seq<char>>, p: Seq<char>)
    ensures
        forall|i: int| 0 <= i < without(ps, p).len() ==> #[trigger] without(ps, p)[i] != p,
        forall|i: int|
            0 <= i < without(ps, p).len() ==> ps.contains(#[trigger] without(ps, p)[i]),
        without(ps, p).len() <= ps.len(),
        no_duplicates(ps) ==> no_duplicates(without(ps, p)),
    decreases ps.len(),
{
    if ps.len() > 0 {
        let init = ps.drop_last();
        lemma_without_facts(init, p);
        let w = without(init, p);
        assert forall|i: int| 0 <= i < w.len() implies ps.contains(#[trigger] w[i]) by {
            let k = choose|k: int| 0 <= k < init.len() && init[k] == w[i];
            assert(ps[k] == w[i]);
        }
        if ps.last() != p {
            let w2 = w.push(ps.last());
            assert forall|i: int| 0 <= i < w2.len() implies ps.contains(#[trigger] w2[i]) by {
                if i == w.len() {
                    assert(ps[ps.len() - 1] == w2[i]);
                } else {
                    assert(w2[i] == w[i]);
                }
            }
            if no_duplicates(ps) {
                assert(no_duplicates(init)) by {
                    assert forall|i: int, j: int| 0 <= i < j < init.len() implies init[i]
                        != init[j] by {
                        assert(init[i] == ps[i] && init[j] == ps[j]);
                    }
                }
                assert forall|i: int, j: int| 0 <= i < j < w2.len() implies w2[i] != w2[j] by {
                    if j == w.len() {
                        assert(w2[i] == w[i]);
                        assert(init.contains(w[i]));
                        let k = choose|k: int| 0 <= k < init.len() && init[k] == w[i];
                        assert(ps[k] == init[k]);
                        assert(ps[ps.len() - 1] == ps.last());
                    } else {
                        assert(w2[i] == w[i] && w2[j] == w[j]);
                    }
                }
            }
        } else {
            if no_duplicates(ps) {
                assert(no_duplicates(init)) by {
                    assert forall|i: int, j: int| 0 <= i < j < init.len() implies init[i]
                        != init[j] by {
                        assert(init[i] == ps[i] && init[j] == ps[j]);
                    }
                }
            }
        }
    }
}

proof fn lemma_without_absent(ps: Seq<Seq<char>>, p: Seq<char>)
    requires
        forall|i: int| 0 <= i < ps.len() ==> ps[i] != p,
    ensures
        without(ps, p) == ps,
    decreases ps.len(),
{
    if ps.len() > 0 {
        lemma_without_absent(ps.drop_last(), p);
        assert(ps.drop_last().push(ps.last()) =~= ps);
    }
}

proof fn lemma_without_front(p: Seq<char>, t: Seq<Seq<char>>)
    ensures
        without(seq![p] + t, p) == without(t, p),
    decreases t.len(),
{
    let l = seq![p] + t;
    if t.len() == 0 {
        assert(l.drop_last() =~= Seq::<Seq<char>>::empty());
        assert(l.last() == p);
        assert(without(l.drop_last(), p).len() == 0);
        assert(without(t, p).len() == 0);
    } else {
        lemma_without_front(p, t.drop_last());
        assert(l.drop_last() =~= seq![p] + t.drop_last());
        assert(l.last() == t.last());
    }
}

/// After `path` is opened, it heads the recent files, appears there once,
/// at most ten files are listed, and the others follow in their old order.
/// Recent files without duplicates stay without duplicates.
pub proof fn lemma_recent_files_shape(ps: Seq<Seq<char>>, path: Seq<char>)
    ensures
        recent_after(ps, path).len() >= 1,
        recent_after(ps, path)[0] == path,
        recent_after(ps, path).len() <= MAX_RECENT_FILES,
        forall|i: int|
            1 <= i < recent_after(ps, path).len() ==> #[trigger] recent_after(ps, path)[i]
                != path,
        recent_after(ps, path).drop_first() == without(ps, path).take(
            recent_after(ps, path).len() - 1,
        ),
        no_duplicates(ps) ==> no_duplicates(recent_after(ps, path)),
{
    lemma_without_facts(ps, path);
    let w = without(ps, path);
    let l = seq![path] + w;
    let r = recent_after(ps, path);
    assert(r.drop_first() =~= w.take(r.len() - 1));
    assert forall|i: int| 1 <= i < r.len() implies #[trigger] r[i] != path by {
        assert(r[i] == w[i - 1]);
    }
    if no_duplicates(ps) {
        assert forall|i: int, j: int| 0 <= i < j < r.len() implies r[i] != r[j] by {
            assert(r[j] == w[j - 1]);
            if i > 0 {
                assert(r[i] == w[i - 1]);
            }
        }
    }
}

/// Opening the same file twice leaves the recent files as opening it once.
pub proof fn lemma_recent_files_idempotent(ps: Seq<Seq<char>>, path: Seq<char>)
    ensures
        recent_after(recent_after(ps, path), path) == recent_after(ps, path),
{
    lemma_recent_files_shape(ps, path);
    let r = recent_after(ps, path);
    let t = r.drop_first();
    assert(r =~= seq![path] + t);
    assert forall|i: int| 0 <= i < t.len() implies t[i] != path by {
        assert(t[i] == r[i + 1]);
    }
    lemma_without_front(path, t);
    lemma_without_absent(t, path);
    assert(seq![path] + without(r, path) =~= r);
}

/// The most font families offered in the font chooser.
pub const MAX_FONT_CHOICES: usize = 50;

/// The font families offered, from the families that the font query
/// reported in order: empty names and repeats are skipped, and the list
/// stops at fifty.
pub open spec fn collect_fonts(fs: Seq<Seq<char>>) -> Seq<Seq<char>>
    decreases fs.len(),
{
    if fs.len() == 0 {
        Seq::empty()
    } else {
        let prev = collect_fonts(fs.drop_last());
        let f = fs.last();
        if prev.len() < MAX_FONT_CHOICES && f.len() > 0 && !prev.contains(f) {
            prev.push(f)
        } else {
            prev
        }
    }
}

/// The font families of the font chooser: those collected, or `monospace`
/// alone when there are none.
pub open spec fn font_list(fs: Seq<Seq<char>>) -> Seq<Seq<char>> {
    if collect_fonts(fs).len() == 0 {
        seq!["monospace"@]
    } else {
        collect_fonts(fs)
    }
}

/// The font families offered in the font chooser, from the monospace
/// families that the system's font configuration lists.
pub fn font_choices(families: &Vec<String>) -> (r: Vec<String>)
    ensures
        r.deep_view() == font_list(families.deep_view()),
{
    let ghost fs = families.deep_view();
    let n = families.len();
    let mut fonts: Vec<String> = Vec::new();
    let mut i: usize = 0;
    while i < n
        invariant
            n == families@.len(),
            fs == families.deep_view(),
            fs.len() == n,
            i <= n,
            fonts.deep_view() == collect_fonts(fs.take(i as int)),
            fonts@.len() <= MAX_FONT_CHOICES,
        decreases n - i,
    {
        let ghost t = fs.take(i + 1);
        assert(t.drop_last() =~= fs.take(i as int));
        assert(t.last() == families@[i as int]@);
        if fonts.len() < MAX_FONT_CHOICES && !families[i].as_str().is_empty() {
            let mut present = false;
            let mut j: usize = 0;
            while j < fonts.len()
                invariant
                    i < n,
                    n == families@.len(),
                    j <= fonts@.len(),
                    present == exists|k: int| 0 <= k < j && fonts.deep_view()[k] == families@[i as int]@,
                decreases fonts@.len() - j,
            {
                assert(fonts.deep_view()[j as int] == fonts@[j as int]@);
                if fonts[j] == families[i] {
                    present = true;
                }
                j = j + 1;
            }
            let ghost prev = fonts.deep_view();
            assert(present == prev.contains(t.last())) by {
                if prev.contains(t.last()) {
                    let k = choose|k: int| 0 <= k < prev.len() && prev[k] == t.last();
                    assert(fonts.deep_view()[k] == families@[i as int]@);
                }
            }
            if !present {
                fonts.push(families[i].clone());
                assert(fonts.deep_view() =~= prev.push(t.last()));
            }
        }
        i = i + 1;
    }
    assert(fs.take(n as int) =~= fs);
    if fonts.len() == 0 {
        let mut d: Vec<String> = Vec::new();
        d.push(String::from_str("monospace"));
        assert(d.deep_view() =~= font_list(fs));
        return d;
    }
    fonts
}

/// The position of `current` in the font chooser: its first index in
/// `fonts`, or 0 when it is not listed.
pub open spec fn font_position(fonts: Seq<Seq<char>>, current: Seq<char>) -> nat {
    if exists|i: int| 0 <= i < fonts.len() && fonts[i] == current {
        (choose|i: int|
            0 <= i < fonts.len() && fonts[i] == current && forall|j: int|
                0 <= j < i ==> fonts[j] != current) as nat
    } else {
        0
    }
}

/// The index to select in the font chooser for the current font.
pub fn font_index(fonts: &Vec<String>, current: &str) -> (r: u32)
    requires
        fonts@.len() <= u32::MAX,
    ensures
        r == font_position(fonts.deep_view(), current@),
{
    let c = String::from_str(current);
    let ghost fs = fonts.deep_view();
    let n = fonts.len();
    let mut i: usize = 0;
    while i < n
        invariant
            n == fonts@.len(),
            n <= u32::MAX,
            fs == fonts.deep_view(),
            c@ == current@,
            i <= n,
            forall|j: int| 0 <= j < i ==> fs[j] != current@,
        decreases n - i,
    {
        if fonts[i] == c {
            assert(fs[i as int] == current@);
            let ghost w = choose|k: int|
                0 <= k < fs.len() && fs[k] == current@ && forall|j: int| 0 <= j < k ==> fs[j] != current@;
            assert(0 <= i < fs.len() && fs[i as int] == current@ && forall|j: int| 0 <= j < i ==> fs[j] != current@);
            assert(w == i as int) by {
                if w < i {
                    assert(fs[w] != current@);
                } else if w > i {
                    assert(fs[i as int] != current@);
                }
            }
            return i as u32;
        }
        i = i + 1;
    }
    0
}

/// Whether a family name is one of the generic CSS families, which are
/// written without quotes.
pub open spec fn is_generic_family(f: Seq<char>) -> bool {
    f == "monospace"@ || f == "sans-serif"@ || f == "serif"@
}

/// A family name as CSS writes it: generic families bare, other names in
/// single quotes.
pub open spec fn family_css(f: Seq<char>) -> Seq<char> {
    if is_generic_family(f) {
        f
    } else {
        seq!['\''] + f + seq!['\'']
    }
}

/// The family list written so far, `prev`, extended by the item `piece` of
/// the font setting: the trimmed item is added after `", "` unless it is
/// blank.
pub open spec fn add_family(prev: Seq<char>, piece: Seq<char>) -> Seq<char> {
    let t = trim(piece);
    if t.len() == 0 {
        prev
    } else if prev.len() == 0 {
        family_css(t)
    } else {
        prev + seq![',', ' '] + family_css(t)
    }
}

/// The CSS family list of the comma-separated items `pieces`, each trimmed,
/// blank items left out.
pub open spec fn families_css(pieces: Seq<Seq<char>>) -> Seq<char>
    decreases pieces.len(),
{
    if pieces.len() == 0 {
        Seq::empty()
    } else {
        add_family(families_css(pieces.drop_last()), pieces.last())
    }
}

/// The `font-family` value of a font setting: each comma-separated family
/// of the list, in order, as its own family; `monospace` when the setting
/// names none.
pub open spec fn font_family_value(font: Seq<char>) -> Seq<char> {
    let v = families_css(split_on(font, ','));
    if v.len() == 0 {
        "monospace"@
    } else {
        v
    }
}

/// The style sheet that sets the editor font: the families of `font`,
/// `size` pixels.
pub open spec fn font_css_text(font: Seq<char>, size: nat) -> Seq<char> {
    "textview { font-family: "@ + font_family_value(font) + "; font-size: "@ + decimal(size)
        + "px; }"@
}

fn range_equals(v: &Vec<char>, a: usize, b: usize, w: &Vec<char>) -> (r: bool)
    requires
        a <= b <= v@.len(),
    ensures
        r == (v@.subrange(a as int, b as int) == w@),
{
    if b - a != w.len() {
        return false;
    }
    let mut i: usize = 0;
    while i < w.len()
        invariant
            a <= b <= v@.len(),
            b - a == w@.len(),
            i <= w@.len(),
            forall|j: int| 0 <= j < i ==> v@[a + j] == w@[j],
        decreases w@.len() - i,
    {
        if v[a + i] != w[i] {
            assert(v@.subrange(a as int, b as int)[i as int] != w@[i as int]);
            return false;
        }
        i = i + 1;
    }
    assert(v@.subrange(a as int, b as int) =~= w@);
    true
}

/// Appends to `out` the family list extended by the item `v[lo..hi)`.
fn push_family(out: &mut Vec<char>, v: &Vec<char>, lo: usize, hi: usize)
    requires
        lo <= hi <= v@.len(),
    ensures
        final(out)@ == add_family(old(out)@, v@.subrange(lo as int, hi as int)),
{
    let mut piece: Vec<char> = Vec::new();
    let mut j = lo;
    while j < hi
        invariant
            lo <= j <= hi <= v@.len(),
            piece@ == v@.subrange(lo as int, j as int),
        decreases hi - j,
    {
        piece.push(v[j]);
        j = j + 1;
    }
    let (a, b) = trim_bounds(&piece);
    let ghost t = trim(piece@);
    assert(piece@ =~= v@.subrange(lo as int, hi as int));
    if a == b {
        return;
    }
    let ghost prev = out@;
    if out.len() > 0 {
        out.push(',');
        out.push(' ');
    }
    let mono = chars_of("monospace");
    let sans = chars_of("sans-serif");
    let serif = chars_of("serif");
    let generic = range_equals(&piece, a, b, &mono) || range_equals(&piece, a, b, &sans)
        || range_equals(&piece, a, b, &serif);
    if !generic {
        out.push('\'');
    }
    let mut k = a;
    let ghost mid = out@;
    while k < b
        invariant
            a <= k <= b <= piece@.len(),
            out@ == mid + piece@.subrange(a as int, k as int),
        decreases b - k,
    {
        out.push(piece[k]);
        k = k + 1;
    }
    if !generic {
        out.push('\'');
    }
    proof {
        if prev.len() > 0 {
            assert(out@ =~= prev + seq![',', ' '] + family_css(t));
        } else {
            assert(out@ =~= family_css(t));
        }
    }
}

/// The `font-family` value for the font setting `font`.
fn font_family_list(font: &str) -> (r: Vec<char>)
    ensures
        r@ == font_family_value(font@),
{
    let v = chars_of(font);
    let n = v.len();
    let ghost s = v@;
    let mut out: Vec<char> = Vec::new();
    let mut start: usize = 0;
    let mut i: usize = 0;
    let ghost mut done: Seq<Seq<char>> = Seq::empty();
    assert(s.take(0) =~= Seq::<char>::empty());
    while i < n
        invariant
            n == s.len(),
            s == v@,
            start <= i <= n,
            split_on(s.take(i as int), ',') == done.push(s.subrange(start as int, i as int)),
            out@ == families_css(done),
        decreases n - i,
    {
        let ghost pre = s.take(i as int);
        assert(s.take(i + 1) =~= pre.push(s[i as int]));
        assert(s.take(i + 1).drop_last() =~= pre);
        if v[i] == ',' {
            push_family(&mut out, &v, start, i);
            proof {
                let cur = s.subrange(start as int, i as int);
                assert(done.push(cur).drop_last() =~= done);
                assert(done.push(cur).last() == cur);
                done = done.push(cur);
                assert(s.subrange(i + 1, i + 1) =~= Seq::<char>::empty());
            }
            start = i + 1;
        } else {
            proof {
                let cur = s.subrange(start as int, i as int);
                let r = split_on(pre, ',');
                assert(r == done.push(cur));
                assert(s.subrange(start as int, i + 1) =~= cur.push(s[i as int]));
                assert(r.update(r.len() - 1, r.last().push(s[i as int])) =~= done.push(
                    s.subrange(start as int, i + 1),
                ));
            }
        }
        i = i + 1;
    }
    assert(s.take(n as int) =~= s);
    push_family(&mut out, &v, start, n);
    proof {
        let cur = s.subrange(start as int, n as int);
        assert(done.push(cur).drop_last() =~= done);
        assert(done.push(cur).last() == cur);
    }
    if out.len() == 0 {
        let m = chars_of("monospace");
        return m;
    }
    out
}

/// The style sheet for the editor font: `font` is a comma-separated list
/// of families, tried in order.
pub fn font_css(font: &str, size: u32) -> (css: String)
    ensures
        css@ == font_css_text(font@, size as nat),
{
    let fams = font_family_list(font);
    let fs = string_of(&fams);
    let mut css = String::from_str("textview { font-family: ");
    css.append(fs.as_str());
    css.append("; font-size: ");
    let d = decimal_string(size as u64);
    css.append(d.as_str());
    css.append("px; }");
    assert(css@ =~= font_css_text(font@, size as nat));
    css
}

/// The font chooser lists at least one family, at most fifty, none twice
/// and none empty (the fallback `monospace` included).
pub proof fn lemma_font_list_shape(fs: Seq<Seq<char>>)
    ensures
        1 <= font_list(fs).len() <= MAX_FONT_CHOICES,
        no_duplicates(font_list(fs)),
        forall|i: int| 0 <= i < font_list(fs).len() ==> (#[trigger] font_list(fs)[i]).len() > 0,
{
    lemma_collect_fonts_shape(fs);
    if collect_fonts(fs).len() == 0 {
        reveal_strlit("monospace");
    }
}

proof fn lemma_collect_fonts_shape(fs: Seq<Seq<char>>)
    ensures
        collect_fonts(fs).len() <= MAX_FONT_CHOICES,
        no_duplicates(collect_fonts(fs)),
        forall|i: int|
            0 <= i < collect_fonts(fs).len() ==> (#[trigger] collect_fonts(fs)[i]).len() > 0,
    decreases fs.len(),
{
    if fs.len() > 0 {
        lemma_collect_fonts_shape(fs.drop_last());
        let prev = collect_fonts(fs.drop_last());
        let f = fs.last();
        if prev.len() < MAX_FONT_CHOICES && f.len() > 0 && !prev.contains(f) {
            let c = prev.push(f);
            assert forall|i: int, j: int| 0 <= i < j < c.len() implies c[i] != c[j] by {
                if j == prev.len() {
                    assert(c[i] == prev[i]);
                }
            }
            assert forall|i: int| 0 <= i < c.len() implies (#[trigger] c[i]).len() > 0 by {
                if i < prev.len() {
                    assert(c[i] == prev[i]);
                }
            }
        }
    }
}

} // verus!
