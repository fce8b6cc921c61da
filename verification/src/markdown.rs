//! Rendering Markdown to HTML with `pulldown_cmark`, with inline code that
//! holds `$…$` or `$$…$$` rendered as KaTeX math, and detection of Mermaid
//! diagrams; extraction of the headings of a document.

use vstd::prelude::*;
use crate::text::{chars_of, string_of};
use vstd::string::StringExecFns;
use pulldown_cmark::{CodeBlockKind, Event, Options, Parser, Tag};

verus! {

/// The parser events that the library reads; every other event is `Other`.
#[derive(Clone, Debug)]
pub enum MdEvent {
    /// The start of a heading of the given level (1 to 6).
    HeadingStart(u8),
    /// The start of a fenced code block with the given info string.
    FencedCodeStart(String),
    /// A text node.
    Text(String),
    /// An inline code node.
    Code(String),
    /// Any other event.
    Other,
}

/// The plain value of an `MdEvent`.
pub enum EventView {
    HeadingStart(nat),
    FencedCodeStart(Seq<char>),
    Text(Seq<char>),
    Code(Seq<char>),
    Other,
}

impl DeepView for MdEvent {
    type V = EventView;

    open spec fn deep_view(&self) -> EventView {
        match self {
            MdEvent::HeadingStart(l) => EventView::HeadingStart(*l as nat),
            MdEvent::FencedCodeStart(s) => EventView::FencedCodeStart(s@),
            MdEvent::Text(s) => EventView::Text(s@),
            MdEvent::Code(s) => EventView::Code(s@),
            MdEvent::Other => EventView::Other,
        }
    }
}

/// The `pulldown_cmark::Options` bits of the extensions the preview renders
/// with: tables, footnotes, strike-through, task lists, heading attributes
/// and GitHub-flavoured blockquote tags.
pub const PREVIEW_OPTIONS: u32 = 2142;

/// No extension: plain CommonMark.
pub const PLAIN_OPTIONS: u32 = 0;

/// The events that `pulldown_cmark::Parser::new_ext` yields for `text` with
/// the options whose bits are `options`, each reduced to an `EventView`.
pub uninterp spec fn md_events(text: Seq<char>, options: u32) -> Seq<EventView>;

/// The HTML that `pulldown_cmark::html::push_html` writes for the events of
/// `text` under `options`, where each event whose index has `Some(h)` in
/// `replacements` is replaced by a raw HTML event holding `h`.
pub uninterp spec fn md_html(
    text: Seq<char>,
    options: u32,
    replacements: Seq<Option<Seq<char>>>,
) -> Seq<char>;

/// Parses `text` with `pulldown_cmark::Parser::new_ext` under the options
/// whose bits are `options` (`Options::from_bits_truncate`) and reduces each
/// event to an `MdEvent` (a heading level is the discriminant of
/// `HeadingLevel`, 1 to 6). Trusted: the contract only names the result
/// `md_events`; the parser is deterministic, so the name depends on the
/// arguments alone. Nothing is claimed of what the events are.
#[verifier::external_body]
fn parse_events(text: &str, options: u32) -> (events: Vec<MdEvent>)
    ensures
        events.deep_view() == md_events(text@, options),
{
    Parser::new_ext(text, Options::from_bits_truncate(options)).map(|e| match e {
        Event::Start(Tag::Heading { level, .. }) => MdEvent::HeadingStart(level as u8),
        Event::Start(Tag::CodeBlock(CodeBlockKind::Fenced(info))) => MdEvent::FencedCodeStart(
            info.to_string(),
        ),
        Event::Text(t) => MdEvent::Text(t.to_string()),
        Event::Code(c) => MdEvent::Code(c.to_string()),
        _ => MdEvent::Other,
    }).collect()
}

/// Renders `text` with `pulldown_cmark::html::push_html` over the events of
/// `Parser::new_ext(text, options)`, where the event at index `i` becomes
/// `Event::Html(h)` when `replacements[i]` is `Some(h)` and is kept
/// otherwise. Trusted: the contract only names the result `md_html`, a
/// function of the text, the options and the replacements; nothing is
/// claimed of the HTML itself.
#[verifier::external_body]
fn render_html(text: &str, options: u32, replacements: &Vec<Option<String>>) -> (html: String)
    ensures
        html@ == md_html(text@, options, replacements.deep_view()),
{
    let events = Parser::new_ext(text, Options::from_bits_truncate(options)).enumerate().map(
        |(i, e)| match replacements.get(i) {
            Some(Some(h)) => Event::Html(h.clone().into()),
            _ => e,
        },
    );
    let mut html = String::new();
    pulldown_cmark::html::push_html(&mut html, events);
    html
}

/// `k` dollar signs.
pub open spec fn dollars(k: nat) -> Seq<char> {
    Seq::new(k, |i: int| '$')
}

pub open spec fn starts_with(s: Seq<char>, p: Seq<char>) -> bool {
    p.len() <= s.len() && s.take(p.len() as int) == p
}

pub open spec fn ends_with(s: Seq<char>, p: Seq<char>) -> bool {
    p.len() <= s.len() && s.skip(s.len() - p.len()) == p
}

/// `s` with every leading copy of `p` removed, as `str::trim_start_matches`.
pub open spec fn trim_start_matches(s: Seq<char>, p: Seq<char>) -> Seq<char>
    decreases s.len(),
{
    if p.len() > 0 && starts_with(s, p) {
        trim_start_matches(s.skip(p.len() as int), p)
    } else {
        s
    }
}

/// `s` with every trailing copy of `p` removed, as `str::trim_end_matches`.
pub open spec fn trim_end_matches(s: Seq<char>, p: Seq<char>) -> Seq<char>
    decreases s.len(),
{
    if p.len() > 0 && ends_with(s, p) {
        trim_end_matches(s.take(s.len() - p.len()), p)
    } else {
        s
    }
}

/// The math between the dollar signs of `code`, for `k` dollar signs.
pub open spec fn math_content(code: Seq<char>, k: nat) -> Seq<char> {
    trim_end_matches(trim_start_matches(code, dollars(k)), dollars(k))
}

/// The HTML that replaces inline code holding math: `$$…$$` becomes a
/// KaTeX display block, `$…$` a KaTeX inline span; other code stays.
pub open spec fn math_replacement(code: Seq<char>) -> Option<Seq<char>> {
    if starts_with(code, dollars(2)) && ends_with(code, dollars(2)) {
        Some("<div class=\"katex-display\">"@ + math_content(code, 2) + "</div>"@)
    } else if starts_with(code, dollars(1)) && ends_with(code, dollars(1)) {
        Some("<span class=\"katex-inline\">"@ + math_content(code, 1) + "</span>"@)
    } else {
        None
    }
}

/// The replacement for an event: only inline code holding math is replaced.
pub open spec fn event_replacement(e: EventView) -> Option<Seq<char>> {
    match e {
        EventView::Code(c) => math_replacement(c),
        _ => None,
    }
}

/// The replacements for a sequence of events, index by index.
pub open spec fn replacements_of(evs: Seq<EventView>) -> Seq<Option<Seq<char>>> {
    evs.map_values(|e: EventView| event_replacement(e))
}

/// Whether some inline code of `evs` holds math.
pub open spec fn has_math(evs: Seq<EventView>) -> bool {
    exists|i: int| 0 <= i < evs.len() && (#[trigger] event_replacement(evs[i])) is Some
}

/// The word `mermaid`.
pub open spec fn mermaid_word() -> Seq<char> {
    seq!['m', 'e', 'r', 'm', 'a', 'i', 'd']
}

/// Whether `p` occurs in `s`, as `str::contains`.
pub open spec fn contains(s: Seq<char>, p: Seq<char>) -> bool {
    exists|i: int| 0 <= i && i + p.len() <= s.len() && #[trigger] s.subrange(i, i + p.len()) == p
}

/// Whether an event starts a fenced code block whose info string names Mermaid.
pub open spec fn is_mermaid_fence(e: EventView) -> bool {
    match e {
        EventView::FencedCodeStart(info) => contains(info, mermaid_word()),
        _ => false,
    }
}

/// Whether some fenced code block of `evs` is a Mermaid diagram.
pub open spec fn has_mermaid(evs: Seq<EventView>) -> bool {
    exists|i: int| 0 <= i < evs.len() && #[trigger] is_mermaid_fence(evs[i])
}

/// Whether `k` dollar signs stand at position `p` of `v`.
fn dollar_run(v: &Vec<char>, p: usize, k: usize) -> (r: bool)
    requires
        1 <= k <= 2,
    ensures
        r == (p + k <= v@.len() && v@.subrange(p as int, p + k) == dollars(k as nat)),
{
    if p > v.len() || v.len() - p < k {
        return false;
    }
    let r = if k == 1 {
        v[p] == '$'
    } else {
        v[p] == '$' && v[p + 1] == '$'
    };
    proof {
        if r {
            assert(v@.subrange(p as int, p + k) =~= dollars(k as nat));
        } else {
            if v@.subrange(p as int, p + k) == dollars(k as nat) {
                assert(v@.subrange(p as int, p + k)[0] == '$');
                if k == 2 {
                    assert(v@.subrange(p as int, p + k)[1] == '$');
                }
            }
        }
    }
    r
}

/// The bounds of the math between the dollar signs of `v`, for `k` signs.
fn math_bounds(v: &Vec<char>, k: usize) -> (r: (usize, usize))
    requires
        1 <= k <= 2,
    ensures
        r.0 <= r.1 <= v@.len(),
        v@.subrange(r.0 as int, r.1 as int) == math_content(v@, k as nat),
{
    let n = v.len();
    let ghost d = dollars(k as nat);
    let mut a: usize = 0;
    assert(v@.skip(0) =~= v@);
    while dollar_run(v, a, k)
        invariant
            1 <= k <= 2,
            a <= n,
            n == v@.len(),
            d == dollars(k as nat),
            trim_start_matches(v@, d) == trim_start_matches(v@.skip(a as int), d),
        decreases n - a,
    {
        let ghost t = v@.skip(a as int);
        assert(t.take(k as int) =~= v@.subrange(a as int, a + k));
        assert(starts_with(t, d));
        assert(t.skip(k as int) =~= v@.skip(a + k));
        a = a + k;
    }
    let ghost ts = v@.skip(a as int);
    proof {
        if starts_with(ts, d) {
            assert(ts.take(k as int) =~= v@.subrange(a as int, a + k));
        }
        assert(trim_start_matches(ts, d) == ts);
    }
    let mut b: usize = n;
    assert(ts.take(n - a) =~= ts);
    while b - a >= k && dollar_run(v, b - k, k)
        invariant
            1 <= k <= 2,
            a <= b <= n,
            n == v@.len(),
            d == dollars(k as nat),
            ts == v@.skip(a as int),
            trim_end_matches(ts, d) == trim_end_matches(ts.take(b - a), d),
        decreases b,
    {
        let ghost t = ts.take(b - a);
        assert(t.skip(t.len() - k) =~= v@.subrange(b - k, b as int));
        assert(ends_with(t, d));
        assert(t.take(t.len() - k) =~= ts.take(b - k - a));
        b = b - k;
    }
    proof {
        let t = ts.take(b - a);
        if ends_with(t, d) {
            assert(t.skip(t.len() - k) =~= v@.subrange(b - k, b as int));
        }
        assert(trim_end_matches(t, d) == t);
        assert(t =~= v@.subrange(a as int, b as int));
    }
    (a, b)
}

fn subrange_string(v: &Vec<char>, a: usize, b: usize) -> (s: String)
    requires
        a <= b <= v@.len(),
    ensures
        s@ == v@.subrange(a as int, b as int),
{
    let mut w: Vec<char> = Vec::new();
    let mut j = a;
    while j < b
        invariant
            a <= j <= b,
            b <= v@.len(),
            w@ == v@.subrange(a as int, j as int),
        decreases b - j,
    {
        w.push(v[j]);
        j = j + 1;
    }
    string_of(&w)
}

/// The KaTeX HTML for inline code that holds math (`$$…$$` for a display
/// block, `$…$` for inline math), or `None` for other code.
pub fn math_html(code: &str) -> (r: Option<String>)
    ensures
        r.deep_view() == math_replacement(code@),
{
    let v = chars_of(code);
    let n = v.len();
    let ghost s = v@;
    let double = n >= 2 && dollar_run(&v, 0, 2) && dollar_run(&v, n - 2, 2);
    proof {
        if n >= 2 {
            assert(s.take(2) =~= s.subrange(0, 2));
            assert(s.skip(n - 2) =~= s.subrange(n - 2, n as int));
        }
    }
    if double {
        let (a, b) = math_bounds(&v, 2);
        let inner = subrange_string(&v, a, b);
        let mut h = String::from_str("<div class=\"katex-display\">");
        h.append(inner.as_str());
        h.append("</div>");
        return Some(h);
    }
    let single = n >= 1 && dollar_run(&v, 0, 1) && dollar_run(&v, n - 1, 1);
    proof {
        if n >= 1 {
            assert(s.take(1) =~= s.subrange(0, 1));
            assert(s.skip(n - 1) =~= s.subrange(n - 1, n as int));
        }
    }
    if single {
        let (a, b) = math_bounds(&v, 1);
        let inner = subrange_string(&v, a, b);
        let mut h = String::from_str("<span class=\"katex-inline\">");
        h.append(inner.as_str());
        h.append("</span>");
        return Some(h);
    }
    None
}

/// Whether `info` contains the word `mermaid`.
pub fn names_mermaid(info: &str) -> (r: bool)
    ensures
        r == contains(info@, mermaid_word()),
{
    let v = chars_of(info);
    let n = v.len();
    let mut w: Vec<char> = Vec::new();
    w.push('m');
    w.push('e');
    w.push('r');
    w.push('m');
    w.push('a');
    w.push('i');
    w.push('d');
    assert(w@ =~= mermaid_word());
    let mut i: usize = 0;
    while i < n && n - i >= 7
        invariant
            n == v@.len(),
            v@ == info@,
            w@ == mermaid_word(),
            forall|j: int| 0 <= j < i ==> j + 7 > n || #[trigger] v@.subrange(j, j + 7) != mermaid_word(),
        decreases n - i,
    {
        let mut k: usize = 0;
        while k < 7 && v[i + k] == w[k]
            invariant
                k <= 7,
                i + 7 <= n,
                n == v@.len(),
                w@ == mermaid_word(),
                forall|q: int| 0 <= q < k ==> v@[i + q] == w@[q],
            decreases 7 - k,
        {
            k = k + 1;
        }
        if k == 7 {
            assert(v@.subrange(i as int, i + 7) =~= mermaid_word());
            assert(mermaid_word().len() == 7);
            assert(info@.subrange(i as int, i + mermaid_word().len()) == mermaid_word());
            assert(contains(info@, mermaid_word()));
            return true;
        }
        assert(v@.subrange(i as int, i + 7)[k as int] != mermaid_word()[k as int]);
        i = i + 1;
    }
    proof {
        assert forall|j: int|
            0 <= j && j + mermaid_word().len() <= v@.len() implies #[trigger] v@.subrange(
            j,
            j + mermaid_word().len(),
        ) != mermaid_word() by {
            assert(j < i);
        }
    }
    false
}

/// The math rewriting of a sequence of events: for each event the HTML that
/// replaces it (only inline code holding math is replaced), whether any
/// math was found and whether a fenced code block names Mermaid.
pub fn rewrite_events(events: &Vec<MdEvent>) -> (r: (Vec<Option<String>>, bool, bool))
    ensures
        r.0.deep_view() == replacements_of(events.deep_view()),
        r.1 == has_math(events.deep_view()),
        r.2 == has_mermaid(events.deep_view()),
{
    let n = events.len();
    let ghost evs = events.deep_view();
    let mut reps: Vec<Option<String>> = Vec::new();
    let mut math = false;
    let mut mermaid = false;
    let mut i: usize = 0;
    while i < n
        invariant
            n == events@.len(),
            evs == events.deep_view(),
            evs.len() == n,
            i <= n,
            reps.deep_view() == replacements_of(evs).take(i as int),
            math == exists|j: int| 0 <= j < i && (#[trigger] event_replacement(evs[j])) is Some,
            mermaid == exists|j: int| 0 <= j < i && #[trigger] is_mermaid_fence(evs[j]),
        decreases n - i,
    {
        let ghost ev = evs[i as int];
        assert(ev == events@[i as int].deep_view());
        let rep = match &events[i] {
            MdEvent::Code(c) => math_html(c.as_str()),
            _ => None,
        };
        let fence = match &events[i] {
            MdEvent::FencedCodeStart(info) => names_mermaid(info.as_str()),
            _ => false,
        };
        assert(rep.deep_view() == event_replacement(ev));
        assert(fence == is_mermaid_fence(ev));
        if rep.is_some() {
            math = true;
        }
        if fence {
            mermaid = true;
        }
        let ghost prev = reps.deep_view();
        reps.push(rep);
        assert(reps.deep_view() =~= replacements_of(evs).take(i + 1)) by {
            assert(reps.deep_view() =~= prev.push(event_replacement(ev)));
        }
        i = i + 1;
    }
    assert(replacements_of(evs).take(n as int) =~= replacements_of(evs));
    (reps, math, mermaid)
}

/// The result of rendering a document for the preview.
pub struct RenderResult {
    /// The HTML body.
    pub html: String,
    /// Whether the document holds math, which needs KaTeX.
    pub has_math: bool,
    /// Whether the document holds a Mermaid diagram.
    pub has_mermaid: bool,
}

/// Renders `text` as HTML with the preview's extensions. Inline code that
/// holds `$$…$$` or `$…$` becomes KaTeX markup; `has_math` tells whether
/// there was any, and `has_mermaid` whether a fenced code block names
/// Mermaid.
pub fn render_markdown(text: &str) -> (r: RenderResult)
    ensures
        r.html@ == md_html(
            text@,
            PREVIEW_OPTIONS,
            replacements_of(md_events(text@, PREVIEW_OPTIONS)),
        ),
        r.has_math == has_math(md_events(text@, PREVIEW_OPTIONS)),
        r.has_mermaid == has_mermaid(md_events(text@, PREVIEW_OPTIONS)),
{
    let events = parse_events(text, PREVIEW_OPTIONS);
    let (replacements, has_math, has_mermaid) = rewrite_events(&events);
    let html = render_html(text, PREVIEW_OPTIONS, &replacements);
    RenderResult { html, has_math, has_mermaid }
}

/// The headings of a sequence of events: each heading start that is
/// directly followed by a text node gives its level and that text.
pub open spec fn heading_pairs(evs: Seq<EventView>) -> Seq<(nat, Seq<char>)>
    decreases evs.len(),
{
    if evs.len() < 2 {
        Seq::empty()
    } else {
        let rest = heading_pairs(evs.drop_first());
        match (evs[0], evs[1]) {
            (EventView::HeadingStart(l), EventView::Text(t)) => seq![(l, t)] + rest,
            _ => rest,
        }
    }
}

/// The plain values of a list of `(level, title)` pairs.
pub open spec fn pairs_view(ps: Seq<(usize, String)>) -> Seq<(nat, Seq<char>)> {
    ps.map_values(|p: (usize, String)| (p.0 as nat, p.1@))
}

/// The headings of a sequence of events, as `heading_pairs` states them.
pub fn headings_from_events(events: &Vec<MdEvent>) -> (r: Vec<(usize, String)>)
    ensures
        pairs_view(r@) == heading_pairs(events.deep_view()),
{
    let n = events.len();
    let ghost evs = events.deep_view();
    let mut out: Vec<(usize, String)> = Vec::new();
    let mut i: usize = 0;
    assert(evs.skip(0) =~= evs);
    while i < n
        invariant
            n == events@.len(),
            evs == events.deep_view(),
            evs.len() == n,
            i <= n,
            pairs_view(out@) + heading_pairs(evs.skip(i as int)) == heading_pairs(evs),
        decreases n - i,
    {
        let ghost t = evs.skip(i as int);
        let ghost prev = out@;
        if i + 1 < n {
            assert(t.drop_first() =~= evs.skip(i + 1));
            assert(t[0] == events@[i as int].deep_view());
            assert(t[1] == events@[i + 1].deep_view());
            match (&events[i], &events[i + 1]) {
                (MdEvent::HeadingStart(l), MdEvent::Text(title)) => {
                    out.push((*l as usize, title.clone()));
                    assert(pairs_view(out@) =~= pairs_view(prev) + seq![(*l as nat, title@)]);
                },
                _ => {},
            }
        } else {
            assert(t.len() < 2);
        }
        i = i + 1;
        proof {
            if i == n {
                assert(evs.skip(i as int).len() == 0);
            }
        }
    }
    out
}

/// The headings of `text` parsed as plain CommonMark: the level and text of
/// each heading whose first content is a text node.
pub fn extract_headings(text: &str) -> (r: Vec<(usize, String)>)
    ensures
        pairs_view(r@) == heading_pairs(md_events(text@, PLAIN_OPTIONS)),
{
    let events = parse_events(text, PLAIN_OPTIONS);
    headings_from_events(&events)
}

/// Inline code written `$…$` around math that neither starts nor ends with
/// a dollar sign renders that math as inline KaTeX.
pub proof fn lemma_math_inline_delimiters(c: Seq<char>)
    requires
        c.len() > 0,
        c[0] != '$',
        c.last() != '$',
    ensures
        math_replacement(dollars(1) + c + dollars(1)) == Some(
            "<span class=\"katex-inline\">"@ + c + "</span>"@,
        ),
{
    let d1 = dollars(1);
    let d2 = dollars(2);
    let s1 = d1 + c + d1;
    assert(s1.take(1) =~= d1);
    assert(s1.skip(s1.len() - 1) =~= d1);
    assert(s1[1] == c[0]);
    assert(!starts_with(s1, d2)) by {
        if starts_with(s1, d2) {
            assert(s1.take(2)[1] == d2[1]);
        }
    }
    let t1 = s1.skip(1);
    assert(t1 =~= c + d1);
    assert(!starts_with(t1, d1)) by {
        if starts_with(t1, d1) {
            assert(t1.take(1)[0] == d1[0]);
        }
    }
    assert(trim_start_matches(t1, d1) == t1);
    assert(trim_start_matches(s1, d1) == t1);
    assert(t1.skip(t1.len() - 1) =~= d1);
    assert(t1.take(t1.len() - 1) =~= c);
    assert(!ends_with(c, d1)) by {
        if ends_with(c, d1) {
            assert(c.skip(c.len() - 1)[0] == d1[0]);
        }
    }
    assert(trim_end_matches(c, d1) == c);
    assert(trim_end_matches(t1, d1) == c);
    assert(math_content(s1, 1) == c);
}

/// Inline code written `$$…$$` around math that neither starts nor ends
/// with a dollar sign renders that math as a KaTeX display block.
pub proof fn lemma_math_display_delimiters(c: Seq<char>)
    requires
        c.len() > 0,
        c[0] != '$',
        c.last() != '$',
    ensures
        math_replacement(dollars(2) + c + dollars(2)) == Some(
            "<div class=\"katex-display\">"@ + c + "</div>"@,
        ),
{
    let d2 = dollars(2);
    let s2 = d2 + c + d2;
    assert(s2.take(2) =~= d2);
    assert(s2.skip(s2.len() - 2) =~= d2);
    let t2 = s2.skip(2);
    assert(t2 =~= c + d2);
    assert(!starts_with(t2, d2)) by {
        if starts_with(t2, d2) {
            assert(t2.take(2)[0] == d2[0]);
        }
    }
    assert(trim_start_matches(t2, d2) == t2);
    assert(trim_start_matches(s2, d2) == t2);
    assert(t2.skip(t2.len() - 2) =~= d2);
    assert(t2.take(t2.len() - 2) =~= c);
    assert(!ends_with(c, d2)) by {
        if ends_with(c, d2) {
            assert(c.skip(c.len() - 2)[1] == d2[1]);
        }
    }
    assert(trim_end_matches(c, d2) == c);
    assert(trim_end_matches(t2, d2) == c);
    assert(math_content(s2, 2) == c);
}

} // verus!
