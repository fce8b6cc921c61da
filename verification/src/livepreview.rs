//! Inline ("live") preview of Markdown in the editor: which ranges of the
//! text are hidden and which are styled as headings, bold, italic,
//! strike-through or code. The ranges are found on the bytes of the text and
//! handed to the editor, which applies them as text tags, in characters.

use vstd::prelude::*;
use vstd::string::StrSliceExecFns;
use vstd::string::StringSliceAdditionalSpecFns;
use crate::text::char_index;

verus! {

/// How a range of the editor text is displayed.
#[derive(Clone, Copy, Debug, PartialEq, Eq, Structural)]
pub enum SpanStyle {
    /// The range is a Markdown marker and is hidden.
    Hide,
    Bold,
    Italic,
    Strike,
    Code,
    Heading1,
    Heading2,
    Heading3,
}

/// A styled range `[start, end)` of the editor text.
#[derive(Clone, Copy, Debug, PartialEq, Eq, Structural)]
pub struct Span {
    pub start: usize,
    pub end: usize,
    pub style: SpanStyle,
}

/// The inline markers, in the order in which they are applied.
#[derive(Clone, Copy, Debug, PartialEq, Eq, Structural)]
pub enum InlineMarker {
    /// `**text**`, bold.
    DoubleStar,
    /// `__text__`, bold.
    DoubleUnderscore,
    /// `*text*`, italic.
    Star,
    /// `_text_`, italic.
    Underscore,
    /// `~~text~~`, strike-through.
    DoubleTilde,
    /// `` `text` ``, code.
    Backtick,
}

/// The byte that a marker repeats.
pub open spec fn marker_byte(mk: InlineMarker) -> u8 {
    match mk {
        InlineMarker::DoubleStar | InlineMarker::Star => 42,  // '*'
        InlineMarker::DoubleUnderscore | InlineMarker::Underscore => 95,  // '_'
        InlineMarker::DoubleTilde => 126,  // '~'
        InlineMarker::Backtick => 96,  // '`'
    }
}

/// The length of a marker in bytes.
pub open spec fn marker_len(mk: InlineMarker) -> nat {
    match mk {
        InlineMarker::DoubleStar | InlineMarker::DoubleUnderscore | InlineMarker::DoubleTilde => 2,
        _ => 1,
    }
}

/// Single `*` and `_` markers skip a doubled marker, which means bold.
pub open spec fn skips_double(mk: InlineMarker) -> bool {
    mk == InlineMarker::Star || mk == InlineMarker::Underscore
}

/// The style that text between two markers gets.
pub open spec fn marker_style(mk: InlineMarker) -> SpanStyle {
    match mk {
        InlineMarker::DoubleStar | InlineMarker::DoubleUnderscore => SpanStyle::Bold,
        InlineMarker::Star | InlineMarker::Underscore => SpanStyle::Italic,
        InlineMarker::DoubleTilde => SpanStyle::Strike,
        InlineMarker::Backtick => SpanStyle::Code,
    }
}

/// Whether `k` copies of byte `c` stand at position `p` of `b`.
pub open spec fn run_at(b: Seq<u8>, c: u8, k: nat, p: int) -> bool {
    0 <= p && p + k <= b.len() && forall|j: int| p <= j < p + k ==> b[j] == c
}

/// The first position `p >= i` at which `run_at(b, c, k, p)` holds.
pub open spec fn first_run(b: Seq<u8>, c: u8, k: nat, i: int) -> Option<int>
    decreases b.len() - i,
{
    if i < 0 || i + k > b.len() {
        None
    } else if run_at(b, c, k, i) {
        Some(i)
    } else {
        first_run(b, c, k, i + 1)
    }
}

/// `first_run` finds the first run at or after `i`, and none is missed.
pub proof fn lemma_first_run(b: Seq<u8>, c: u8, k: nat, i: int)
    requires
        0 <= i,
    ensures
        first_run(b, c, k, i) matches Some(p) ==> i <= p && run_at(b, c, k, p),
        first_run(b, c, k, i) matches Some(p) ==> forall|q: int|
            i <= q < p ==> !run_at(b, c, k, q),
        first_run(b, c, k, i) is None ==> forall|q: int| i <= q ==> !run_at(b, c, k, q),
    decreases b.len() - i,
{
    if i + k > b.len() {
    } else if run_at(b, c, k, i) {
    } else {
        lemma_first_run(b, c, k, i + 1);
    }
}

/// The spans that scanning for marker `mk` from byte `i` produces: each
/// pair of markers around non-empty text yields the hidden opening marker,
/// the styled text and the hidden closing marker. A closing marker is the
/// first one after the opening marker. For `*` and `_`, a doubled marker
/// (bold) is skipped wherever an opening or closing marker is sought.
pub open spec fn inline_scan(b: Seq<u8>, mk: InlineMarker, i: int) -> Seq<Span>
    decreases b.len() - i,
{
    let c = marker_byte(mk);
    let k = marker_len(mk);
    if i < 0 || i >= b.len() || k == 0 {
        Seq::empty()
    } else {
        match first_run(b, c, k, i) {
            None => Seq::empty(),
            Some(ms) => {
                proof {
                    lemma_first_run(b, c, k, i);
                }
                if skips_double(mk) && run_at(b, c, 2, ms) {
                    inline_scan(b, mk, ms + 2)
                } else {
                    let cs = ms + k;
                    match first_run(b, c, k, cs) {
                        None => Seq::empty(),
                        Some(me) => {
                            proof {
                                lemma_first_run(b, c, k, cs);
                            }
                            if skips_double(mk) && run_at(b, c, 2, me) {
                                inline_scan(b, mk, me + 2)
                            } else if cs >= me {
                                inline_scan(b, mk, me + k)
                            } else {
                                seq![
                                    Span { start: ms as usize, end: cs as usize, style: SpanStyle::Hide },
                                    Span { start: cs as usize, end: me as usize, style: marker_style(mk) },
                                    Span { start: me as usize, end: (me + k) as usize, style: SpanStyle::Hide },
                                ] + inline_scan(b, mk, me + k)
                            }
                        },
                    }
                }
            },
        }
    }
}

/// The first position in `[p, le)` whose byte is not a space, if any.
pub open spec fn first_non_space(b: Seq<u8>, p: int, le: int) -> Option<int>
    decreases le - p,
{
    if p >= le {
        None
    } else if b[p] != 32 {
        Some(p)
    } else {
        first_non_space(b, p + 1, le)
    }
}

/// The end of the run of `#` bytes that starts at `p`, not beyond `le`.
pub open spec fn hash_run_end(b: Seq<u8>, p: int, le: int) -> int
    decreases le - p,
{
    if p >= le || b[p] != 35 {
        p
    } else {
        hash_run_end(b, p + 1, le)
    }
}

/// The style of a heading of the given level, for the levels that are styled.
pub open spec fn heading_style(level: int) -> SpanStyle {
    if level == 1 {
        SpanStyle::Heading1
    } else if level == 2 {
        SpanStyle::Heading2
    } else {
        SpanStyle::Heading3
    }
}

/// The spans of the line `[ls, le)`: for a heading of level 1 to 3 (after
/// leading spaces, one to three `#` and a space), the `#` marks and the
/// space are hidden and the rest of the line gets the heading style.
pub open spec fn heading_line(b: Seq<u8>, ls: int, le: int) -> Seq<Span> {
    if le <= ls || ls >= b.len() || le > b.len() || ls < 0 {
        Seq::empty()
    } else {
        match first_non_space(b, ls, le) {
            None => Seq::empty(),
            Some(cst) => {
                let pos = hash_run_end(b, cst, le);
                let level = pos - cst;
                if 1 <= level <= 3 && pos < le && b[pos] == 32 {
                    seq![Span { start: cst as usize, end: (pos + 1) as usize, style: SpanStyle::Hide }]
                        + if pos + 1 < le {
                        seq![
                            Span {
                                start: (pos + 1) as usize,
                                end: le as usize,
                                style: heading_style(level),
                            },
                        ]
                    } else {
                        Seq::empty()
                    }
                } else {
                    Seq::empty()
                }
            },
        }
    }
}

/// Whether byte `i` closes a line: it is a newline or the last byte.
pub open spec fn ends_line(b: Seq<u8>, i: int) -> bool {
    b[i] == 10 || i == b.len() - 1
}

/// The heading spans of the lines that start at or after byte `i`, where the
/// current line started at `ls` and has index `line`; the line with index
/// `cursor_line` is left raw. A line ends at a newline, which it excludes,
/// or at the last byte, which it includes.
pub open spec fn heading_scan(b: Seq<u8>, cursor_line: int, i: int, ls: int, line: int) -> Seq<
    Span,
>
    decreases b.len() - i,
{
    if i < 0 || i >= b.len() {
        Seq::empty()
    } else if ends_line(b, i) {
        let le = if i == b.len() - 1 { i + 1 } else { i };
        (if line != cursor_line { heading_line(b, ls, le) } else { Seq::empty() })
            + heading_scan(b, cursor_line, i + 1, i + 1, line + 1)
    } else {
        heading_scan(b, cursor_line, i + 1, ls, line)
    }
}

/// All spans of the inline preview of the text with bytes `b`, when the
/// cursor stands on line `cursor_line`: first the headings of every line but
/// the cursor's, then the inline markers in the order `**`, `__`, `*`, `_`,
/// `~~`, `` ` ``. An empty text has none.
pub open spec fn live_spans(b: Seq<u8>, cursor_line: int) -> Seq<Span> {
    if b.len() == 0 {
        Seq::empty()
    } else {
        heading_scan(b, cursor_line, 0, 0, 0) + inline_scan(b, InlineMarker::DoubleStar, 0)
            + inline_scan(b, InlineMarker::DoubleUnderscore, 0) + inline_scan(
            b,
            InlineMarker::Star,
            0,
        ) + inline_scan(b, InlineMarker::Underscore, 0) + inline_scan(
            b,
            InlineMarker::DoubleTilde,
            0,
        ) + inline_scan(b, InlineMarker::Backtick, 0)
    }
}

fn exec_marker_byte(mk: InlineMarker) -> (c: u8)
    ensures
        c == marker_byte(mk),
{
    match mk {
        InlineMarker::DoubleStar | InlineMarker::Star => 42,
        InlineMarker::DoubleUnderscore | InlineMarker::Underscore => 95,
        InlineMarker::DoubleTilde => 126,
        InlineMarker::Backtick => 96,
    }
}

fn exec_marker_len(mk: InlineMarker) -> (k: usize)
    ensures
        k == marker_len(mk),
        1 <= k <= 2,
{
    match mk {
        InlineMarker::DoubleStar | InlineMarker::DoubleUnderscore | InlineMarker::DoubleTilde => 2,
        _ => 1,
    }
}

fn exec_marker_style(mk: InlineMarker) -> (st: SpanStyle)
    ensures
        st == marker_style(mk),
{
    match mk {
        InlineMarker::DoubleStar | InlineMarker::DoubleUnderscore => SpanStyle::Bold,
        InlineMarker::Star | InlineMarker::Underscore => SpanStyle::Italic,
        InlineMarker::DoubleTilde => SpanStyle::Strike,
        InlineMarker::Backtick => SpanStyle::Code,
    }
}

fn exec_run_at(b: &Vec<u8>, c: u8, k: usize, p: usize) -> (r: bool)
    requires
        1 <= k <= 2,
    ensures
        r == run_at(b@, c, k as nat, p as int),
{
    if p >= b.len() || b.len() - p < k {
        return false;
    }
    if k == 1 {
        b[p] == c
    } else {
        let r = b[p] == c && b[p + 1] == c;
        assert(r == run_at(b@, c, k as nat, p as int)) by {
            if r {
                assert forall|j: int| p <= j < p + k implies b@[j] == c by {
                    if j > p {
                        assert(j == p + 1);
                    }
                }
            }
        }
        r
    }
}

fn find_run(b: &Vec<u8>, c: u8, k: usize, from: usize) -> (r: Option<usize>)
    requires
        1 <= k <= 2,
    ensures
        match r {
            Some(p) => first_run(b@, c, k as nat, from as int) == Some(p as int),
            None => first_run(b@, c, k as nat, from as int) is None,
        },
{
    let n = b.len();
    let mut p = from;
    while p < n && n - p >= k
        invariant
            n == b@.len(),
            1 <= k <= 2,
            from <= p,
            first_run(b@, c, k as nat, from as int) == first_run(b@, c, k as nat, p as int),
        decreases n - p,
    {
        if exec_run_at(b, c, k, p) {
            return Some(p);
        }
        p = p + 1;
    }
    None
}

fn scan_inline(b: &Vec<u8>, mk: InlineMarker, out: &mut Vec<Span>)
    ensures
        final(out)@ == old(out)@ + inline_scan(b@, mk, 0),
{
    let n = b.len();
    let c = exec_marker_byte(mk);
    let k = exec_marker_len(mk);
    let single = match mk {
        InlineMarker::Star | InlineMarker::Underscore => true,
        _ => false,
    };
    let style = exec_marker_style(mk);
    let mut i: usize = 0;
    let ghost start = out@;
    while i < n
        invariant
            n == b@.len(),
            c == marker_byte(mk),
            k == marker_len(mk),
            1 <= k <= 2,
            single == skips_double(mk),
            style == marker_style(mk),
            start == old(out)@,
            out@ + inline_scan(b@, mk, i as int) == start + inline_scan(b@, mk, 0),
        decreases n - i,
    {
        let ghost prev = out@;
        let open = find_run(b, c, k, i);
        proof {
            lemma_first_run(b@, c, k as nat, i as int);
        }
        match open {
            None => {
                assert(inline_scan(b@, mk, i as int) =~= Seq::<Span>::empty());
                assert(out@ =~= start + inline_scan(b@, mk, 0));
                return;
            },
            Some(ms) => {
                if single && exec_run_at(b, c, 2, ms) {
                    i = ms + 2;
                    continue;
                }
                let cs = ms + k;
                let close = find_run(b, c, k, cs);
                proof {
                    lemma_first_run(b@, c, k as nat, cs as int);
                }
                match close {
                    None => {
                        assert(inline_scan(b@, mk, i as int) =~= Seq::<Span>::empty());
                        assert(out@ =~= start + inline_scan(b@, mk, 0));
                        return;
                    },
                    Some(me) => {
                        if single && exec_run_at(b, c, 2, me) {
                            i = me + 2;
                            continue;
                        }
                        if cs >= me {
                            i = me + k;
                            continue;
                        }
                        out.push(Span { start: ms, end: cs, style: SpanStyle::Hide });
                        out.push(Span { start: cs, end: me, style: style });
                        out.push(Span { start: me, end: me + k, style: SpanStyle::Hide });
                        let ghost three = seq![
                            Span { start: ms, end: cs, style: SpanStyle::Hide },
                            Span { start: cs, end: me, style: style },
                            Span { start: me, end: (me + k) as usize, style: SpanStyle::Hide },
                        ];
                        assert(out@ =~= prev + three);
                        assert(inline_scan(b@, mk, i as int) == three + inline_scan(
                            b@,
                            mk,
                            me + k,
                        ));
                        assert(prev + inline_scan(b@, mk, i as int) =~= out@ + inline_scan(
                            b@,
                            mk,
                            me + k,
                        ));
                        i = me + k;
                    },
                }
            },
        }
    }
    assert(inline_scan(b@, mk, i as int) =~= Seq::<Span>::empty());
    assert(out@ =~= start + inline_scan(b@, mk, 0));
}

fn heading_line_spans(b: &Vec<u8>, ls: usize, le: usize, out: &mut Vec<Span>)
    ensures
        final(out)@ == old(out)@ + heading_line(b@, ls as int, le as int),
{
    let n = b.len();
    if le <= ls || ls >= n || le > n {
        assert(heading_line(b@, ls as int, le as int) =~= Seq::<Span>::empty());
        assert(out@ =~= old(out)@ + heading_line(b@, ls as int, le as int));
        return;
    }
    let mut p = ls;
    while p < le && b[p] == 32
        invariant
            ls <= p <= le,
            le <= n,
            n == b@.len(),
            first_non_space(b@, ls as int, le as int) == first_non_space(b@, p as int, le as int),
        decreases le - p,
    {
        p = p + 1;
    }
    if p >= le {
        assert(heading_line(b@, ls as int, le as int) =~= Seq::<Span>::empty());
        assert(out@ =~= old(out)@ + heading_line(b@, ls as int, le as int));
        return;
    }
    let cst = p;
    assert(first_non_space(b@, ls as int, le as int) == Some(cst as int));
    let mut pos = cst;
    while pos < le && b[pos] == 35
        invariant
            cst <= pos <= le,
            le <= n,
            n == b@.len(),
            hash_run_end(b@, cst as int, le as int) == hash_run_end(b@, pos as int, le as int),
        decreases le - pos,
    {
        pos = pos + 1;
    }
    assert(hash_run_end(b@, cst as int, le as int) == pos as int);
    let level = pos - cst;
    if level < 1 || level > 3 || pos >= le || b[pos] != 32 {
        assert(heading_line(b@, ls as int, le as int) =~= Seq::<Span>::empty());
        assert(out@ =~= old(out)@ + heading_line(b@, ls as int, le as int));
        return;
    }
    let style = if level == 1 {
        SpanStyle::Heading1
    } else if level == 2 {
        SpanStyle::Heading2
    } else {
        SpanStyle::Heading3
    };
    out.push(Span { start: cst, end: pos + 1, style: SpanStyle::Hide });
    if pos + 1 < le {
        out.push(Span { start: pos + 1, end: le, style: style });
    }
    assert(out@ =~= old(out)@ + heading_line(b@, ls as int, le as int));
}

fn heading_spans(b: &Vec<u8>, cursor_line: i32, out: &mut Vec<Span>)
    ensures
        final(out)@ == old(out)@ + heading_scan(b@, cursor_line as int, 0, 0, 0),
{
    let n = b.len();
    let mut ls: usize = 0;
    let mut line: usize = 0;
    let mut i: usize = 0;
    let ghost start = out@;
    while i < n
        invariant
            n == b@.len(),
            start == old(out)@,
            ls <= i <= n,
            line <= i,
            out@ + heading_scan(b@, cursor_line as int, i as int, ls as int, line as int) == start
                + heading_scan(b@, cursor_line as int, 0, 0, 0),
        decreases n - i,
    {
        let ghost prev = out@;
        if b[i] == 10 || i == n - 1 {
            let le = if i == n - 1 { i + 1 } else { i };
            if cursor_line < 0 || line != cursor_line as usize {
                heading_line_spans(b, ls, le, out);
            }
            let ghost mid = if line != cursor_line as int {
                heading_line(b@, ls as int, le as int)
            } else {
                Seq::empty()
            };
            assert(out@ =~= prev + mid);
            assert(heading_scan(b@, cursor_line as int, i as int, ls as int, line as int) == mid
                + heading_scan(b@, cursor_line as int, i + 1, i + 1, line + 1));
            ls = i + 1;
            line = line + 1;
        }
        i = i + 1;
    }
    assert(heading_scan(b@, cursor_line as int, i as int, ls as int, line as int) =~= Seq::<
        Span,
    >::empty());
    assert(out@ =~= start + heading_scan(b@, cursor_line as int, 0, 0, 0));
}

/// The spans of the inline preview of `text` with the cursor on line
/// `cursor_line` (counted from 0), in the order in which the editor applies
/// them. Offsets are byte offsets into `text`.
pub fn live_preview_byte_spans(text: &str, cursor_line: i32) -> (spans: Vec<Span>)
    ensures
        spans@ == live_spans(text.spec_bytes(), cursor_line as int),
{
    let b = text.as_bytes_vec();
    let mut out: Vec<Span> = Vec::new();
    if b.len() == 0 {
        assert(out@ =~= live_spans(b@, cursor_line as int));
        return out;
    }
    heading_spans(&b, cursor_line, &mut out);
    scan_inline(&b, InlineMarker::DoubleStar, &mut out);
    scan_inline(&b, InlineMarker::DoubleUnderscore, &mut out);
    scan_inline(&b, InlineMarker::Star, &mut out);
    scan_inline(&b, InlineMarker::Underscore, &mut out);
    scan_inline(&b, InlineMarker::DoubleTilde, &mut out);
    scan_inline(&b, InlineMarker::Backtick, &mut out);
    assert(out@ =~= live_spans(b@, cursor_line as int));
    out
}

/// A span with its byte offsets into `b` turned into character offsets.
pub open spec fn char_span(b: Seq<u8>, sp: Span) -> Span {
    Span {
        start: char_index(b, sp.start as int) as usize,
        end: char_index(b, sp.end as int) as usize,
        style: sp.style,
    }
}

/// The spans of the live preview with character offsets, as the editor's
/// text buffer counts them.
pub open spec fn live_char_spans(b: Seq<u8>, cursor_line: int) -> Seq<Span> {
    live_spans(b, cursor_line).map_values(|sp: Span| char_span(b, sp))
}

proof fn lemma_char_index_bound(b: Seq<u8>, p: int)
    requires
        0 <= p,
    ensures
        char_index(b, p) <= p,
    decreases p,
{
    if p > 0 {
        lemma_char_index_bound(b, p - 1);
    }
}

/// The character index of every byte offset `0..=b.len()` of `b`.
fn char_index_table(b: &Vec<u8>) -> (t: Vec<usize>)
    ensures
        t@.len() == b@.len() + 1,
        forall|p: int| 0 <= p <= b@.len() ==> t@[p] == char_index(b@, p),
{
    let n = b.len();
    let mut t: Vec<usize> = Vec::new();
    let mut count: usize = 0;
    let mut p: usize = 0;
    t.push(0);
    while p < n
        invariant
            n == b@.len(),
            p <= n,
            count == char_index(b@, p as int),
            count <= p,
            t@.len() == p + 1,
            forall|q: int| 0 <= q <= p ==> t@[q] == char_index(b@, q),
        decreases n - p,
    {
        if !(0x80 <= b[p] && b[p] <= 0xBF) {
            count = count + 1;
        }
        p = p + 1;
        t.push(count);
    }
    t
}

/// The spans of the inline preview of `text` with the cursor on line
/// `cursor_line` (counted from 0), in the order in which the editor applies
/// them. Offsets are character offsets into `text`: the byte offsets of
/// `live_spans` under `char_index`.
pub fn live_preview_spans(text: &str, cursor_line: i32) -> (spans: Vec<Span>)
    ensures
        spans@ == live_char_spans(text.spec_bytes(), cursor_line as int),
{
    let bytes = live_preview_byte_spans(text, cursor_line);
    let b = text.as_bytes_vec();
    let ghost bs = b@;
    proof {
        lemma_live_spans_in_text(bs, cursor_line as int);
    }
    let table = char_index_table(&b);
    let mut out: Vec<Span> = Vec::new();
    let mut i: usize = 0;
    while i < bytes.len()
        invariant
            bs == b@,
            bytes@ == live_spans(bs, cursor_line as int),
            table@.len() == bs.len() + 1,
            forall|p: int| 0 <= p <= bs.len() ==> table@[p] == char_index(bs, p),
            forall|j: int| 0 <= j < bytes@.len() ==> span_in_text(#[trigger] bytes@[j], bs.len() as int),
            i <= bytes@.len(),
            out@ == live_char_spans(bs, cursor_line as int).take(i as int),
        decreases bytes@.len() - i,
    {
        let sp = bytes[i];
        assert(span_in_text(bytes@[i as int], bs.len() as int));
        let c = Span { start: table[sp.start], end: table[sp.end], style: sp.style };
        proof {
            lemma_char_index_bound(bs, sp.start as int);
            lemma_char_index_bound(bs, sp.end as int);
        }
        assert(c == char_span(bs, sp));
        out.push(c);
        assert(out@ =~= live_char_spans(bs, cursor_line as int).take(i + 1));
        i = i + 1;
    }
    assert(out@ =~= live_char_spans(bs, cursor_line as int));
    out
}

/// A span that scanning for marker `mk` may produce: a hidden marker, or
/// non-empty text in the marker's style with a marker right before and
/// right after it.
pub open spec fn inline_span_ok(b: Seq<u8>, mk: InlineMarker, sp: Span) -> bool {
    let c = marker_byte(mk);
    let k = marker_len(mk);
    if sp.style == SpanStyle::Hide {
        run_at(b, c, k, sp.start as int) && sp.end == sp.start + k
    } else {
        &&& sp.style == marker_style(mk)
        &&& sp.start < sp.end
        &&& run_at(b, c, k, sp.start - k)
        &&& run_at(b, c, k, sp.end as int)
    }
}

/// Whether `sp` is a non-empty range of a text of `n` bytes.
pub open spec fn span_in_text(sp: Span, n: int) -> bool {
    sp.start < sp.end <= n
}

proof fn lemma_inline_scan_ok(b: Seq<u8>, mk: InlineMarker, i: int)
    requires
        b.len() <= usize::MAX,
        0 <= i,
    ensures
        forall|j: int|
            0 <= j < inline_scan(b, mk, i).len() ==> {
                &&& inline_span_ok(b, mk, #[trigger] inline_scan(b, mk, i)[j])
                &&& span_in_text(inline_scan(b, mk, i)[j], b.len() as int)
            },
    decreases b.len() - i,
{
    let c = marker_byte(mk);
    let k = marker_len(mk);
    if i >= b.len() || k == 0 {
    } else {
        lemma_first_run(b, c, k, i);
        match first_run(b, c, k, i) {
            None => {
                assert(inline_scan(b, mk, i).len() == 0);
            },
            Some(ms) => {
                if skips_double(mk) && run_at(b, c, 2, ms) {
                    lemma_inline_scan_ok(b, mk, ms + 2);
                    assert(inline_scan(b, mk, i) == inline_scan(b, mk, ms + 2));
                } else {
                    let cs = ms + k;
                    lemma_first_run(b, c, k, cs);
                    match first_run(b, c, k, cs) {
                        None => {
                            assert(inline_scan(b, mk, i).len() == 0);
                        },
                        Some(me) => {
                            if skips_double(mk) && run_at(b, c, 2, me) {
                                lemma_inline_scan_ok(b, mk, me + 2);
                                assert(inline_scan(b, mk, i) == inline_scan(b, mk, me + 2));
                            } else if cs >= me {
                                lemma_inline_scan_ok(b, mk, me + k);
                                assert(inline_scan(b, mk, i) == inline_scan(b, mk, me + k));
                            } else {
                                lemma_inline_scan_ok(b, mk, me + k);
                                let three = seq![
                                    Span { start: ms as usize, end: cs as usize, style: SpanStyle::Hide },
                                    Span { start: cs as usize, end: me as usize, style: marker_style(mk) },
                                    Span { start: me as usize, end: (me + k) as usize, style: SpanStyle::Hide },
                                ];
                                let rest = inline_scan(b, mk, me + k);
                                assert(inline_scan(b, mk, i) == three + rest);
                                assert(marker_style(mk) != SpanStyle::Hide);
                                assert forall|j: int| 0 <= j < (three + rest).len() implies {
                                    &&& inline_span_ok(b, mk, #[trigger] (three + rest)[j])
                                    &&& span_in_text((three + rest)[j], b.len() as int)
                                } by {
                                    if j >= 3 {
                                        assert((three + rest)[j] == rest[j - 3]);
                                    }
                                }
                            }
                        },
                    }
                }
            },
        }
    }
}

/// Scanning for an inline marker hides only marker bytes and styles only
/// non-empty text that has the marker right before and right after it;
/// every span it yields is a non-empty range inside the text.
pub proof fn lemma_inline_spans_enclosed(b: Seq<u8>, mk: InlineMarker)
    requires
        b.len() <= usize::MAX,
    ensures
        forall|j: int|
            0 <= j < inline_scan(b, mk, 0).len() ==> {
                &&& inline_span_ok(b, mk, #[trigger] inline_scan(b, mk, 0)[j])
                &&& span_in_text(inline_scan(b, mk, 0)[j], b.len() as int)
            },
{
    lemma_inline_scan_ok(b, mk, 0);
}

proof fn lemma_inline_scan_ordered(b: Seq<u8>, mk: InlineMarker, i: int)
    requires
        b.len() <= usize::MAX,
        0 <= i,
    ensures
        forall|j: int|
            0 <= j < inline_scan(b, mk, i).len() ==> i <= (#[trigger] inline_scan(b, mk, i)[j]).start
                < inline_scan(b, mk, i)[j].end,
        forall|j: int, l: int|
            0 <= j < l < inline_scan(b, mk, i).len() ==> (#[trigger] inline_scan(b, mk, i)[j]).end
                <= (#[trigger] inline_scan(b, mk, i)[l]).start,
    decreases b.len() - i,
{
    let c = marker_byte(mk);
    let k = marker_len(mk);
    if i >= b.len() || k == 0 {
    } else {
        lemma_first_run(b, c, k, i);
        match first_run(b, c, k, i) {
            None => {},
            Some(ms) => {
                if skips_double(mk) && run_at(b, c, 2, ms) {
                    lemma_inline_scan_ordered(b, mk, ms + 2);
                    assert(inline_scan(b, mk, i) == inline_scan(b, mk, ms + 2));
                } else {
                    let cs = ms + k;
                    lemma_first_run(b, c, k, cs);
                    match first_run(b, c, k, cs) {
                        None => {},
                        Some(me) => {
                            if skips_double(mk) && run_at(b, c, 2, me) {
                                lemma_inline_scan_ordered(b, mk, me + 2);
                                assert(inline_scan(b, mk, i) == inline_scan(b, mk, me + 2));
                            } else if cs >= me {
                                lemma_inline_scan_ordered(b, mk, me + k);
                                assert(inline_scan(b, mk, i) == inline_scan(b, mk, me + k));
                            } else {
                                lemma_inline_scan_ordered(b, mk, me + k);
                                let three = seq![
                                    Span { start: ms as usize, end: cs as usize, style: SpanStyle::Hide },
                                    Span { start: cs as usize, end: me as usize, style: marker_style(mk) },
                                    Span { start: me as usize, end: (me + k) as usize, style: SpanStyle::Hide },
                                ];
                                let rest = inline_scan(b, mk, me + k);
                                let all = three + rest;
                                assert(inline_scan(b, mk, i) == all);
                                assert forall|j: int| 0 <= j < all.len() implies i <= (
                                #[trigger] all[j]).start < all[j].end by {
                                    if j >= 3 {
                                        assert(all[j] == rest[j - 3]);
                                    }
                                }
                                assert forall|j: int, l: int|
                                    0 <= j < l < all.len() implies (#[trigger] all[j]).end <= (
                                #[trigger] all[l]).start by {
                                    if j >= 3 {
                                        assert(all[j] == rest[j - 3]);
                                        assert(all[l] == rest[l - 3]);
                                    } else if l >= 3 {
                                        assert(all[l] == rest[l - 3]);
                                        assert(rest[l - 3].start >= me + k);
                                    }
                                }
                            }
                        },
                    }
                }
            },
        }
    }
}

/// One inline-marker pass yields its spans in order and without overlap:
/// each span is non-empty and starts at or after the end of every span
/// before it. So a closing marker is never taken again as an opening one,
/// and the text between two marked pairs is never styled.
pub proof fn lemma_inline_spans_disjoint(b: Seq<u8>, mk: InlineMarker)
    requires
        b.len() <= usize::MAX,
    ensures
        forall|j: int|
            0 <= j < inline_scan(b, mk, 0).len() ==> (#[trigger] inline_scan(b, mk, 0)[j]).start
                < inline_scan(b, mk, 0)[j].end,
        forall|j: int, l: int|
            0 <= j < l < inline_scan(b, mk, 0).len() ==> (#[trigger] inline_scan(b, mk, 0)[j]).end
                <= (#[trigger] inline_scan(b, mk, 0)[l]).start,
{
    lemma_inline_scan_ordered(b, mk, 0);
}

/// The number of newline bytes in `b`.
pub open spec fn newline_count(b: Seq<u8>) -> nat
    decreases b.len(),
{
    if b.len() == 0 {
        0
    } else {
        newline_count(b.drop_last()) + if b.last() == 10 { 1nat } else { 0nat }
    }
}

/// The index, counted from 0, of the line that holds byte `p` of `b`.
pub open spec fn line_of(b: Seq<u8>, p: int) -> nat {
    newline_count(b.take(p))
}

proof fn lemma_line_of_no_newline(b: Seq<u8>, ls: int, p: int)
    requires
        0 <= ls <= p <= b.len(),
        forall|q: int| ls <= q < p ==> b[q] != 10,
    ensures
        line_of(b, p) == line_of(b, ls),
    decreases p - ls,
{
    if p > ls {
        lemma_line_of_no_newline(b, ls, p - 1);
        assert(b.take(p).drop_last() =~= b.take(p - 1));
        assert(b.take(p).last() == b[p - 1]);
    }
}

proof fn lemma_heading_line_in(b: Seq<u8>, ls: int, le: int)
    requires
        b.len() <= usize::MAX,
    ensures
        forall|j: int|
            0 <= j < heading_line(b, ls, le).len() ==> ls <= (#[trigger] heading_line(
                b,
                ls,
                le,
            )[j]).start < heading_line(b, ls, le)[j].end <= le,
{
    if le <= ls || ls >= b.len() || le > b.len() || ls < 0 {
    } else {
        lemma_first_non_space(b, ls, le);
        match first_non_space(b, ls, le) {
            None => {},
            Some(cst) => {
                lemma_hash_run_end(b, cst, le);
                let pos = hash_run_end(b, cst, le);
                let hl = heading_line(b, ls, le);
                assert forall|j: int| 0 <= j < hl.len() implies ls <= (#[trigger] hl[j]).start
                    < hl[j].end <= le by {
                    if j == 0 {
                        assert(hl[0].start == cst && hl[0].end == pos + 1);
                    } else {
                        assert(hl[1].start == pos + 1 && hl[1].end == le);
                    }
                }
            },
        }
    }
}

proof fn lemma_first_non_space(b: Seq<u8>, p: int, le: int)
    ensures
        first_non_space(b, p, le) matches Some(q) ==> p <= q < le,
    decreases le - p,
{
    if p < le && b[p] == 32 {
        lemma_first_non_space(b, p + 1, le);
    }
}

proof fn lemma_hash_run_end(b: Seq<u8>, p: int, le: int)
    requires
        p <= le,
    ensures
        p <= hash_run_end(b, p, le) <= le,
    decreases le - p,
{
    if p < le && b[p] == 35 {
        lemma_hash_run_end(b, p + 1, le);
    }
}

proof fn lemma_heading_scan_ok(b: Seq<u8>, cursor_line: int, i: int, ls: int, line: int)
    requires
        b.len() <= usize::MAX,
        0 <= ls <= i <= b.len(),
        line == line_of(b, ls),
        forall|q: int| ls <= q < i ==> b[q] != 10,
    ensures
        forall|j: int|
            0 <= j < heading_scan(b, cursor_line, i, ls, line).len() ==> {
                &&& span_in_text(
                    #[trigger] heading_scan(b, cursor_line, i, ls, line)[j],
                    b.len() as int,
                )
                &&& line_of(b, heading_scan(b, cursor_line, i, ls, line)[j].start as int)
                    != cursor_line
            },
    decreases b.len() - i,
{
    if i >= b.len() {
    } else if ends_line(b, i) {
        let le = if i == b.len() - 1 { i + 1 } else { i };
        let mid = if line != cursor_line { heading_line(b, ls, le) } else { Seq::empty() };
        let rest = heading_scan(b, cursor_line, i + 1, i + 1, line + 1);
        assert(heading_scan(b, cursor_line, i, ls, line) == mid + rest);
        lemma_heading_line_in(b, ls, le);
        if i + 1 < b.len() {
            assert(b[i] == 10);
            assert(b.take(i + 1).drop_last() =~= b.take(i));
            lemma_line_of_no_newline(b, ls, i);
            lemma_heading_scan_ok(b, cursor_line, i + 1, i + 1, line + 1);
        } else {
            assert(rest.len() == 0);
        }
        assert forall|j: int| 0 <= j < (mid + rest).len() implies {
            &&& span_in_text(#[trigger] (mid + rest)[j], b.len() as int)
            &&& line_of(b, (mid + rest)[j].start as int) != cursor_line
        } by {
            if j < mid.len() {
                let sp = mid[j];
                assert(ls <= sp.start < sp.end <= le);
                lemma_line_of_no_newline(b, ls, sp.start as int);
            } else {
                assert((mid + rest)[j] == rest[j - mid.len()]);
            }
        }
    } else {
        lemma_heading_scan_ok(b, cursor_line, i + 1, ls, line);
    }
}

/// The spans of the heading pass of the live preview.
pub open spec fn heading_spans_of(b: Seq<u8>, cursor_line: int) -> Seq<Span> {
    heading_scan(b, cursor_line, 0, 0, 0)
}

/// The heading pass leaves the line that holds the cursor raw: no span it
/// yields starts on that line, and every span is a non-empty range inside
/// the text.
pub proof fn lemma_cursor_line_stays_raw(b: Seq<u8>, cursor_line: int)
    requires
        b.len() <= usize::MAX,
    ensures
        forall|j: int|
            0 <= j < heading_spans_of(b, cursor_line).len() ==> {
                &&& span_in_text(#[trigger] heading_spans_of(b, cursor_line)[j], b.len() as int)
                &&& line_of(b, heading_spans_of(b, cursor_line)[j].start as int) != cursor_line
            },
{
    assert(b.take(0).len() == 0);
    lemma_heading_scan_ok(b, cursor_line, 0, 0, 0);
}

/// Every span of the live preview is a non-empty range inside the text.
pub proof fn lemma_live_spans_in_text(b: Seq<u8>, cursor_line: int)
    requires
        b.len() <= usize::MAX,
    ensures
        forall|j: int|
            0 <= j < live_spans(b, cursor_line).len() ==> span_in_text(
                #[trigger] live_spans(b, cursor_line)[j],
                b.len() as int,
            ),
{
    if b.len() > 0 {
        lemma_cursor_line_stays_raw(b, cursor_line);
        lemma_inline_spans_enclosed(b, InlineMarker::DoubleStar);
        lemma_inline_spans_enclosed(b, InlineMarker::DoubleUnderscore);
        lemma_inline_spans_enclosed(b, InlineMarker::Star);
        lemma_inline_spans_enclosed(b, InlineMarker::Underscore);
        lemma_inline_spans_enclosed(b, InlineMarker::DoubleTilde);
        lemma_inline_spans_enclosed(b, InlineMarker::Backtick);
        let n = b.len() as int;
        let s0 = heading_spans_of(b, cursor_line);
        let s1 = s0 + inline_scan(b, InlineMarker::DoubleStar, 0);
        lemma_concat_in_text(s0, inline_scan(b, InlineMarker::DoubleStar, 0), n);
        let s2 = s1 + inline_scan(b, InlineMarker::DoubleUnderscore, 0);
        lemma_concat_in_text(s1, inline_scan(b, InlineMarker::DoubleUnderscore, 0), n);
        let s3 = s2 + inline_scan(b, InlineMarker::Star, 0);
        lemma_concat_in_text(s2, inline_scan(b, InlineMarker::Star, 0), n);
        let s4 = s3 + inline_scan(b, InlineMarker::Underscore, 0);
        lemma_concat_in_text(s3, inline_scan(b, InlineMarker::Underscore, 0), n);
        let s5 = s4 + inline_scan(b, InlineMarker::DoubleTilde, 0);
        lemma_concat_in_text(s4, inline_scan(b, InlineMarker::DoubleTilde, 0), n);
        let s6 = s5 + inline_scan(b, InlineMarker::Backtick, 0);
        lemma_concat_in_text(s5, inline_scan(b, InlineMarker::Backtick, 0), n);
        assert(live_spans(b, cursor_line) == s6);
    }
}

proof fn lemma_concat_in_text(a: Seq<Span>, b: Seq<Span>, n: int)
    requires
        forall|j: int| 0 <= j < a.len() ==> span_in_text(#[trigger] a[j], n),
        forall|j: int| 0 <= j < b.len() ==> span_in_text(#[trigger] b[j], n),
    ensures
        forall|j: int| 0 <= j < (a + b).len() ==> span_in_text(#[trigger] (a + b)[j], n),
{
    assert forall|j: int| 0 <= j < (a + b).len() implies span_in_text(#[trigger] (a + b)[j], n) by {
        if j >= a.len() {
            assert((a + b)[j] == b[j - a.len()]);
        } else {
            assert((a + b)[j] == a[j]);
        }
    }
}

/// Whether byte `c` is one of the Markdown marks that the live preview
/// reacts to: `#`, `*`, `_`, `~` or `` ` ``.
pub open spec fn is_mark_byte(c: u8) -> bool {
    c == 35 || c == 42 || c == 95 || c == 126 || c == 96
}

proof fn lemma_no_mark_no_inline(b: Seq<u8>, mk: InlineMarker, i: int)
    requires
        0 <= i,
        forall|j: int| 0 <= j < b.len() ==> !is_mark_byte(#[trigger] b[j]),
    ensures
        inline_scan(b, mk, i).len() == 0,
{
    let c = marker_byte(mk);
    let k = marker_len(mk);
    if i < b.len() {
        lemma_first_run(b, c, k, i);
        if let Some(p) = first_run(b, c, k, i) {
            assert(b[p] == c);
        }
    }
}

proof fn lemma_no_mark_no_heading(b: Seq<u8>, cursor_line: int, i: int, ls: int, line: int)
    requires
        0 <= i,
        forall|j: int| 0 <= j < b.len() ==> !is_mark_byte(#[trigger] b[j]),
    ensures
        heading_scan(b, cursor_line, i, ls, line).len() == 0,
    decreases b.len() - i,
{
    if i < b.len() {
        if ends_line(b, i) {
            let le = if i == b.len() - 1 { i + 1 } else { i };
            lemma_no_mark_no_heading(b, cursor_line, i + 1, i + 1, line + 1);
            if !(le <= ls || ls >= b.len() || le > b.len() || ls < 0) {
                lemma_first_non_space(b, ls, le);
                if let Some(cst) = first_non_space(b, ls, le) {
                    assert(b[cst] != 35);
                    assert(hash_run_end(b, cst, le) == cst);
                }
            }
            assert(heading_line(b, ls, le).len() == 0);
        } else {
            lemma_no_mark_no_heading(b, cursor_line, i + 1, ls, line);
        }
    }
}

/// Text without any of the marks `#`, `*`, `_`, `~` and `` ` `` is shown as
/// it is: the live preview hides and styles nothing in it.
pub proof fn lemma_plain_text_unstyled(b: Seq<u8>, cursor_line: int)
    requires
        forall|j: int| 0 <= j < b.len() ==> !is_mark_byte(#[trigger] b[j]),
    ensures
        live_spans(b, cursor_line).len() == 0,
{
    if b.len() > 0 {
        lemma_no_mark_no_heading(b, cursor_line, 0, 0, 0);
        lemma_no_mark_no_inline(b, InlineMarker::DoubleStar, 0);
        lemma_no_mark_no_inline(b, InlineMarker::DoubleUnderscore, 0);
        lemma_no_mark_no_inline(b, InlineMarker::Star, 0);
        lemma_no_mark_no_inline(b, InlineMarker::Underscore, 0);
        lemma_no_mark_no_inline(b, InlineMarker::DoubleTilde, 0);
        lemma_no_mark_no_inline(b, InlineMarker::Backtick, 0);
    }
}

} // verus!
