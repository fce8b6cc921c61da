//! Document statistics shown in the status bar: words, characters,
//! sentences, paragraphs and the reading-time estimate.

use vstd::prelude::*;
use crate::text::{is_ws, is_whitespace, chars_of, decimal, decimal_string};
use vstd::string::StringExecFns;

verus! {

/// Whether a word (a maximal run of non-white-space characters) starts at `i`.
pub open spec fn starts_word(s: Seq<char>, i: int) -> bool {
    0 <= i < s.len() && !is_ws(s[i]) && (i == 0 || is_ws(s[i - 1]))
}

/// The number of words of `s`, as `str::split_whitespace` yields them.
pub open spec fn word_count(s: Seq<char>) -> nat
    decreases s.len(),
{
    if s.len() == 0 {
        0
    } else {
        word_count(s.drop_last()) + if starts_word(s, s.len() - 1) { 1nat } else { 0nat }
    }
}

/// Sentence terminators: `.`, `!` and `?`.
pub open spec fn is_terminator(c: char) -> bool {
    c == '.' || c == '!' || c == '?'
}

/// The number of sentence terminators in `s`.
pub open spec fn terminator_count(s: Seq<char>) -> nat
    decreases s.len(),
{
    if s.len() == 0 {
        0
    } else {
        terminator_count(s.drop_last()) + if is_terminator(s.last()) { 1nat } else { 0nat }
    }
}

/// Whether `s` holds a character that is not white space.
pub open spec fn non_blank(s: Seq<char>) -> bool {
    exists|i: int| 0 <= i < s.len() && !is_ws(#[trigger] s[i])
}

/// Whether a blank-line separator `"\n\n"` starts at the front of `s`.
pub open spec fn starts_with_blank_line(s: Seq<char>) -> bool {
    s.len() >= 2 && s[0] == '\n' && s[1] == '\n'
}

/// The pieces of `s` between the separators `"\n\n"`, matched from the left
/// without overlap, as `str::split("\n\n")` yields them.
pub open spec fn split_blank_lines(s: Seq<char>) -> Seq<Seq<char>>
    decreases s.len(),
{
    if s.len() == 0 {
        seq![Seq::<char>::empty()]
    } else if starts_with_blank_line(s) {
        seq![Seq::<char>::empty()] + split_blank_lines(s.skip(2))
    } else {
        let rest = split_blank_lines(s.skip(1));
        rest.update(0, seq![s[0]] + rest[0])
    }
}

/// The number of pieces of `ps` that are not blank.
pub open spec fn non_blank_count(ps: Seq<Seq<char>>) -> nat
    decreases ps.len(),
{
    if ps.len() == 0 {
        0
    } else {
        non_blank_count(ps.drop_last()) + if non_blank(ps.last()) { 1nat } else { 0nat }
    }
}

/// The number of paragraphs of `s`: the non-blank pieces between blank lines.
pub open spec fn paragraph_count(s: Seq<char>) -> nat {
    non_blank_count(split_blank_lines(s))
}

/// The reading time in whole minutes at 200 words a minute, rounded up.
pub open spec fn reading_minutes(words: nat) -> nat {
    if words % 200 == 0 { words / 200 } else { words / 200 + 1 }
}

/// The paragraphs counted while scanning `s`, where `open_non_blank` tells
/// whether the piece that `s` continues already holds a non-blank character.
spec fn paragraphs_from(s: Seq<char>, open_non_blank: bool) -> nat
    decreases s.len(),
{
    if s.len() == 0 {
        if open_non_blank { 1 } else { 0 }
    } else if starts_with_blank_line(s) {
        (if open_non_blank { 1nat } else { 0nat }) + paragraphs_from(s.skip(2), false)
    } else {
        paragraphs_from(s.skip(1), open_non_blank || !is_ws(s[0]))
    }
}

proof fn lemma_split_non_empty(s: Seq<char>)
    ensures
        split_blank_lines(s).len() >= 1,
    decreases s.len(),
{
    if s.len() == 0 {
    } else if starts_with_blank_line(s) {
        lemma_split_non_empty(s.skip(2));
    } else {
        lemma_split_non_empty(s.skip(1));
    }
}

proof fn lemma_non_blank_count_front(ps: Seq<Seq<char>>)
    requires
        ps.len() >= 1,
    ensures
        non_blank_count(ps) == (if non_blank(ps[0]) { 1nat } else { 0nat }) + non_blank_count(
            ps.drop_first(),
        ),
    decreases ps.len(),
{
    if ps.len() == 1 {
        assert(ps.drop_last().len() == 0);
        assert(ps.drop_first().len() == 0);
        assert(non_blank_count(ps.drop_last()) == 0);
        assert(non_blank_count(ps.drop_first()) == 0);
        assert(ps.last() == ps[0]);
    } else {
        lemma_non_blank_count_front(ps.drop_last());
        let t = ps.drop_first();
        assert(t.len() > 0);
        assert(ps.drop_last().drop_first() =~= t.drop_last());
        assert(t.last() == ps.last());
        assert(ps.drop_last()[0] == ps[0]);
        assert(non_blank_count(t) == non_blank_count(t.drop_last()) + if non_blank(t.last()) {
            1nat
        } else {
            0nat
        });
    }
}

proof fn lemma_paragraphs_from(s: Seq<char>, open_non_blank: bool)
    ensures
        split_blank_lines(s).len() >= 1,
        paragraphs_from(s, open_non_blank) == (if open_non_blank || non_blank(
            split_blank_lines(s)[0],
        ) { 1nat } else { 0nat }) + non_blank_count(split_blank_lines(s).drop_first()),
    decreases s.len(),
{
    lemma_split_non_empty(s);
    let e = Seq::<char>::empty();
    if s.len() == 0 {
        assert(!non_blank(e));
        assert(split_blank_lines(s).drop_first().len() == 0);
    } else if starts_with_blank_line(s) {
        lemma_paragraphs_from(s.skip(2), false);
        let rest = split_blank_lines(s.skip(2));
        assert(split_blank_lines(s)[0] == e);
        assert(!non_blank(e));
        assert(split_blank_lines(s).drop_first() =~= rest);
        lemma_non_blank_count_front(rest);
    } else {
        lemma_paragraphs_from(s.skip(1), open_non_blank || !is_ws(s[0]));
        let rest = split_blank_lines(s.skip(1));
        let first = seq![s[0]] + rest[0];
        assert(split_blank_lines(s)[0] == first);
        assert(split_blank_lines(s).drop_first() =~= rest.drop_first());
        if non_blank(first) {
            let i = choose|i: int| 0 <= i < first.len() && !is_ws(#[trigger] first[i]);
            if i > 0 {
                assert(rest[0][i - 1] == first[i]);
            }
        }
        if non_blank(rest[0]) {
            let i = choose|i: int| 0 <= i < rest[0].len() && !is_ws(#[trigger] rest[0][i]);
            assert(first[i + 1] == rest[0][i]);
        }
        if !is_ws(s[0]) {
            assert(first[0] == s[0]);
        }
    }
}

/// Counts words, characters, sentences and paragraphs of `text`, and the
/// reading time in minutes at 200 words a minute, rounded up.
///
/// Words are the maximal runs of non-white-space characters, sentences are
/// counted by their terminators `.`, `!` and `?`, and paragraphs are the
/// pieces between blank lines (`"\n\n"`) that hold more than white space.
pub fn count_stats(text: &str) -> (r: (usize, usize, usize, usize, usize))
    ensures
        r.0 == word_count(text@),
        r.1 == text@.len(),
        r.2 == terminator_count(text@),
        r.3 == paragraph_count(text@),
        r.4 == reading_minutes(word_count(text@)),
        r.0 <= r.1,
        r.2 <= r.1,
{
    let cs = chars_of(text);
    let n = cs.len();
    let ghost s = cs@;
    let mut words: usize = 0;
    let mut sentences: usize = 0;
    let mut i: usize = 0;
    while i < n
        invariant
            n == s.len(),
            s == cs@,
            i <= n,
            words == word_count(s.take(i as int)),
            sentences == terminator_count(s.take(i as int)),
            words <= i,
            sentences <= i,
        decreases n - i,
    {
        let c = cs[i];
        let ws = is_whitespace(c);
        let starts = !ws && (i == 0 || is_whitespace(cs[i - 1]));
        let ghost t = s.take(i + 1);
        assert(t.drop_last() =~= s.take(i as int));
        assert(starts == starts_word(t, i as int));
        if starts {
            words = words + 1;
        }
        if c == '.' || c == '!' || c == '?' {
            sentences = sentences + 1;
        }
        i = i + 1;
    }
    assert(s.take(n as int) =~= s);

    // Paragraphs: pieces between "\n\n" that hold a non-blank character.
    let mut paragraphs: usize = 0;
    let mut open_non_blank = false;
    let mut j: usize = 0;
    proof {
        lemma_paragraphs_from(s, false);
        assert(s.skip(0) =~= s);
    }
    while j < n
        invariant
            n == s.len(),
            s == cs@,
            j <= n,
            paragraphs + (if open_non_blank { 1nat } else { 0nat }) <= j,
            paragraphs + paragraphs_from(s.skip(j as int), open_non_blank) == paragraphs_from(
                s,
                false,
            ),
        decreases n - j,
    {
        let ghost t = s.skip(j as int);
        if j + 1 < n && cs[j] == '\n' && cs[j + 1] == '\n' {
            assert(starts_with_blank_line(t));
            assert(t.skip(2) =~= s.skip(j + 2));
            if open_non_blank {
                paragraphs = paragraphs + 1;
            }
            open_non_blank = false;
            j = j + 2;
        } else {
            assert(!starts_with_blank_line(t));
            assert(t.skip(1) =~= s.skip(j + 1));
            assert(t[0] == cs[j as int]);
            if !is_whitespace(cs[j]) {
                open_non_blank = true;
            }
            j = j + 1;
        }
    }
    if open_non_blank {
        paragraphs = paragraphs + 1;
    }
    proof {
        assert(s.skip(n as int).len() == 0);
        lemma_paragraphs_from(s, false);
        assert(!non_blank(split_blank_lines(s)[0]) || split_blank_lines(s).len() >= 1);
        lemma_non_blank_count_front(split_blank_lines(s));
    }
    let minutes = if words % 200 == 0 { words / 200 } else { words / 200 + 1 };
    (words, n, sentences, paragraphs, minutes)
}

/// The status-bar label for a word count: `"{words} words"`.
pub fn words_label(words: u64) -> (s: String)
    ensures
        s@ == decimal(words as nat) + " words"@,
{
    let mut s = decimal_string(words);
    s.append(" words");
    s
}

/// The status-bar label for a character count: `"{chars} chars"`.
pub fn chars_label(chars: u64) -> (s: String)
    ensures
        s@ == decimal(chars as nat) + " chars"@,
{
    let mut s = decimal_string(chars);
    s.append(" chars");
    s
}

/// The status-bar label for a reading time: `"{minutes} min read"`.
pub fn reading_label(minutes: u64) -> (s: String)
    ensures
        s@ == decimal(minutes as nat) + " min read"@,
{
    let mut s = decimal_string(minutes);
    s.append(" min read");
    s
}

/// The status-bar label for a cursor position: `"Ln {line}, Col {col}"`.
pub fn cursor_label(line: u64, col: u64) -> (s: String)
    ensures
        s@ == "Ln "@ + decimal(line as nat) + ", Col "@ + decimal(col as nat),
{
    let mut s = String::from_str("Ln ");
    let l = decimal_string(line);
    s.append(l.as_str());
    s.append(", Col ");
    let c = decimal_string(col);
    s.append(c.as_str());
    s
}

/// The status-bar label for the cursor at line `line` and character
/// `column` of that line, both counted from 0; the label counts from 1.
pub fn cursor_status(line: i32, column: i32) -> (s: String)
    requires
        0 <= line < i32::MAX,
        0 <= column < i32::MAX,
    ensures
        s@ == "Ln "@ + decimal((line + 1) as nat) + ", Col "@ + decimal((column + 1) as nat),
{
    cursor_label((line + 1) as u64, (column + 1) as u64)
}

} // verus!
