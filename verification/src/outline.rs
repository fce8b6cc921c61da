//! The document outline shown in the sidebar: the ATX headings of the text,
//! line by line, and the labels under which they are listed.

use vstd::prelude::*;
use crate::text::{is_ws, is_whitespace, chars_of, string_of};
use vstd::string::StringExecFns;

verus! {

/// The pieces of `s` between the occurrences of `sep`; there is one more
/// piece than there are separators.
pub open spec fn split_on(s: Seq<char>, sep: char) -> Seq<Seq<char>>
    decreases s.len(),
{
    if s.len() == 0 {
        seq![Seq::<char>::empty()]
    } else if s.last() == sep {
        split_on(s.drop_last(), sep).push(Seq::empty())
    } else {
        let r = split_on(s.drop_last(), sep);
        r.update(r.len() - 1, r.last().push(s.last()))
    }
}

proof fn lemma_split_on_len(s: Seq<char>, sep: char)
    ensures
        split_on(s, sep).len() >= 1,
    decreases s.len(),
{
    if s.len() > 0 {
        lemma_split_on_len(s.drop_last(), sep);
    }
}

/// The lines of `s` as `str::lines` yields them, before any trimming: the
/// pieces between newlines, where a final newline ends the last line rather
/// than starting an empty one, and an empty text has no line.
pub open spec fn text_lines(s: Seq<char>) -> Seq<Seq<char>> {
    if s.len() == 0 {
        Seq::empty()
    } else if s.last() == '\n' {
        split_on(s.drop_last(), '\n')
    } else {
        split_on(s, '\n')
    }
}

/// `s` without leading white space.
pub open spec fn trim_start(s: Seq<char>) -> Seq<char>
    decreases s.len(),
{
    if s.len() > 0 && is_ws(s[0]) {
        trim_start(s.drop_first())
    } else {
        s
    }
}

/// `s` without trailing white space.
pub open spec fn trim_end(s: Seq<char>) -> Seq<char>
    decreases s.len(),
{
    if s.len() > 0 && is_ws(s.last()) {
        trim_end(s.drop_last())
    } else {
        s
    }
}

/// `s` without leading and trailing white space, as `str::trim` gives it.
pub open spec fn trim(s: Seq<char>) -> Seq<char> {
    trim_end(trim_start(s))
}

/// The number of `#` characters at the front of `t`.
pub open spec fn hash_prefix(t: Seq<char>) -> nat
    decreases t.len(),
{
    if t.len() > 0 && t[0] == '#' {
        1 + hash_prefix(t.drop_first())
    } else {
        0
    }
}

/// The heading level of a trimmed line: one to five `#` followed by a space
/// and at least one more character.
pub open spec fn heading_level(t: Seq<char>) -> Option<nat> {
    let k = hash_prefix(t);
    if 0 < k && k < 6 && t.len() > k + 1 && t[k as int] == ' ' {
        Some(k)
    } else {
        None
    }
}

/// The outline entry of a line: the title (after the marks and the space),
/// the level and the line index.
pub open spec fn line_entry(line: Seq<char>, index: nat) -> Seq<(Seq<char>, nat, nat)> {
    let t = trim(line);
    match heading_level(t) {
        Some(k) => seq![(t.skip(k + 1 as int), k, index)],
        None => Seq::empty(),
    }
}

/// The outline entries of the lines `ls`, numbered from 0.
pub open spec fn outline_of_lines(ls: Seq<Seq<char>>) -> Seq<(Seq<char>, nat, nat)>
    decreases ls.len(),
{
    if ls.len() == 0 {
        Seq::empty()
    } else {
        outline_of_lines(ls.drop_last()) + line_entry(ls.last(), (ls.len() - 1) as nat)
    }
}

/// The outline of a text.
pub open spec fn outline(s: Seq<char>) -> Seq<(Seq<char>, nat, nat)> {
    outline_of_lines(text_lines(s))
}

/// A heading of the outline.
#[derive(Clone, Debug)]
pub struct OutlineEntry {
    pub title: String,
    pub level: u32,
    pub line: usize,
}

/// The plain value of an outline entry.
pub open spec fn entry_view(e: OutlineEntry) -> (Seq<char>, nat, nat) {
    (e.title@, e.level as nat, e.line as nat)
}

/// The plain values of a list of outline entries.
pub open spec fn entries_view(es: Seq<OutlineEntry>) -> Seq<(Seq<char>, nat, nat)> {
    es.map_values(|e: OutlineEntry| entry_view(e))
}

pub(crate) fn trim_bounds(line: &Vec<char>) -> (r: (usize, usize))
    ensures
        r.0 <= r.1 <= line@.len(),
        line@.subrange(r.0 as int, r.1 as int) == trim(line@),
{
    let n = line.len();
    let mut a: usize = 0;
    assert(line@.skip(0) =~= line@);
    while a < n && is_whitespace(line[a])
        invariant
            a <= n,
            n == line@.len(),
            trim_start(line@) == trim_start(line@.skip(a as int)),
        decreases n - a,
    {
        assert(line@.skip(a as int).drop_first() =~= line@.skip(a + 1));
        a = a + 1;
    }
    let ghost ts = line@.skip(a as int);
    assert(trim_start(ts) == ts);
    let mut b: usize = n;
    assert(ts.take(n - a) =~= ts);
    while b > a && is_whitespace(line[b - 1])
        invariant
            a <= b <= n,
            n == line@.len(),
            ts == line@.skip(a as int),
            trim_end(ts) == trim_end(ts.take(b - a)),
        decreases b,
    {
        assert(ts.take(b - a).drop_last() =~= ts.take(b - 1 - a));
        assert(ts.take(b - a).last() == line@[b - 1]);
        b = b - 1;
    }
    assert(ts.take(b - a) =~= line@.subrange(a as int, b as int));
    proof {
        let t = ts.take(b - a);
        if t.len() > 0 {
            assert(t.last() == line@[b - 1]);
        }
        assert(trim_end(t) == t);
    }
    (a, b)
}

proof fn lemma_hash_prefix_run(t: Seq<char>, k: nat)
    requires
        k <= t.len(),
        forall|j: int| 0 <= j < k ==> t[j] == '#',
        k == t.len() || t[k as int] != '#',
    ensures
        hash_prefix(t) == k,
    decreases k,
{
    if k > 0 {
        lemma_hash_prefix_run(t.drop_first(), (k - 1) as nat);
    }
}

/// The outline entry of one line, if the line is a heading.
fn line_heading(line: &Vec<char>, index: usize) -> (r: Option<OutlineEntry>)
    ensures
        match r {
            Some(e) => seq![entry_view(e)] == line_entry(line@, index as nat),
            None => line_entry(line@, index as nat) == Seq::<(Seq<char>, nat, nat)>::empty(),
        },
{
    let (a, b) = trim_bounds(line);
    let ghost t = line@.subrange(a as int, b as int);
    let len = b - a;
    let mut k: usize = 0;
    while k < 6 && k < len && line[a + k] == '#'
        invariant
            k <= 6,
            k <= len,
            len == b - a,
            a <= b <= line@.len(),
            t == line@.subrange(a as int, b as int),
            forall|j: int| 0 <= j < k ==> t[j] == '#',
        decreases 6 - k,
    {
        k = k + 1;
    }
    if k == 0 || k >= 6 || len <= k + 1 || line[a + k] != ' ' {
        proof {
            if k < 6 && k < len {
                lemma_hash_prefix_run(t, k as nat);
            } else if k < 6 {
                lemma_hash_prefix_run(t, k as nat);
            } else {
                // six leading '#': the prefix is at least six long
                lemma_hash_prefix_at_least(t, 6);
            }
        }
        return None;
    }
    proof {
        lemma_hash_prefix_run(t, k as nat);
    }
    let mut title_chars: Vec<char> = Vec::new();
    let mut j = a + k + 1;
    while j < b
        invariant
            a + k + 1 <= j <= b,
            b <= line@.len(),
            title_chars@ == line@.subrange(a + k + 1, j as int),
        decreases b - j,
    {
        title_chars.push(line[j]);
        j = j + 1;
    }
    assert(title_chars@ =~= t.skip(k + 1));
    let title = string_of(&title_chars);
    Some(OutlineEntry { title, level: k as u32, line: index })
}

proof fn lemma_hash_prefix_at_least(t: Seq<char>, k: nat)
    requires
        k <= t.len(),
        forall|j: int| 0 <= j < k ==> t[j] == '#',
    ensures
        hash_prefix(t) >= k,
    decreases k,
{
    if k > 0 {
        lemma_hash_prefix_at_least(t.drop_first(), (k - 1) as nat);
    }
}

/// The headings of `text` for the outline: for each line (as `str::lines`
/// yields them) whose trimmed form starts with one to five `#`, a space and
/// at least one more character, the rest of the trimmed line as title, the
/// number of `#` as level and the index of the line.
pub fn outline_headings(text: &str) -> (r: Vec<OutlineEntry>)
    ensures
        entries_view(r@) == outline(text@),
{
    let cs = chars_of(text);
    let n = cs.len();
    let ghost s = cs@;
    let ghost mut done: Seq<Seq<char>> = Seq::empty();
    let mut cur: Vec<char> = Vec::new();
    let mut out: Vec<OutlineEntry> = Vec::new();
    let mut line_index: usize = 0;
    let mut i: usize = 0;
    assert(s.take(0) =~= Seq::<char>::empty());
    assert(entries_view(out@) =~= outline_of_lines(done));
    while i < n
        invariant
            n == s.len(),
            s == cs@,
            i <= n,
            split_on(s.take(i as int), '\n') == done.push(cur@),
            entries_view(out@) == outline_of_lines(done),
            line_index == done.len(),
            line_index <= i,
        decreases n - i,
    {
        let c = cs[i];
        let ghost t = s.take(i + 1);
        assert(t.drop_last() =~= s.take(i as int));
        assert(t.last() == c);
        if c == '\n' {
            let e = line_heading(&cur, line_index);
            let ghost prev = out@;
            match e {
                Some(entry) => {
                    out.push(entry);
                    assert(entries_view(out@) =~= entries_view(prev) + seq![entry_view(entry)]);
                },
                None => {},
            }
            proof {
                let d2 = done.push(cur@);
                assert(d2.drop_last() =~= done);
                assert(d2.last() == cur@);
                assert(entries_view(out@) =~= outline_of_lines(d2));
                done = d2;
            }
            cur = Vec::new();
            line_index = line_index + 1;
            assert(split_on(t, '\n') =~= done.push(cur@));
        } else {
            proof {
                let r = split_on(s.take(i as int), '\n');
                assert(r.len() - 1 == done.len());
            }
            cur.push(c);
            assert(split_on(t, '\n') =~= done.push(cur@));
        }
        i = i + 1;
    }
    assert(s.take(n as int) =~= s);
    if cur.len() > 0 {
        let e = line_heading(&cur, line_index);
        let ghost prev = out@;
        match e {
            Some(entry) => {
                out.push(entry);
                assert(entries_view(out@) =~= entries_view(prev) + seq![entry_view(entry)]);
            },
            None => {},
        }
        proof {
            let d2 = done.push(cur@);
            assert(d2.drop_last() =~= done);
            assert(entries_view(out@) =~= outline_of_lines(d2));
            if s.len() > 0 && s.last() == '\n' {
                assert(split_on(s, '\n') == split_on(s.drop_last(), '\n').push(Seq::empty()));
                assert(split_on(s, '\n').last() == cur@);
            }
            assert(s.len() > 0);
        }
    } else {
        proof {
            if s.len() > 0 {
                if s.last() == '\n' {
                    let r = split_on(s.drop_last(), '\n');
                    assert(r.push(Seq::empty()) == done.push(cur@));
                    assert(r =~= r.push(Seq::empty()).drop_last());
                    assert(done =~= done.push(cur@).drop_last());
                } else {
                    let r = split_on(s.drop_last(), '\n');
                    lemma_split_on_len(s.drop_last(), '\n');
                    assert(split_on(s, '\n').last() == r.last().push(s.last()));
                    assert(cur@ == r.last().push(s.last()));
                    assert(cur@.len() > 0);
                }
            }
        }
    }
    out
}

/// The text of an outline row: level-1 headings get `●`, level-2 headings
/// `○` and deeper ones `–`; all but level-1 headings are indented by two
/// spaces; a space separates the mark from the title.
pub open spec fn outline_label_text(level: nat, title: Seq<char>) -> Seq<char> {
    let indent = if level == 1 { Seq::<char>::empty() } else { seq![' ', ' '] };
    let mark = if level == 1 { '●' } else if level == 2 { '○' } else { '–' };
    indent + seq![mark, ' '] + title
}

/// An outline label starts, unindented, with `●` exactly for level-1
/// headings; every other level is indented by two spaces and marked `○` at
/// level 2 and `–` at deeper levels. The mark is followed by a space, and
/// the label ends with the title.
pub proof fn lemma_outline_label_shape(level: nat, title: Seq<char>)
    ensures
        (outline_label_text(level, title)[0] == '●') <==> level == 1,
        level == 1 ==> outline_label_text(level, title).len() == title.len() + 2
            && outline_label_text(level, title)[1] == ' ',
        level != 1 ==> {
            let l = outline_label_text(level, title);
            &&& l.len() == title.len() + 4
            &&& l[0] == ' ' && l[1] == ' '
            &&& l[2] == (if level == 2 { '○' } else { '–' })
            &&& l[3] == ' '
        },
        outline_label_text(level, title).skip(
            outline_label_text(level, title).len() - title.len(),
        ) == title,
{
    let l = outline_label_text(level, title);
    assert(l.skip(l.len() - title.len()) =~= title);
}

/// The label of an outline row for a heading of `level` with `title`.
pub fn outline_label(level: u32, title: &str) -> (s: String)
    ensures
        s@ == outline_label_text(level as nat, title@),
{
    let mut v: Vec<char> = Vec::new();
    if level != 1 {
        v.push(' ');
        v.push(' ');
    }
    let mark = if level == 1 { '●' } else if level == 2 { '○' } else { '–' };
    v.push(mark);
    v.push(' ');
    let mut s = string_of(&v);
    s.append(title);
    assert(s@ =~= outline_label_text(level as nat, title@));
    s
}

/// The left margin, in pixels, of an outline row for a heading of `level`:
/// 4 plus 12 for each level below the first.
pub fn outline_margin(level: u32) -> (m: i32)
    requires
        1 <= level,
        4 + (level - 1) * 12 <= i32::MAX,
    ensures
        m == 4 + (level - 1) * 12,
{
    4 + (level as i32 - 1) * 12
}

proof fn lemma_outline_of_lines_shape(ls: Seq<Seq<char>>)
    ensures
        forall|j: int|
            0 <= j < outline_of_lines(ls).len() ==> {
                &&& 1 <= (#[trigger] outline_of_lines(ls)[j]).1 <= 5
                &&& outline_of_lines(ls)[j].0.len() >= 1
                &&& outline_of_lines(ls)[j].2 < ls.len()
            },
        forall|i: int, j: int|
            0 <= i < j < outline_of_lines(ls).len() ==> (#[trigger] outline_of_lines(ls)[i]).2
                < (#[trigger] outline_of_lines(ls)[j]).2,
    decreases ls.len(),
{
    if ls.len() > 0 {
        lemma_outline_of_lines_shape(ls.drop_last());
        let prev = outline_of_lines(ls.drop_last());
        let e = line_entry(ls.last(), (ls.len() - 1) as nat);
        let o = prev + e;
        assert(outline_of_lines(ls) == o);
        assert forall|j: int| 0 <= j < o.len() implies {
            &&& 1 <= (#[trigger] o[j]).1 <= 5
            &&& o[j].0.len() >= 1
            &&& o[j].2 < ls.len()
        } by {
            if j >= prev.len() {
                assert(o[j] == e[j - prev.len()]);
            } else {
                assert(o[j] == prev[j]);
            }
        }
        assert forall|i: int, j: int| 0 <= i < j < o.len() implies (#[trigger] o[i]).2 < (
        #[trigger] o[j]).2 by {
            if j >= prev.len() {
                assert(o[j] == e[j - prev.len()]);
                if i < prev.len() {
                    assert(o[i] == prev[i]);
                }
            } else {
                assert(o[j] == prev[j]);
                assert(o[i] == prev[i]);
            }
        }
    }
}

/// Every outline entry has a level from one to five and a non-empty title,
/// names one of the lines of the text, and the entries follow the order of
/// the lines, each line giving at most one.
pub proof fn lemma_outline_shape(s: Seq<char>)
    ensures
        forall|j: int|
            0 <= j < outline(s).len() ==> {
                &&& 1 <= (#[trigger] outline(s)[j]).1 <= 5
                &&& outline(s)[j].0.len() >= 1
                &&& outline(s)[j].2 < text_lines(s).len()
            },
        forall|i: int, j: int|
            0 <= i < j < outline(s).len() ==> (#[trigger] outline(s)[i]).2 < (
            #[trigger] outline(s)[j]).2,
{
    lemma_outline_of_lines_shape(text_lines(s));
}

} // verus!
