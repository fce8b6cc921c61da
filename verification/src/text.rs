//! Character classes, decimal formatting and conversions between `str`,
//! `String` and character vectors.

use vstd::prelude::*;
use vstd::std_specs::iter::IteratorSpec;
use vstd::utf8::{encode_utf8, encode_scalar, is_continuation_byte};

verus! {

/// The Unicode `White_Space` property, the set that `char::is_whitespace`
/// and `str::trim` go by.
pub open spec fn is_ws(c: char) -> bool {
    ||| ('\t' <= c && c <= '\r')
    ||| c == ' '
    ||| c == '\u{85}'
    ||| c == '\u{A0}'
    ||| c == '\u{1680}'
    ||| ('\u{2000}' <= c && c <= '\u{200A}')
    ||| c == '\u{2028}'
    ||| c == '\u{2029}'
    ||| c == '\u{202F}'
    ||| c == '\u{205F}'
    ||| c == '\u{3000}'
}

/// Whether `c` is white space in the sense of `is_ws`.
pub fn is_whitespace(c: char) -> (b: bool)
    ensures
        b == is_ws(c),
{
    ('\t' <= c && c <= '\r') || c == ' ' || c == '\u{85}' || c == '\u{A0}' || c == '\u{1680}'
        || ('\u{2000}' <= c && c <= '\u{200A}') || c == '\u{2028}' || c == '\u{2029}'
        || c == '\u{202F}' || c == '\u{205F}' || c == '\u{3000}'
}

/// The decimal digit character for `d < 10`.
pub open spec fn digit_char(d: nat) -> char {
    if d == 0 { '0' } else if d == 1 { '1' } else if d == 2 { '2' } else if d == 3 { '3' }
    else if d == 4 { '4' } else if d == 5 { '5' } else if d == 6 { '6' } else if d == 7 { '7' }
    else if d == 8 { '8' } else { '9' }
}

/// The decimal representation of `n`, without sign or leading zeros.
pub open spec fn decimal(n: nat) -> Seq<char>
    decreases n,
{
    if n < 10 {
        seq![digit_char(n)]
    } else {
        decimal(n / 10).push(digit_char(n % 10))
    }
}

fn exec_digit_char(d: u64) -> (c: char)
    requires
        d < 10,
    ensures
        c == digit_char(d as nat),
{
    if d == 0 { '0' } else if d == 1 { '1' } else if d == 2 { '2' } else if d == 3 { '3' }
    else if d == 4 { '4' } else if d == 5 { '5' } else if d == 6 { '6' } else if d == 7 { '7' }
    else if d == 8 { '8' } else { '9' }
}

fn push_decimal(n: u64, out: &mut Vec<char>)
    ensures
        final(out)@ == old(out)@ + decimal(n as nat),
    decreases n,
{
    if n >= 10 {
        push_decimal(n / 10, out);
    }
    let c = exec_digit_char(n % 10);
    out.push(c);
}

/// The characters of `s`, in order, read with `str::chars`.
pub fn chars_of(s: &str) -> (v: Vec<char>)
    ensures
        v@ == s@,
{
    broadcast use vstd::string::axiom_spec_iter, vstd::string::next_postcondition;

    let mut v: Vec<char> = Vec::new();
    let mut it = s.chars();
    loop
        invariant
            v@ + it.remaining() == s@,
            it.decrease() is Some,
        ensures
            v@ == s@,
        decreases it.decrease()->0,
    {
        let ghost before = it.remaining();
        match it.next() {
            Some(c) => {
                assert(v@.push(c) + it.remaining() =~= v@ + before);
                v.push(c);
            },
            None => {
                assert(v@ =~= s@);
                break;
            },
        }
    }
    v
}

/// The string made of the characters of `v`, in order:
/// `String::from_iter` (`FromIterator<&char> for String`) over the vector.
/// Trusted: the contract claims what that impl's documentation states, that
/// the string holds the characters in order.
#[verifier::external_body]
pub(crate) fn string_of(v: &Vec<char>) -> (s: String)
    ensures
        s@ == v@,
{
    String::from_iter(v)
}

/// `n` written in decimal, as `format!("{}", n)` writes it.
pub fn decimal_string(n: u64) -> (s: String)
    ensures
        s@ == decimal(n as nat),
{
    let mut v: Vec<char> = Vec::new();
    push_decimal(n, &mut v);
    assert(v@ =~= decimal(n as nat));
    string_of(&v)
}

/// The number of characters that start before byte `p` of the UTF-8 bytes
/// `b`: the bytes before `p` that are not continuation bytes. For the bytes
/// of a string and `p` at a character boundary, it is the index of the
/// character that starts at `p` (see `lemma_char_index_of_encoding`).
pub open spec fn char_index(b: Seq<u8>, p: int) -> nat
    decreases p,
{
    if p <= 0 {
        0
    } else {
        char_index(b, p - 1) + if p - 1 < b.len() && !is_continuation_byte(b[p - 1]) {
            1nat
        } else {
            0nat
        }
    }
}

proof fn lemma_encode_concat(x: Seq<char>, y: Seq<char>)
    ensures
        encode_utf8(x + y) == encode_utf8(x) + encode_utf8(y),
    decreases x.len(),
{
    if x.len() == 0 {
        assert(x + y =~= y);
        assert(encode_utf8(x) + encode_utf8(y) =~= encode_utf8(y));
    } else {
        assert((x + y).drop_first() =~= x.drop_first() + y);
        assert((x + y)[0] == x[0]);
        lemma_encode_concat(x.drop_first(), y);
        assert(encode_utf8(x + y) =~= encode_scalar(x[0] as u32) + (encode_utf8(x.drop_first())
            + encode_utf8(y)));
    }
}

proof fn lemma_char_index_prefix(a: Seq<u8>, e: Seq<u8>, p: int)
    requires
        0 <= p <= a.len(),
    ensures
        char_index(a + e, p) == char_index(a, p),
    decreases p,
{
    if p > 0 {
        lemma_char_index_prefix(a, e, p - 1);
        assert((a + e)[p - 1] == a[p - 1]);
    }
}

proof fn lemma_char_index_concat(a: Seq<u8>, e: Seq<u8>, j: int)
    requires
        0 <= j <= e.len(),
    ensures
        char_index(a + e, a.len() + j) == char_index(a, a.len() as int) + char_index(e, j),
    decreases j,
{
    if j == 0 {
        lemma_char_index_prefix(a, e, a.len() as int);
    } else {
        lemma_char_index_concat(a, e, j - 1);
        assert((a + e)[a.len() + j - 1] == e[j - 1]);
    }
}

proof fn lemma_utf8_byte_kinds(x: u32)
    by (bit_vector)
    ensures
        ((x & 0x7F) as u8) <= 0x7Fu8,
        0xC0u8 <= (0xC0u8 | ((x >> 6u32) & 0x1Fu32) as u8),
        0xE0u8 <= (0xE0u8 | ((x >> 12u32) & 0x0Fu32) as u8),
        0xF0u8 <= (0xF0u8 | ((x >> 18u32) & 0x7u32) as u8),
        0x80u8 <= (0x80u8 | (x & 0x3Fu32) as u8) <= 0xBFu8,
        0x80u8 <= (0x80u8 | ((x >> 6u32) & 0x3Fu32) as u8) <= 0xBFu8,
        0x80u8 <= (0x80u8 | ((x >> 12u32) & 0x3Fu32) as u8) <= 0xBFu8,
{
}

proof fn lemma_scalar_one_char(c: char)
    ensures
        char_index(encode_scalar(c as u32), encode_scalar(c as u32).len() as int) == 1,
{
    let x = c as u32;
    lemma_utf8_byte_kinds(x);
    let e = encode_scalar(x);
    reveal_with_fuel(char_index, 5);
    assert(1 <= e.len() <= 4);
    assert(!is_continuation_byte(e[0]));
    if e.len() >= 2 {
        assert(is_continuation_byte(e[1]));
    }
    if e.len() >= 3 {
        assert(is_continuation_byte(e[2]));
    }
    if e.len() >= 4 {
        assert(is_continuation_byte(e[3]));
    }
}

proof fn lemma_char_index_all(t: Seq<char>)
    ensures
        char_index(encode_utf8(t), encode_utf8(t).len() as int) == t.len(),
    decreases t.len(),
{
    if t.len() > 0 {
        let u = t.drop_last();
        let c = t.last();
        lemma_char_index_all(u);
        assert(t =~= u + seq![c]);
        lemma_encode_concat(u, seq![c]);
        let one = seq![c];
        assert(one.drop_first() =~= Seq::<char>::empty());
        assert(one[0] == c);
        assert(encode_utf8(one.drop_first()).len() == 0);
        assert(encode_utf8(one) =~= encode_scalar(c as u32));
        lemma_scalar_one_char(c);
        lemma_char_index_concat(
            encode_utf8(u),
            encode_scalar(c as u32),
            encode_scalar(c as u32).len() as int,
        );
    }
}

/// In the UTF-8 bytes of a string, the byte at which character `k` starts
/// has character index `k`: byte offsets at character boundaries become
/// character offsets under `char_index`.
pub proof fn lemma_char_index_of_encoding(s: Seq<char>, k: int)
    requires
        0 <= k <= s.len(),
    ensures
        char_index(encode_utf8(s), encode_utf8(s.take(k)).len() as int) == k,
{
    assert(s =~= s.take(k) + s.skip(k));
    lemma_encode_concat(s.take(k), s.skip(k));
    lemma_char_index_prefix(
        encode_utf8(s.take(k)),
        encode_utf8(s.skip(k)),
        encode_utf8(s.take(k)).len() as int,
    );
    lemma_char_index_all(s.take(k));
}

} // verus!
