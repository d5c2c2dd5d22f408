//! Character-level helpers: strings are handled as sequences of Unicode
//! scalar values, the same unit `str::chars` yields.

use vstd::prelude::*;
use vstd::utf8::{encode_scalar, encode_utf8, encode_utf8_decode_utf8, encode_utf8_first_scalar, encode_utf8_valid_utf8, is_char_boundary, decode_first_scalar, length_of_first_scalar, pop_first_scalar};

verus! {

/// Appends one character to a string (`String::push`).
#[verifier::external_body]
pub(crate) fn push_char(s: &mut String, c: char)
    ensures
        final(s)@ == old(s)@.push(c),
{
    s.push(c);
}

/// `String::insert`: puts `ch` at byte position `idx`, which must be a
/// character boundary of the string (std panics otherwise); the UTF-8 bytes
/// of `ch` then stand between the bytes before and after `idx`.
#[verifier::external_body]
pub(crate) fn string_insert(s: &mut String, idx: usize, ch: char)
    requires
        is_char_boundary(encode_utf8(old(s)@), idx as int),
    ensures
        encode_utf8(final(s)@) == encode_utf8(old(s)@).take(idx as int) + encode_scalar(ch as u32)
            + encode_utf8(old(s)@).skip(idx as int),
{
    s.insert(idx, ch);
}

/// `String::insert_str`: puts the bytes of `t` at byte position `idx`, which
/// must be a character boundary of the string (std panics otherwise).
#[verifier::external_body]
pub(crate) fn string_insert_str(s: &mut String, idx: usize, t: &str)
    requires
        is_char_boundary(encode_utf8(old(s)@), idx as int),
    ensures
        encode_utf8(final(s)@) == encode_utf8(old(s)@).take(idx as int) + encode_utf8(t@)
            + encode_utf8(old(s)@).skip(idx as int),
{
    s.insert_str(idx, t);
}

/// `String::remove`: takes out the character whose encoding starts at byte
/// position `idx`, which must be a character boundary before the end (std
/// panics otherwise), and returns that character.
#[verifier::external_body]
pub(crate) fn string_remove(s: &mut String, idx: usize) -> (c: char)
    requires
        is_char_boundary(encode_utf8(old(s)@), idx as int),
        idx < encode_utf8(old(s)@).len(),
    ensures
        c as u32 == decode_first_scalar(encode_utf8(old(s)@).skip(idx as int)),
        encode_utf8(final(s)@) == encode_utf8(old(s)@).take(idx as int) + encode_utf8(
            old(s)@,
        ).skip(idx + length_of_first_scalar(encode_utf8(old(s)@).skip(idx as int))),
{
    s.remove(idx)
}

/// `String::replace_range` over `start..end`: the bytes in that range give way
/// to the bytes of `with`; both ends must be character boundaries and `start`
/// may not exceed `end` (std panics otherwise).
#[verifier::external_body]
pub(crate) fn string_replace_range(s: &mut String, start: usize, end: usize, with: &str)
    requires
        start <= end,
        is_char_boundary(encode_utf8(old(s)@), start as int),
        is_char_boundary(encode_utf8(old(s)@), end as int),
    ensures
        encode_utf8(final(s)@) == encode_utf8(old(s)@).take(start as int) + encode_utf8(with@)
            + encode_utf8(old(s)@).skip(end as int),
{
    s.replace_range(start..end, with);
}

/// The characters of `s`, in order.
pub fn chars_of(s: &str) -> (v: Vec<char>)
    ensures
        v@ == s@,
{
    let mut v: Vec<char> = Vec::new();
    for c in it: s.chars()
        invariant
            v@ == it.seq().take(it.index() as int),
    {
        v.push(c);
    }
    v
}

/// A string holding exactly the given characters.
pub fn string_of(v: &Vec<char>) -> (s: String)
    ensures
        s@ == v@,
{
    let mut s = String::new();
    let mut i: usize = 0;
    while i < v.len()
        invariant
            i <= v.len(),
            s@ == v@.take(i as int),
        decreases v.len() - i,
    {
        push_char(&mut s, v[i]);
        assert(v@.take(i as int).push(v@[i as int]) =~= v@.take(i + 1));
        i = i + 1;
    }
    assert(v@.take(v.len() as int) =~= v@);
    s
}

/// The UTF-8 encoding of a sequence of characters distributes over
/// concatenation.
pub proof fn lemma_utf8_concat(a: Seq<char>, b: Seq<char>)
    ensures
        encode_utf8(a + b) == encode_utf8(a) + encode_utf8(b),
    decreases a.len(),
{
    if a.len() == 0 {
        assert(a + b =~= b);
        assert(encode_utf8(a) =~= Seq::<u8>::empty());
        assert(encode_utf8(a) + encode_utf8(b) =~= encode_utf8(b));
    } else {
        assert((a + b).drop_first() =~= a.drop_first() + b);
        assert((a + b)[0] == a[0]);
        lemma_utf8_concat(a.drop_first(), b);
        assert(encode_scalar(a[0] as u32) + (encode_utf8(a.drop_first()) + encode_utf8(b))
            =~= encode_scalar(a[0] as u32) + encode_utf8(a.drop_first()) + encode_utf8(b));
    }
}

/// Two character sequences with the same UTF-8 encoding are equal.
pub proof fn lemma_utf8_injective(a: Seq<char>, b: Seq<char>)
    requires
        encode_utf8(a) == encode_utf8(b),
    ensures
        a == b,
{
    encode_utf8_decode_utf8(a);
    encode_utf8_decode_utf8(b);
}

/// The encoding of a single character is that character's scalar encoding.
pub proof fn lemma_utf8_single(c: char)
    ensures
        encode_utf8(seq![c]) == encode_scalar(c as u32),
{
    assert(seq![c].drop_first() =~= Seq::<char>::empty());
    assert(encode_scalar(c as u32) + encode_utf8(Seq::<char>::empty()) =~= encode_scalar(
        c as u32,
    ));
}

/// Splitting a text after `k` characters splits its encoding after
/// `encode_utf8(s.take(k)).len()` bytes.
pub proof fn lemma_utf8_split(s: Seq<char>, k: int)
    requires
        0 <= k <= s.len(),
    ensures
        encode_utf8(s) == encode_utf8(s.take(k)) + encode_utf8(s.skip(k)),
        encode_utf8(s).take(encode_utf8(s.take(k)).len() as int) == encode_utf8(s.take(k)),
        encode_utf8(s).skip(encode_utf8(s.take(k)).len() as int) == encode_utf8(s.skip(k)),
        encode_utf8(s.take(k)).len() <= encode_utf8(s).len(),
{
    assert(s.take(k) + s.skip(k) =~= s);
    lemma_utf8_concat(s.take(k), s.skip(k));
    let e = encode_utf8(s);
    let l = encode_utf8(s.take(k)).len() as int;
    assert(e.take(l) =~= encode_utf8(s.take(k)));
    assert(e.skip(l) =~= encode_utf8(s.skip(k)));
}

/// The byte offset of every character position is a character boundary.
pub proof fn lemma_utf8_boundary(s: Seq<char>, k: int)
    requires
        0 <= k <= s.len(),
    ensures
        is_char_boundary(encode_utf8(s), encode_utf8(s.take(k)).len() as int),
    decreases k,
{
    broadcast use encode_utf8_valid_utf8;

    lemma_utf8_split(s, k);
    let bytes = encode_utf8(s);
    let idx = encode_utf8(s.take(k)).len() as int;
    if k == 0 {
        assert(s.take(0) =~= Seq::<char>::empty());
    } else {
        encode_utf8_first_scalar(s);
        let w = encode_scalar(s[0] as u32).len() as int;
        assert(pop_first_scalar(bytes) =~= encode_utf8(s.drop_first()));
        assert(s.take(k) =~= seq![s[0]] + s.drop_first().take(k - 1));
        lemma_utf8_concat(seq![s[0]], s.drop_first().take(k - 1));
        lemma_utf8_single(s[0]);
        lemma_utf8_boundary(s.drop_first(), k - 1);
        assert(idx - length_of_first_scalar(bytes) == encode_utf8(s.drop_first().take(k - 1)).len());
        assert(idx > 0);
    }
}

} // verus!
