//! Text: reading bytes as UTF-8, cutting a line into words.

use vstd::prelude::*;
use vstd::string::{StrSliceExecFns, StringSliceAdditionalSpecFns};
use vstd::utf8::*;

verus! {

/// Reads bytes as text, by `core::str::from_utf8`: on bytes that are valid
/// UTF-8 it gives the text that they encode, on all others it gives nothing.
#[verifier::external_body]
pub(crate) fn str_from_utf8(bytes: &[u8]) -> (s: Option<&str>)
    ensures
        s is Some <==> valid_utf8(bytes@),
        s is Some ==> (s->0).spec_bytes() == bytes@,
{
    match core::str::from_utf8(bytes) {
        Ok(s) => Some(s),
        Err(_) => None,
    }
}

/// The first `cap` bytes of `bytes`, or all of them.
pub open spec fn clipped(bytes: Seq<u8>, cap: nat) -> Seq<u8> {
    if bytes.len() > cap {
        bytes.take(cap as int)
    } else {
        bytes
    }
}

/// The characters with the Unicode property White_Space.
pub open spec fn white_space(c: char) -> bool {
    let v = c as u32;
    ||| 0x9 <= v <= 0xd
    ||| v == 0x20
    ||| v == 0x85
    ||| v == 0xa0
    ||| v == 0x1680
    ||| 0x2000 <= v <= 0x200a
    ||| v == 0x2028
    ||| v == 0x2029
    ||| v == 0x202f
    ||| v == 0x205f
    ||| v == 0x3000
}

pub fn is_white_space(c: char) -> (b: bool)
    ensures
        b == white_space(c),
{
    let v: u32 = c as u32;
    (0x9 <= v && v <= 0xd) || v == 0x20 || v == 0x85 || v == 0xa0 || v == 0x1680 || (0x2000 <= v
        && v <= 0x200a) || v == 0x2028 || v == 0x2029 || v == 0x202f || v == 0x205f || v == 0x3000
}

/// `s` without the white space that it starts with.
pub open spec fn trimmed_start(s: Seq<char>) -> Seq<char>
    decreases s.len(),
{
    if s.len() > 0 && white_space(s[0]) {
        trimmed_start(s.drop_first())
    } else {
        s
    }
}

/// `s` without the white space that it ends with.
pub open spec fn trimmed_end(s: Seq<char>) -> Seq<char>
    decreases s.len(),
{
    if s.len() > 0 && white_space(s.last()) {
        trimmed_end(s.drop_last())
    } else {
        s
    }
}

/// `s` without the white space at both its ends.
pub open spec fn trimmed(s: Seq<char>) -> Seq<char> {
    trimmed_end(trimmed_start(s))
}

pub fn trim(s: &str) -> (r: &str)
    ensures
        r@ == trimmed(s@),
{
    let n: usize = s.unicode_len();
    let mut i: usize = 0;
    assert(s@.subrange(0, n as int) =~= s@);
    while i < n && is_white_space(s.get_char(i))
        invariant
            i <= n,
            n == s@.len(),
            trimmed_start(s@.subrange(i as int, n as int)) == trimmed_start(s@),
        decreases n - i,
    {
        assert(s@.subrange(i as int, n as int).drop_first() =~= s@.subrange(i + 1, n as int));
        i = i + 1;
    }
    let mut j: usize = n;
    while j > i && is_white_space(s.get_char(j - 1))
        invariant
            i <= j <= n,
            n == s@.len(),
            trimmed_end(s@.subrange(i as int, j as int)) == trimmed_end(
                s@.subrange(i as int, n as int),
            ),
        decreases j - i,
    {
        assert(s@.subrange(i as int, j as int).drop_last() =~= s@.subrange(i as int, j - 1));
        j = j - 1;
    }
    s.substring_char(i, j)
}

/// The place of the first space in `s`, or its length if it has none.
pub open spec fn first_space(s: Seq<char>) -> nat
    decreases s.len(),
{
    if s.len() == 0 || s[0] == ' ' {
        0
    } else {
        1 + first_space(s.drop_first())
    }
}

/// What stands before the first space of a line and what stands after it; a
/// line without a space is all before it.
pub open spec fn split_at_space(s: Seq<char>) -> (Seq<char>, Seq<char>) {
    let i = first_space(s) as int;
    if i < s.len() {
        (s.take(i), s.skip(i + 1))
    } else {
        (s, Seq::empty())
    }
}

pub fn split_once_at_space(s: &str) -> (r: (&str, &str))
    ensures
        (r.0@, r.1@) == split_at_space(s@),
{
    let n: usize = s.unicode_len();
    let mut i: usize = 0;
    assert(s@.skip(0) =~= s@);
    while i < n && s.get_char(i) != ' '
        invariant
            i <= n,
            n == s@.len(),
            first_space(s@) == i + first_space(s@.skip(i as int)),
        decreases n - i,
    {
        assert(s@.skip(i as int).drop_first() =~= s@.skip(i + 1));
        i = i + 1;
    }
    if i < n {
        (s.substring_char(0, i), s.substring_char(i + 1, n))
    } else {
        assert(s@.subrange(n as int, n as int) =~= Seq::<char>::empty());
        (s, s.substring_char(n, n))
    }
}

/// Texts are equal when their bytes are.
proof fn lemma_same_bytes(a: Seq<char>, b: Seq<char>)
    ensures
        encode_utf8(a) == encode_utf8(b) <==> a == b,
{
    encode_utf8_decode_utf8(a);
    encode_utf8_decode_utf8(b);
}

pub fn same_text(a: &str, b: &str) -> (eq: bool)
    ensures
        eq == (a@ == b@),
{
    let x: &[u8] = a.as_bytes();
    let y: &[u8] = b.as_bytes();
    proof {
        lemma_same_bytes(a@, b@);
    }
    if x.len() != y.len() {
        return false;
    }
    let mut i: usize = 0;
    while i < x.len()
        invariant
            i <= x@.len(),
            x@.len() == y@.len(),
            x@ == encode_utf8(a@),
            y@ == encode_utf8(b@),
            encode_utf8(a@) == encode_utf8(b@) <==> a@ == b@,
            forall|j: int| 0 <= j < i ==> x@[j] == y@[j],
        decreases x@.len() - i,
    {
        if x[i] != y[i] {
            return false;
        }
        i = i + 1;
    }
    assert(x@ =~= y@);
    true
}

/// What is cut to a capacity is a beginning of what it was, as long as it may be.
pub proof fn law_clipped_is_a_beginning(bytes: Seq<u8>, cap: nat)
    ensures
        clipped(bytes, cap).len() == (if bytes.len() < cap { bytes.len() } else { cap }),
        forall|i: int| 0 <= i < clipped(bytes, cap).len() ==> #[trigger] clipped(bytes, cap)[i]
            == bytes[i],
{
}

/// All of `s` is white space.
pub open spec fn blank(s: Seq<char>) -> bool {
    forall|i: int| 0 <= i < s.len() ==> white_space(#[trigger] s[i])
}

/// Neither the first nor the last character of `s` is white space.
pub open spec fn tight(s: Seq<char>) -> bool {
    s.len() > 0 ==> !white_space(s[0]) && !white_space(s.last())
}

proof fn lemma_trimmed_start(left: Seq<char>, s: Seq<char>)
    requires
        blank(left),
        s.len() > 0 ==> !white_space(s[0]),
    ensures
        trimmed_start(left + s) == s,
    decreases left.len(),
{
    if left.len() == 0 {
        assert(left + s =~= s);
    } else {
        assert((left + s)[0] == left[0]);
        assert((left + s).drop_first() =~= left.drop_first() + s);
        assert forall|i: int| 0 <= i < left.drop_first().len() implies white_space(
            #[trigger] left.drop_first()[i],
        ) by {
            assert(left.drop_first()[i] == left[i + 1]);
        }
        lemma_trimmed_start(left.drop_first(), s);
    }
}

proof fn lemma_trimmed_end(s: Seq<char>, right: Seq<char>)
    requires
        blank(right),
        s.len() > 0 ==> !white_space(s.last()),
    ensures
        trimmed_end(s + right) == s,
    decreases right.len(),
{
    if right.len() == 0 {
        assert(s + right =~= s);
    } else {
        assert((s + right).last() == right.last());
        assert((s + right).drop_last() =~= s + right.drop_last());
        lemma_trimmed_end(s, right.drop_last());
    }
}

/// Trimming takes off white space at both ends, all of it and nothing else:
/// whatever white space stands round a text without any at its ends, that text
/// is left.
pub proof fn law_trimming_leaves_the_text(left: Seq<char>, s: Seq<char>, right: Seq<char>)
    requires
        blank(left),
        tight(s),
        blank(right),
    ensures
        trimmed(left + s + right) == s,
{
    if s.len() == 0 {
        assert(left + s + right =~= (left + right) + Seq::empty());
        assert forall|i: int| 0 <= i < (left + right).len() implies white_space(
            #[trigger] (left + right)[i],
        ) by {
            if i < left.len() {
                assert((left + right)[i] == left[i]);
            } else {
                assert((left + right)[i] == right[i - left.len()]);
            }
        }
        lemma_trimmed_start(left + right, Seq::empty());
        assert(trimmed_start(left + s + right) == Seq::<char>::empty());
    } else {
        assert(left + s + right =~= left + (s + right));
        assert((s + right)[0] == s[0]);
        lemma_trimmed_start(left, s + right);
        lemma_trimmed_end(s, right);
    }
}

proof fn lemma_first_space(word: Seq<char>, rest: Seq<char>)
    requires
        !word.contains(' '),
        rest.len() == 0 || rest[0] == ' ',
    ensures
        first_space(word + rest) == word.len(),
    decreases word.len(),
{
    if word.len() == 0 {
        assert(word + rest =~= rest);
    } else {
        assert((word + rest)[0] == word[0]);
        assert(word.contains(word[0]));
        assert((word + rest).drop_first() =~= word.drop_first() + rest);
        assert forall|i: int| 0 <= i < word.drop_first().len() implies word.drop_first()[i]
            != ' ' by {
            assert(word.drop_first()[i] == word[i + 1]);
            assert(word.contains(word[i + 1]));
        }
        lemma_first_space(word.drop_first(), rest);
    }
}

/// A line is split at its first space, which belongs to neither part.
pub proof fn law_split_at_first_space(word: Seq<char>, rest: Seq<char>)
    requires
        !word.contains(' '),
    ensures
        split_at_space(word + seq![' '] + rest) == (word, rest),
        split_at_space(word) == (word, Seq::<char>::empty()),
{
    let line = word + seq![' '] + rest;
    assert(line =~= word + (seq![' '] + rest));
    lemma_first_space(word, seq![' '] + rest);
    assert(line.take(word.len() as int) =~= word);
    assert(line.skip(word.len() as int + 1) =~= rest);
    lemma_first_space(word, Seq::empty());
    assert(word + Seq::<char>::empty() =~= word);
}

} // verus!
