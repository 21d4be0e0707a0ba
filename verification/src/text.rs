//! Small operations on text that the engine is built from.

use vstd::prelude::*;
use vstd::std_specs::iter::IteratorSpec;
use vstd::string::StringSliceAdditionalSpecFns;
use vstd::utf8::{
    decode_utf8, encode_utf8, is_char_boundary, is_char_boundary_iff_not_is_continuation_byte,
    is_char_boundary_start_end_of_seq, valid_utf8_split,
};

verus! {

/// Appends one character with `String::push`, which puts the character at
/// the end of the string and leaves the rest as it was.
#[verifier::external_body]
pub(crate) fn push_char(text: &mut String, c: char)
    ensures
        final(text)@ == old(text)@.push(c),
{
    text.push(c)
}

/// The characters of `text`, in order.
pub fn chars_of(text: &str) -> (chars: Vec<char>)
    ensures
        chars@ == text@,
{
    broadcast use vstd::string::group_string_axioms;

    let mut chars: Vec<char> = Vec::new();
    let mut rest = text.chars();
    loop
        invariant
            rest.obeys_prophetic_iter_laws(),
            chars@ + rest.remaining() == text@,
        ensures
            chars@ == text@,
        decreases text@.len() - chars@.len(),
    {
        match rest.next() {
            Some(c) => {
                chars.push(c);
            },
            None => {
                break ;
            },
        }
    }
    chars
}

/// The number of bytes that `text` takes in UTF-8.
pub open spec fn byte_len(text: Seq<char>) -> int {
    encode_utf8(text).len() as int
}

/// The byte offset `at` lies between two characters of `text`, or at one of
/// its ends.
pub open spec fn on_boundary(text: Seq<char>, at: int) -> bool {
    is_char_boundary(encode_utf8(text), at)
}

/// The byte offsets `from` and `to` enclose whole characters of `text`.
pub open spec fn span_fits(text: Seq<char>, from: int, to: int) -> bool {
    &&& 0 <= from <= to <= byte_len(text)
    &&& on_boundary(text, from)
    &&& on_boundary(text, to)
}

/// The characters of `text` between the byte offsets `from` and `to`.
pub open spec fn span(text: Seq<char>, from: int, to: int) -> Seq<char>
    recommends
        span_fits(text, from, to),
{
    decode_utf8(encode_utf8(text).subrange(from, to))
}

/// A boundary of a text is a boundary of each prefix that reaches it.
proof fn lemma_boundary_in_prefix(bytes: Seq<u8>, from: int, to: int)
    requires
        vstd::utf8::valid_utf8(bytes),
        0 <= from <= to <= bytes.len(),
        is_char_boundary(bytes, from),
        is_char_boundary(bytes, to),
    ensures
        vstd::utf8::valid_utf8(bytes.subrange(0, to)),
        is_char_boundary(bytes.subrange(0, to), from),
{
    let head = bytes.subrange(0, to);
    valid_utf8_split(bytes, to);
    if from == to {
        is_char_boundary_start_end_of_seq(head);
    } else {
        is_char_boundary_iff_not_is_continuation_byte(bytes, from);
        is_char_boundary_iff_not_is_continuation_byte(head, from);
    }
}

/// The whole of a text is the span from its first byte to its last.
pub proof fn lemma_span_whole(text: Seq<char>)
    ensures
        span_fits(text, 0, byte_len(text)),
        span(text, 0, byte_len(text)) == text,
{
    broadcast use vstd::utf8::group_utf8_lib;

    let bytes = encode_utf8(text);
    assert(bytes.subrange(0, bytes.len() as int) =~= bytes);
}

/// The part of `text` between two byte offsets that enclose whole
/// characters.
pub fn cut(text: &str, from: usize, to: usize) -> (part: &str)
    requires
        span_fits(text@, from as int, to as int),
    ensures
        part@ == span(text@, from as int, to as int),
{
    broadcast use vstd::utf8::encode_utf8_valid_utf8, vstd::utf8::encode_utf8_decode_utf8;

    proof {
        lemma_boundary_in_prefix(text.spec_bytes(), from as int, to as int);
    }
    let (head, _) = text.split_at(to);
    let (_, part) = head.split_at(from);
    proof {
        let bytes = text.spec_bytes();
        assert(part.spec_bytes() =~= bytes.subrange(from as int, to as int));
        assert(decode_utf8(encode_utf8(part@)) == part@);
    }
    part
}

/// Whether the byte offsets `from` and `to` enclose whole characters of
/// `text`.
pub fn encloses(text: &str, from: usize, to: usize) -> (fits: bool)
    ensures
        fits == span_fits(text@, from as int, to as int),
{
    let len = text.as_bytes().len();
    from <= to && to <= len && text.is_char_boundary(from) && text.is_char_boundary(to)
}

/// Whether two texts hold the same characters.
pub fn same_text(a: &str, b: &str) -> (same: bool)
    ensures
        same == (a@ == b@),
{
    broadcast use vstd::utf8::encode_utf8_decode_utf8;

    let x = a.as_bytes();
    let y = b.as_bytes();
    assert(decode_utf8(encode_utf8(a@)) == a@);
    assert(decode_utf8(encode_utf8(b@)) == b@);
    if x.len() != y.len() {
        return false;
    }
    let mut k: usize = 0;
    while k < x.len()
        invariant
            k <= x.len(),
            x.len() == y.len(),
            x@ == encode_utf8(a@),
            y@ == encode_utf8(b@),
            forall|j: int| 0 <= j < k ==> x@[j] == y@[j],
        decreases x.len() - k,
    {
        if x[k] != y[k] {
            return false;
        }
        k += 1;
    }
    assert(x@ =~= y@);
    true
}

} // verus!
