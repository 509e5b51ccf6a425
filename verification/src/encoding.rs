//! Texts as bytes. A text is seen as its characters; the matcher of wildcards
//! reads bytes. This file ties the two together, and says where a text can be
//! cut without cutting a character.
use vstd::prelude::*;
use vstd::string::*;
use vstd::utf8::*;

verus! {

/// The bytes of a text.
pub open spec fn bytes_of(text: Seq<char>) -> Seq<u8> {
    encode_utf8(text)
}

/// Two texts with the same bytes are the same text.
pub proof fn lemma_same_bytes_same_text(a: Seq<char>, b: Seq<char>)
    requires
        bytes_of(a) == bytes_of(b),
    ensures
        a == b,
{
    encode_utf8_decode_utf8(a);
    encode_utf8_decode_utf8(b);
}

/// In the first `end` bytes of a text, the characters begin where they begin
/// in the whole text, as long as `end` itself cuts no character.
pub proof fn lemma_boundary_in_prefix(bytes: Seq<u8>, first: int, end: int)
    requires
        valid_utf8(bytes),
        is_char_boundary(bytes, end),
        0 <= first <= end <= bytes.len(),
    ensures
        valid_utf8(bytes.subrange(0, end)),
        is_char_boundary(bytes.subrange(0, end), first) == is_char_boundary(bytes, first),
{
    let head = bytes.subrange(0, end);
    valid_utf8_split(bytes, end);
    if first == end {
        is_char_boundary_start_end_of_seq(head);
    } else {
        is_char_boundary_iff_not_is_continuation_byte(bytes, first);
        is_char_boundary_iff_not_is_continuation_byte(head, first);
    }
}

/// In a text, a byte below 128 is a character of its own: a character begins
/// at it, and one begins behind it.
pub proof fn lemma_plain_byte_is_char(bytes: Seq<u8>, at: int)
    requires
        valid_utf8(bytes),
        0 <= at < bytes.len(),
        bytes[at] < 0x80,
    ensures
        is_char_boundary(bytes, at),
        is_char_boundary(bytes, at + 1),
{
    is_char_boundary_iff_not_is_continuation_byte(bytes, at);
    if at + 1 == bytes.len() {
        is_char_boundary_start_end_of_seq(bytes);
    } else {
        valid_utf8_split(bytes, at);
        let rest = bytes.subrange(at, bytes.len() as int);
        assert(rest[0] == bytes[at]);
        assert(length_of_first_scalar(rest) == 1);
        let behind = pop_first_scalar(rest);
        assert(behind =~= bytes.subrange(at + 1, bytes.len() as int));
        assert(valid_utf8(behind));
        assert(behind[0] == bytes[at + 1]);
        assert(valid_first_scalar(behind));
        is_char_boundary_iff_not_is_continuation_byte(bytes, at + 1);
    }
}

/// In a text, the characters begin behind each text that it begins with.
pub proof fn lemma_boundary_behind_start(first: Seq<u8>, rest: Seq<u8>)
    requires
        valid_utf8(first),
        valid_utf8(rest),
    ensures
        valid_utf8(first + rest),
        is_char_boundary(first + rest, first.len() as int),
    decreases first.len(),
{
    valid_utf8_concat(first, rest);
    if first.len() == 0 {
    } else {
        let whole = first + rest;
        let behind = pop_first_scalar(first);
        assert(length_of_first_scalar(whole) == length_of_first_scalar(first));
        assert(pop_first_scalar(whole) =~= behind + rest);
        lemma_boundary_behind_start(behind, rest);
    }
}

/// The bytes of two texts, one behind the other, are the bytes of the one
/// and then the bytes of the other.
pub proof fn lemma_bytes_of_concat(first: Seq<char>, rest: Seq<char>)
    ensures
        bytes_of(first + rest) == bytes_of(first) + bytes_of(rest),
{
    let a = bytes_of(first);
    let b = bytes_of(rest);
    encode_utf8_valid_utf8(first);
    encode_utf8_valid_utf8(rest);
    lemma_boundary_behind_start(a, b);
    decode_utf8_split(a + b, a.len() as int);
    assert((a + b).subrange(0, a.len() as int) =~= a);
    assert((a + b).subrange(a.len() as int, (a + b).len() as int) =~= b);
    encode_utf8_decode_utf8(first);
    encode_utf8_decode_utf8(rest);
    assert(decode_utf8(a + b) =~= first + rest);
    decode_utf8_encode_utf8(a + b);
}

/// Returns the part of `text` from the byte `from` up to the byte `to`.
pub(crate) fn slice_text<'a>(text: &'a str, from: usize, to: usize) -> (r: &'a str)
    requires
        from <= to <= text.spec_bytes().len(),
        is_char_boundary(text.spec_bytes(), from as int),
        is_char_boundary(text.spec_bytes(), to as int),
    ensures
        r.spec_bytes() == text.spec_bytes().subrange(from as int, to as int),
{
    proof {
        encode_utf8_valid_utf8(text@);
        lemma_boundary_in_prefix(text.spec_bytes(), from as int, to as int);
    }
    let (head, _) = text.split_at(to);
    let (_, part) = head.split_at(from);
    assert(head.spec_bytes().subrange(from as int, to as int) =~= text.spec_bytes().subrange(
        from as int,
        to as int,
    ));
    part
}

} // verus!
