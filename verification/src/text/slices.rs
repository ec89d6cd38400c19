//! Byte ranges of a text.
use vstd::prelude::*;
use vstd::utf8::{
    decode_utf8, decode_utf8_split, encode_utf8, encode_utf8_decode_utf8, encode_utf8_valid_utf8,
    is_ascii_chars, is_ascii_chars_encode_utf8, is_ascii_chars_nat_bound, is_char_boundary,
    is_char_boundary_iff_not_is_continuation_byte, is_char_boundary_start_end_of_seq,
    valid_utf8_split,
};

verus! {

/// How many bytes a text takes in UTF-8.
pub open spec fn byte_len(text: Seq<char>) -> nat {
    encode_utf8(text).len()
}

/// Whether a character of the text starts at byte `index`, or the text ends
/// there.
pub open spec fn on_boundary(text: Seq<char>, index: int) -> bool {
    is_char_boundary(encode_utf8(text), index)
}

/// The characters in the bytes `from..to` of a text.
pub open spec fn byte_slice(text: Seq<char>, from: int, to: int) -> Seq<char> {
    decode_utf8(encode_utf8(text).subrange(from, to))
}

/// A boundary of the text that lies within a prefix is one of the prefix too.
proof fn lemma_boundary_in_prefix(text: Seq<char>, prefix: Seq<char>, to: int, index: int)
    requires
        0 <= index <= to <= byte_len(text),
        encode_utf8(prefix) == encode_utf8(text).subrange(0, to),
        on_boundary(text, index),
    ensures
        on_boundary(prefix, index),
{
    let bytes = encode_utf8(text);
    let prefix_bytes = encode_utf8(prefix);
    encode_utf8_valid_utf8(text);
    encode_utf8_valid_utf8(prefix);
    if index == to {
        is_char_boundary_start_end_of_seq(prefix_bytes);
    } else {
        is_char_boundary_iff_not_is_continuation_byte(bytes, index);
        is_char_boundary_iff_not_is_continuation_byte(prefix_bytes, index);
        assert(prefix_bytes[index] == bytes[index]);
    }
}

/// How many bytes a text takes in UTF-8.
pub fn text_byte_len(text: &str) -> (len: usize)
    ensures
        len == byte_len(text@),
{
    text.as_bytes().len()
}

/// The part of a text in the bytes `from..to`.
pub fn slice_text(text: &str, from: usize, to: usize) -> (part: &str)
    requires
        from <= to <= byte_len(text@),
        on_boundary(text@, from as int),
        on_boundary(text@, to as int),
    ensures
        part@ == byte_slice(text@, from as int, to as int),
{
    let (prefix, _) = text.split_at(to);
    proof {
        lemma_boundary_in_prefix(text@, prefix@, to as int, from as int);
    }
    let (_, part) = prefix.split_at(from);
    proof {
        assert(encode_utf8(part@) =~= encode_utf8(text@).subrange(from as int, to as int));
        encode_utf8_decode_utf8(part@);
    }
    part
}

/// The whole byte range holds the whole text.
pub proof fn lemma_byte_slice_all(text: Seq<char>)
    ensures
        byte_slice(text, 0, byte_len(text) as int) == text,
{
    let bytes = encode_utf8(text);
    assert(bytes.subrange(0, bytes.len() as int) =~= bytes);
    encode_utf8_decode_utf8(text);
}

/// An empty byte range holds no text.
pub proof fn lemma_byte_slice_none(text: Seq<char>, at: int)
    requires
        0 <= at <= byte_len(text),
    ensures
        byte_slice(text, at, at) == Seq::<char>::empty(),
{
    let bytes = encode_utf8(text);
    assert(bytes.subrange(at, at) =~= Seq::<u8>::empty());
}

/// Two byte ranges that meet on a boundary hold together what the joined range
/// holds.
pub proof fn lemma_byte_slice_join(text: Seq<char>, from: int, mid: int, to: int)
    requires
        0 <= from <= mid <= to <= byte_len(text),
        on_boundary(text, from),
        on_boundary(text, mid),
        on_boundary(text, to),
    ensures
        byte_slice(text, from, mid) + byte_slice(text, mid, to) == byte_slice(text, from, to),
{
    let bytes = encode_utf8(text);
    encode_utf8_valid_utf8(text);
    valid_utf8_split(bytes, to);
    let prefix_bytes = bytes.subrange(0, to);
    let prefix = decode_utf8(prefix_bytes);
    vstd::utf8::decode_utf8_encode_utf8(prefix_bytes);
    lemma_boundary_in_prefix(text, prefix, to, from);
    lemma_boundary_in_prefix(text, prefix, to, mid);
    valid_utf8_split(prefix_bytes, from);
    let joined = prefix_bytes.subrange(from, to);
    assert(joined =~= bytes.subrange(from, to));
    if from == mid {
        lemma_byte_slice_none(text, from);
        assert(byte_slice(text, from, mid) + byte_slice(text, mid, to) =~= byte_slice(
            text,
            from,
            to,
        ));
    } else if mid == to {
        lemma_byte_slice_none(text, to);
        assert(byte_slice(text, from, mid) + byte_slice(text, mid, to) =~= byte_slice(
            text,
            from,
            to,
        ));
    } else {
        is_char_boundary_iff_not_is_continuation_byte(prefix_bytes, mid);
        is_char_boundary_iff_not_is_continuation_byte(joined, mid - from);
        assert(joined[mid - from] == prefix_bytes[mid]);
        decode_utf8_split(joined, mid - from);
        assert(joined.subrange(0, mid - from) =~= bytes.subrange(from, mid));
        assert(joined.subrange(mid - from, joined.len() as int) =~= bytes.subrange(mid, to));
    }
}

/// In a text of ASCII characters bytes and characters are counted alike.
pub proof fn lemma_ascii_slice(text: Seq<char>, from: int, to: int)
    requires
        is_ascii_chars(text),
        0 <= from <= to <= text.len(),
    ensures
        byte_len(text) == text.len(),
        on_boundary(text, from),
        on_boundary(text, to),
        byte_slice(text, from, to) == text.subrange(from, to),
{
    let bytes = encode_utf8(text);
    let part = text.subrange(from, to);
    is_ascii_chars_encode_utf8(text);
    is_ascii_chars_encode_utf8(part);
    assert(encode_utf8(part) =~= bytes.subrange(from, to));
    encode_utf8_decode_utf8(part);
    encode_utf8_valid_utf8(text);
    is_char_boundary_start_end_of_seq(bytes);
    if from < text.len() {
        lemma_ascii_boundary(text, from);
    }
    if to < text.len() {
        lemma_ascii_boundary(text, to);
    }
}

proof fn lemma_ascii_boundary(text: Seq<char>, index: int)
    requires
        is_ascii_chars(text),
        0 <= index < text.len(),
    ensures
        on_boundary(text, index),
{
    let bytes = encode_utf8(text);
    is_ascii_chars_encode_utf8(text);
    is_ascii_chars_nat_bound(text);
    encode_utf8_valid_utf8(text);
    is_char_boundary_iff_not_is_continuation_byte(bytes, index);
    let byte = bytes[index];
    assert(byte == text[index] as u8);
    assert(byte < 0x80);
}

} // verus!
