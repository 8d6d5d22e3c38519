//! Facts about UTF-8 that relate the bytes of a string to its characters.
//!
//! Line feeds and carriage returns are ASCII, so they can be searched for in the
//! bytes of a string. The lemmas here carry what such a search finds over to the
//! characters.

use vstd::prelude::*;
use vstd::utf8::*;

verus! {

/// True when `c` is encoded as the single byte of the same value.
pub open spec fn is_ascii_char(c: char) -> bool {
    c as u32 <= 0x7f
}

/// An ASCII character is encoded as itself; every byte of any other character has
/// its high bit set.
pub proof fn lemma_encode_scalar_bytes(c: char)
    ensures
        1 <= encode_scalar(c as u32).len() <= 4,
        is_ascii_char(c) ==> c as u8 == c as u32 && (c as u8) as char == c,
        is_ascii_char(c) ==> encode_scalar(c as u32) == seq![c as u8],
        !is_ascii_char(c) ==> forall|j: int|
            0 <= j < encode_scalar(c as u32).len() ==> #[trigger] encode_scalar(c as u32)[j]
                >= 0x80,
{
    let s = c as u32;
    assert(s <= 0x7f ==> (s & 0x7F) as u8 == s as u8) by (bit_vector);
    assert((0xC0 | ((s >> 6) & 0x1F) as u8) >= 0x80) by (bit_vector);
    assert((0xE0 | ((s >> 12) & 0x0F) as u8) >= 0x80) by (bit_vector);
    assert((0xF0 | ((s >> 18) & 0x7) as u8) >= 0x80) by (bit_vector);
    assert((0x80 | (s & 0x3F) as u8) >= 0x80) by (bit_vector);
    assert((0x80 | ((s >> 6) & 0x3F) as u8) >= 0x80) by (bit_vector);
    assert((0x80 | ((s >> 12) & 0x3F) as u8) >= 0x80) by (bit_vector);
    if is_ascii_char(c) {
        assert(encode_scalar(s) =~= seq![c as u8]);
    }
}

/// Encoding distributes over concatenation.
pub proof fn lemma_encode_concat(a: Seq<char>, b: Seq<char>)
    ensures
        encode_utf8(a + b) == encode_utf8(a) + encode_utf8(b),
    decreases a.len(),
{
    if a.len() == 0 {
        assert(a + b =~= b);
        assert(encode_utf8(a) + encode_utf8(b) =~= encode_utf8(b));
    } else {
        assert((a + b).drop_first() =~= a.drop_first() + b);
        lemma_encode_concat(a.drop_first(), b);
        assert(encode_utf8(a + b) =~= encode_utf8(a) + encode_utf8(b));
    }
}

/// A text has at most as many characters as its encoding has bytes.
pub proof fn lemma_encode_len(chars: Seq<char>)
    ensures
        chars.len() <= encode_utf8(chars).len(),
    decreases chars.len(),
{
    if chars.len() > 0 {
        lemma_encode_scalar_bytes(chars[0]);
        lemma_encode_len(chars.drop_first());
    }
}

/// The encoding of a text starts with an ASCII byte just where the text starts
/// with an ASCII character, and the byte is that character.
pub proof fn lemma_first_byte(chars: Seq<char>)
    requires
        chars.len() > 0,
    ensures
        encode_utf8(chars).len() > 0,
        encode_utf8(chars)[0] < 0x80 <==> is_ascii_char(chars[0]),
        is_ascii_char(chars[0]) ==> encode_utf8(chars)[0] as char == chars[0],
{
    lemma_encode_scalar_bytes(chars[0]);
    let first = encode_scalar(chars[0] as u32);
    assert(encode_utf8(chars)[0] == first[0]);
}

/// The encoding of a text ends with an ASCII byte just where the text ends with
/// an ASCII character, and the byte is that character.
pub proof fn lemma_last_byte(chars: Seq<char>)
    requires
        chars.len() > 0,
    ensures
        encode_utf8(chars).len() > 0,
        encode_utf8(chars).last() < 0x80 <==> is_ascii_char(chars.last()),
        is_ascii_char(chars.last()) ==> encode_utf8(chars).last() as char == chars.last(),
{
    let init = chars.drop_last();
    let last = seq![chars.last()];
    assert(chars =~= init + last);
    lemma_encode_concat(init, last);
    lemma_encode_scalar_bytes(chars.last());
    let tail = encode_scalar(chars.last() as u32);
    assert(encode_utf8(last) =~= tail) by {
        assert(last.drop_first() =~= Seq::<char>::empty());
        assert(encode_utf8(last.drop_first()) =~= Seq::<u8>::empty());
    }
    assert(encode_utf8(chars).last() == tail[tail.len() - 1]);
}

/// An ASCII character of the text occurs as a byte of its encoding.
pub proof fn lemma_ascii_char_has_byte(chars: Seq<char>, k: int) -> (j: int)
    requires
        0 <= k < chars.len(),
        is_ascii_char(chars[k]),
    ensures
        0 <= j < encode_utf8(chars).len(),
        encode_utf8(chars)[j] == chars[k] as u8,
    decreases k,
{
    lemma_encode_scalar_bytes(chars[0]);
    if k == 0 {
        0
    } else {
        let first = encode_scalar(chars[0] as u32);
        let j = lemma_ascii_char_has_byte(chars.drop_first(), k - 1);
        assert(encode_utf8(chars)[first.len() + j] == encode_utf8(chars.drop_first())[j]);
        first.len() + j
    }
}

/// A text cut at a character boundary of its encoding is the two parts put
/// together.
pub proof fn lemma_split_at_boundary(text: Seq<char>, head: Seq<char>, tail: Seq<char>, mid: int)
    requires
        is_char_boundary(encode_utf8(text), mid),
        encode_utf8(head) == encode_utf8(text).subrange(0, mid),
        encode_utf8(tail) == encode_utf8(text).subrange(mid, encode_utf8(text).len() as int),
    ensures
        text == head + tail,
{
    let bytes = encode_utf8(text);
    encode_utf8_valid_utf8(text);
    decode_utf8_split(bytes, mid);
    encode_utf8_decode_utf8(text);
    encode_utf8_decode_utf8(head);
    encode_utf8_decode_utf8(tail);
}

/// A text whose encoding is one ASCII byte is that one character.
pub proof fn lemma_single_ascii_byte(chars: Seq<char>)
    requires
        encode_utf8(chars).len() == 1,
        encode_utf8(chars)[0] < 0x80,
    ensures
        chars == seq![encode_utf8(chars)[0] as char],
{
    lemma_encode_len(chars);
    lemma_first_byte(chars);
    assert(chars =~= seq![encode_utf8(chars)[0] as char]);
}

} // verus!
