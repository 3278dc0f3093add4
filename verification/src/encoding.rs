//! Facts about the UTF-8 encoding of character sequences: how byte counts
//! add up, and where characters begin.

use vstd::prelude::*;
use vstd::utf8::*;

verus! {

/// Number of bytes that `chars` takes in UTF-8.
pub open spec fn byte_len(chars: Seq<char>) -> nat {
    encode_utf8(chars).len()
}

/// Encoding distributes over concatenation.
pub proof fn lemma_encode_concat(a: Seq<char>, b: Seq<char>)
    ensures
        encode_utf8(a + b) == encode_utf8(a) + encode_utf8(b),
        byte_len(a + b) == byte_len(a) + byte_len(b),
    decreases a.len(),
{
    if a.len() > 0 {
        assert((a + b).drop_first() =~= a.drop_first() + b);
        lemma_encode_concat(a.drop_first(), b);
    }
}

/// No text is shorter in bytes than in characters, nor more than four times
/// as long.
pub proof fn lemma_byte_len_bounds(chars: Seq<char>)
    ensures
        chars.len() <= byte_len(chars) <= 4 * chars.len(),
    decreases chars.len(),
{
    if chars.len() > 0 {
        lemma_byte_len_bounds(chars.drop_first());
    }
}

/// The bytes of a part of a text stand in the text's bytes, after the bytes
/// of everything before the part.
pub proof fn lemma_encode_subrange(text: Seq<char>, from: int, to: int)
    requires
        0 <= from <= to <= text.len(),
    ensures
        byte_len(text.subrange(0, from)) + byte_len(text.subrange(from, to)) <= byte_len(text),
        encode_utf8(text).subrange(
            byte_len(text.subrange(0, from)) as int,
            (byte_len(text.subrange(0, from)) + byte_len(text.subrange(from, to))) as int,
        ) == encode_utf8(text.subrange(from, to)),
{
    let before = text.subrange(0, from);
    let part = text.subrange(from, to);
    let after = text.subrange(to, text.len() as int);
    assert(text =~= (before + part) + after);
    lemma_encode_concat(before, part);
    lemma_encode_concat(before + part, after);
    assert(encode_utf8(text).subrange(
        byte_len(before) as int,
        (byte_len(before) + byte_len(part)) as int,
    ) =~= encode_utf8(part));
}

/// The byte count of a prefix of a text is a character boundary of the
/// text's bytes.
pub proof fn lemma_prefix_is_boundary(text: Seq<char>, upto: int)
    requires
        0 <= upto <= text.len(),
    ensures
        is_char_boundary(encode_utf8(text), byte_len(text.subrange(0, upto)) as int),
    decreases upto,
{
    let bytes = encode_utf8(text);
    encode_utf8_valid_utf8(text);
    if upto > 0 {
        let prefix = text.subrange(0, upto);
        let rest = text.drop_first();
        encode_utf8_first_scalar(text);
        assert(prefix.drop_first() =~= rest.subrange(0, upto - 1));
        assert(pop_first_scalar(bytes) =~= encode_utf8(rest));
        lemma_prefix_is_boundary(rest, upto - 1);
    }
}

} // verus!
