//! The unit that a token stream yields.

use vstd::prelude::*;
use vstd::utf8::{encode_utf8, is_char_boundary};

verus! {

/// One word of a text, as an index wants it.
#[derive(Debug, PartialEq, Eq)]
pub struct Token {
    /// Byte offset of the word's first character in the text.
    pub offset_from: usize,
    /// Byte offset just past the word's last character.
    pub offset_to: usize,
    /// Position of the word: the number of characters that stand before it.
    pub position: usize,
    /// The word itself.
    pub text: String,
    /// Number of positions that the word spans: its length in characters.
    pub position_length: usize,
}

/// What a [`Token`] holds, as mathematical values.
pub struct TokenView {
    pub offset_from: nat,
    pub offset_to: nat,
    pub position: nat,
    pub text: Seq<char>,
    pub position_length: nat,
}

impl View for Token {
    type V = TokenView;

    open spec fn view(&self) -> TokenView {
        TokenView {
            offset_from: self.offset_from as nat,
            offset_to: self.offset_to as nat,
            position: self.position as nat,
            text: self.text@,
            position_length: self.position_length as nat,
        }
    }
}

impl TokenView {
    /// The token that stands in a stream which has no word to show: empty,
    /// at no position, one position long.
    pub open spec fn blank() -> TokenView {
        TokenView {
            offset_from: 0,
            offset_to: 0,
            position: usize::MAX as nat,
            text: Seq::empty(),
            position_length: 1,
        }
    }

    /// The token marks a word of `text`: its offsets bound a non-empty run of
    /// the text's bytes, both fall where a character begins or the text ends,
    /// and the bytes between them are the bytes of the token's own text.
    pub open spec fn spans(self, text: Seq<char>) -> bool {
        let bytes = encode_utf8(text);
        &&& self.offset_from < self.offset_to <= bytes.len()
        &&& is_char_boundary(bytes, self.offset_from as int)
        &&& is_char_boundary(bytes, self.offset_to as int)
        &&& bytes.subrange(self.offset_from as int, self.offset_to as int) == encode_utf8(
            self.text,
        )
    }
}

/// Calls `tantivy_tokenizer_api::Token::default` and copies the five fields
/// over. The contract repeats the literal that this function returns: zero
/// offsets, position `usize::MAX`, an empty text, and a length of one.
#[verifier::external_body]
fn blank_token() -> (token: Token)
    ensures
        token@ == TokenView::blank(),
{
    let blank = tantivy_tokenizer_api::Token::default();
    Token {
        offset_from: blank.offset_from,
        offset_to: blank.offset_to,
        position: blank.position,
        text: blank.text,
        position_length: blank.position_length,
    }
}

impl Clone for Token {
    /// A token with the same offsets, position and length, and a text of
    /// its own.
    fn clone(&self) -> (copy: Token)
        ensures
            copy@ == self@,
    {
        Token {
            offset_from: self.offset_from,
            offset_to: self.offset_to,
            position: self.position,
            text: self.text.clone(),
            position_length: self.position_length,
        }
    }
}

impl Default for Token {
    /// The blank token of the tokenizer interface.
    fn default() -> (token: Token)
        ensures
            token@ == TokenView::blank(),
    {
        blank_token()
    }
}

} // verus!
