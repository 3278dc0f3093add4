//! Words as the segmentation engine reports them, and the call that asks for
//! them.

use crate::encoding::byte_len;
use vstd::prelude::*;

verus! {

/// The segmentation engine with its dictionary. Nothing inside it is visible
/// here: a value of it is only handed on to the engine's own functions.
#[verifier::external_type_specification]
#[verifier::external_body]
pub struct ExJieba(jieba_rs::Jieba);

/// The derived `Clone` of `jieba_rs::Jieba` copies every part of the engine,
/// so the copy is the same engine.
pub assume_specification[ <jieba_rs::Jieba as Clone>::clone ](
    engine: &jieba_rs::Jieba,
) -> (copy: jieba_rs::Jieba)
    ensures
        copy == *engine,
;

/// One word that the engine found in a text.
#[derive(Debug, Clone, Copy, PartialEq, Eq)]
pub struct Segment<'a> {
    /// The word, a slice of the text.
    pub word: &'a str,
    /// Index in the text of the word's first character.
    pub start: usize,
    /// Index in the text of the character after the word's last.
    pub end: usize,
    /// Byte offset in the text of the word's first character.
    pub byte_start: usize,
}

/// What a [`Segment`] holds, as mathematical values.
pub struct SegmentView {
    pub word: Seq<char>,
    pub start: nat,
    pub end: nat,
    pub byte_start: nat,
}

impl<'a> View for Segment<'a> {
    type V = SegmentView;

    open spec fn view(&self) -> SegmentView {
        SegmentView {
            word: self.word@,
            start: self.start as nat,
            end: self.end as nat,
            byte_start: self.byte_start as nat,
        }
    }
}

impl SegmentView {
    /// The segment is a word of `text`: a non-empty run of its characters,
    /// found at the character indices and at the byte offset that the segment
    /// names.
    pub open spec fn fits(self, text: Seq<char>) -> bool {
        &&& self.start < self.end <= text.len()
        &&& self.word == text.subrange(self.start as int, self.end as int)
        &&& self.byte_start == byte_len(text.subrange(0, self.start as int))
    }
}

/// Every segment of the sequence is a word of `text`.
pub open spec fn all_fit(segments: Seq<SegmentView>, text: Seq<char>) -> bool {
    forall|i: int| 0 <= i < segments.len() ==> (#[trigger] segments[i]).fits(text)
}

/// The views of a sequence of segments, in order.
pub open spec fn segment_views<'a>(segments: Seq<Segment<'a>>) -> Seq<SegmentView> {
    segments.map_values(|segment: Segment<'a>| segment@)
}

/// The words that the engine reports for `text` in search mode, with its
/// hidden Markov model switched on, in the engine's order: the words of its
/// segmentation, each after the shorter words that the engine offers inside
/// it.
pub uninterp spec fn search_segments(engine: jieba_rs::Jieba, text: Seq<char>) -> Seq<SegmentView>;

/// Calls `jieba_rs::Jieba::tokenize` with `TokenizeMode::Search` and the
/// hidden Markov model on, and copies from each token that it returns the
/// word, the two character positions and the byte start.
///
/// The contract claims that the call is a function of the engine and the
/// text, and that each token is a non-empty slice of the text whose `start`
/// and `end` count the characters, and whose `byte_start` counts the bytes,
/// that stand before it. The engine keeps byte offsets inside a run of
/// characters in 32 bits, so longer texts are left out.
#[verifier::external_body]
pub(crate) fn search<'a>(engine: &jieba_rs::Jieba, text: &'a str) -> (segments: Vec<Segment<'a>>)
    requires
        text.len() <= u32::MAX,
    ensures
        segment_views(segments@) == search_segments(*engine, text@),
        all_fit(segment_views(segments@), text@),
{
    engine
        .tokenize(text, jieba_rs::TokenizeMode::Search, true)
        .into_iter()
        .map(|token| Segment {
            word: token.word,
            start: token.start,
            end: token.end,
            byte_start: token.byte_start,
        })
        .collect()
}

} // verus!
