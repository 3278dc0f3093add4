//! The two bindings of a tokenizer to its engine.

use crate::segment::{search, search_segments};
use crate::stream::{JiebaTokenStream, StreamView};
use vstd::prelude::*;

verus! {

/// Tokenizer over an engine that the caller keeps and shares between all
/// streams.
#[derive(Clone)]
pub struct JiebaTokenizer;

/// Tokenizer over an engine of its own.
pub struct CustomJiebaTokenizer {
    jieba: jieba_rs::Jieba,
}

/// The fresh stream over the words that `engine` finds in `text`.
pub open spec fn opening_stream(engine: jieba_rs::Jieba, text: Seq<char>) -> StreamView {
    StreamView::opening(text, search_segments(engine, text))
}

/// Segments `text` once and opens a stream over what the engine found.
fn token_stream_common<'a>(jieba: &jieba_rs::Jieba, text: &'a str) -> (stream: JiebaTokenStream<'a>)
    requires
        text.len() <= u32::MAX,
    ensures
        stream@ == opening_stream(*jieba, text@),
        stream@.wf(),
        text@.len() == 0 ==> !stream@.has_next(),
{
    let segments = search(jieba, text);
    JiebaTokenStream::new(text, segments)
}

impl JiebaTokenizer {
    /// A stream over the words that `engine` finds in `text`. The engine
    /// addresses the bytes of a text with 32 bits, which bounds the text.
    pub fn token_stream<'a>(
        &mut self,
        engine: &jieba_rs::Jieba,
        text: &'a str,
    ) -> (stream: JiebaTokenStream<'a>)
        requires
            text.len() <= u32::MAX,
        ensures
            stream@ == opening_stream(*engine, text@),
            stream@.wf(),
            text@.len() == 0 ==> !stream@.has_next(),
            *final(self) == *old(self),
    {
        token_stream_common(engine, text)
    }
}

impl CustomJiebaTokenizer {
    /// The engine that the tokenizer owns.
    pub closed spec fn engine(&self) -> jieba_rs::Jieba {
        self.jieba
    }

    /// A tokenizer over `jieba`.
    pub fn new(jieba: jieba_rs::Jieba) -> (tokenizer: Self)
        ensures
            tokenizer.engine() == jieba,
    {
        Self { jieba }
    }

    /// Gives the engine back and ends the tokenizer.
    pub fn into_jieba(self) -> (jieba: jieba_rs::Jieba)
        ensures
            jieba == self.engine(),
    {
        self.jieba
    }

    /// A stream over the words that the tokenizer's engine finds in `text`.
    /// The engine addresses the bytes of a text with 32 bits, which bounds
    /// the text.
    pub fn token_stream<'a>(&mut self, text: &'a str) -> (stream: JiebaTokenStream<'a>)
        requires
            text.len() <= u32::MAX,
        ensures
            stream@ == opening_stream(old(self).engine(), text@),
            stream@.wf(),
            text@.len() == 0 ==> !stream@.has_next(),
            *final(self) == *old(self),
    {
        token_stream_common(&self.jieba, text)
    }
}

impl Clone for CustomJiebaTokenizer {
    /// A tokenizer over a copy of the engine.
    fn clone(&self) -> (copy: Self)
        ensures
            copy.engine() == self.engine(),
    {
        Self { jieba: self.jieba.clone() }
    }
}

/// The two bindings agree: over the same engine and the same text, the
/// tokenizer with an engine of its own and the one on a shared engine open
/// the same stream. Both yield the same tokens in the same order, and after
/// any number of advances both show the same token.
pub proof fn lemma_bindings_agree(
    shared: jieba_rs::Jieba,
    custom: CustomJiebaTokenizer,
    text: Seq<char>,
    steps: nat,
)
    requires
        custom.engine() == shared,
    ensures
        opening_stream(custom.engine(), text) == opening_stream(shared, text),
        opening_stream(custom.engine(), text).yields() == opening_stream(shared, text).yields(),
        opening_stream(custom.engine(), text).after(steps).token == opening_stream(
            shared,
            text,
        ).after(steps).token,
{
}

} // verus!
