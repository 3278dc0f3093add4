//! The token stream: a cursor over the engine's words that shows one token
//! at a time.

use crate::encoding::{
    byte_len, lemma_byte_len_bounds, lemma_encode_concat, lemma_encode_subrange,
    lemma_prefix_is_boundary,
};
use crate::segment::{all_fit, segment_views, Segment, SegmentView};
use crate::token::{Token, TokenView};
use vstd::prelude::*;
use vstd::string::StringExecFns;

verus! {

/// Empties a `String` and keeps its storage, as the documentation of
/// `String::clear` says.
pub assume_specification[ String::clear ](text: &mut String)
    ensures
        final(text)@ == Seq::<char>::empty(),
;

/// The token that a stream shows for a segment: the segment's byte start and
/// the byte just past its word, its first character's index as the position,
/// and the number of characters as the position length.
pub open spec fn token_of(segment: SegmentView) -> TokenView {
    TokenView {
        offset_from: segment.byte_start,
        offset_to: segment.byte_start + byte_len(segment.word),
        position: segment.start,
        text: segment.word,
        position_length: (segment.end - segment.start) as nat,
    }
}

/// The state of a token stream, as mathematical values.
pub struct StreamView {
    /// The text that was segmented.
    pub text: Seq<char>,
    /// The engine's words, in the order in which they are shown.
    pub segments: Seq<SegmentView>,
    /// Number of words shown so far.
    pub index: nat,
    /// The token on show.
    pub token: TokenView,
}

impl StreamView {
    /// The cursor is within the words, every word is a word of the text, and
    /// the text's byte length is a machine integer.
    pub open spec fn wf(self) -> bool {
        &&& self.index <= self.segments.len()
        &&& all_fit(self.segments, self.text)
        &&& byte_len(self.text) <= usize::MAX
    }

    /// A word is left to show.
    pub open spec fn has_next(self) -> bool {
        self.index < self.segments.len()
    }

    /// The state after one advance: the next word on show and the cursor past
    /// it, or the same state where no word is left.
    pub open spec fn next(self) -> StreamView {
        if self.has_next() {
            StreamView {
                index: self.index + 1,
                token: token_of(self.segments[self.index as int]),
                ..self
            }
        } else {
            self
        }
    }

    /// The state of a fresh stream over `segments`: nothing consumed, and on
    /// show the token of the first word, or the blank token where there is no
    /// word.
    pub open spec fn opening(text: Seq<char>, segments: Seq<SegmentView>) -> StreamView {
        StreamView {
            text,
            segments,
            index: 0,
            token: if segments.len() > 0 {
                token_of(segments[0])
            } else {
                TokenView::blank()
            },
        }
    }

    /// The tokens that the stream has yet to show, in the order in which
    /// advancing will show them.
    pub open spec fn yields(self) -> Seq<TokenView> {
        self.segments.subrange(self.index as int, self.segments.len() as int).map_values(
            |segment: SegmentView| token_of(segment),
        )
    }

    /// The state after `steps` advances.
    pub open spec fn after(self, steps: nat) -> StreamView
        decreases steps,
    {
        if steps == 0 {
            self
        } else {
            self.next().after((steps - 1) as nat)
        }
    }
}

/// The token of a word of a text marks that word in the text's bytes, and
/// spans as many positions as the word has characters: at least one, and
/// exactly one for a word of a single character.
pub proof fn lemma_token_spans_text(segment: SegmentView, text: Seq<char>)
    requires
        segment.fits(text),
    ensures
        token_of(segment).spans(text),
        token_of(segment).position_length == token_of(segment).text.len(),
        token_of(segment).position_length >= 1,
{
    let from = segment.start as int;
    let to = segment.end as int;
    lemma_encode_subrange(text, from, to);
    lemma_byte_len_bounds(segment.word);
    lemma_prefix_is_boundary(text, from);
    lemma_prefix_is_boundary(text, to);
    assert(text.subrange(0, to) =~= text.subrange(0, from) + text.subrange(from, to));
    lemma_encode_concat(text.subrange(0, from), text.subrange(from, to));
}

/// Every token that a stream has yet to show, and every one that it has
/// shown, marks a word of the stream's text.
pub proof fn lemma_every_token_spans_text(stream: StreamView)
    requires
        stream.wf(),
    ensures
        forall|k: int|
            0 <= k < stream.segments.len() ==> token_of(#[trigger] stream.segments[k]).spans(
                stream.text,
            ),
{
    assert forall|k: int| 0 <= k < stream.segments.len() implies token_of(
        #[trigger] stream.segments[k],
    ).spans(stream.text) by {
        lemma_token_spans_text(stream.segments[k], stream.text);
    }
}

/// An advance shows the first of the tokens that were to come and leaves the
/// rest to come; no word is left exactly when no token is to come.
pub proof fn lemma_next_yields(stream: StreamView)
    requires
        stream.index <= stream.segments.len(),
    ensures
        stream.has_next() <==> stream.yields().len() > 0,
        stream.has_next() ==> stream.next().token == stream.yields()[0],
        stream.has_next() ==> stream.next().yields() == stream.yields().drop_first(),
        !stream.has_next() ==> stream.next().yields() == stream.yields(),
{
}

/// Advancing moves the cursor one word at a time and stops at the end: after
/// `steps` advances the cursor has passed `steps` more words, or all of them,
/// and the token on show is that of the last word passed.
pub proof fn lemma_after(stream: StreamView, steps: nat)
    requires
        stream.index <= stream.segments.len(),
    ensures
        stream.after(steps).text == stream.text,
        stream.after(steps).segments == stream.segments,
        stream.index + steps <= stream.segments.len() ==> stream.after(steps).index
            == stream.index + steps,
        stream.index + steps >= stream.segments.len() ==> stream.after(steps).index
            == stream.segments.len(),
        steps == 0 || !stream.has_next() ==> stream.after(steps) == stream,
        steps > 0 && stream.has_next() ==> stream.after(steps).token == token_of(
            stream.segments[stream.after(steps).index - 1],
        ),
    decreases steps,
{
    if steps > 0 {
        lemma_after(stream.next(), (steps - 1) as nat);
    }
}

/// A stream that has run out stays run out: every later advance finds no
/// word and leaves the state as it is.
pub proof fn lemma_exhaustion_is_final(stream: StreamView, steps: nat)
    requires
        !stream.has_next(),
    ensures
        stream.after(steps) == stream,
        !stream.after(steps).has_next(),
    decreases steps,
{
    if steps > 0 {
        lemma_exhaustion_is_final(stream.next(), (steps - 1) as nat);
    }
}

/// A stream ends: once as many advances are made as words were left, no word
/// is left.
pub proof fn lemma_stream_ends(stream: StreamView)
    requires
        stream.index <= stream.segments.len(),
    ensures
        !stream.after((stream.segments.len() - stream.index) as nat).has_next(),
{
    lemma_after(stream, (stream.segments.len() - stream.index) as nat);
}

/// An empty text has no words: a stream over it has run out from the start.
pub proof fn lemma_empty_text_has_no_words(segments: Seq<SegmentView>, text: Seq<char>)
    requires
        all_fit(segments, text),
        text.len() == 0,
    ensures
        segments.len() == 0,
        !StreamView::opening(text, segments).has_next(),
        StreamView::opening(text, segments).token == TokenView::blank(),
{
    if segments.len() > 0 {
        assert(segments[0].fits(text));
    }
}

/// The words of one text and how many of them have been shown. The words
/// borrow from the text, which therefore outlives the cursor; the text itself
/// is needed only to say what the words are.
struct Cursor<'a> {
    text: Ghost<Seq<char>>,
    segments: Vec<Segment<'a>>,
    index: usize,
}

impl<'a> Cursor<'a> {
    #[verifier::type_invariant]
    spec fn inv(self) -> bool {
        &&& self.index <= self.segments.len()
        &&& all_fit(segment_views(self.segments@), self.text@)
        &&& byte_len(self.text@) <= usize::MAX
    }
}

/// A single pass over the words of one text.
pub struct JiebaTokenStream<'a> {
    cursor: Cursor<'a>,
    token: Token,
}

impl<'a> View for JiebaTokenStream<'a> {
    type V = StreamView;

    closed spec fn view(&self) -> StreamView {
        StreamView {
            text: self.cursor.text@,
            segments: segment_views(self.cursor.segments@),
            index: self.cursor.index as nat,
            token: self.token@,
        }
    }
}

impl<'a> JiebaTokenStream<'a> {
    /// A stream over `segments`, which are words of `text`. The first word's
    /// token is on show at once, before any advance.
    pub fn new(text: &'a str, segments: Vec<Segment<'a>>) -> (stream: Self)
        requires
            all_fit(segment_views(segments@), text@),
        ensures
            stream@ == StreamView::opening(text@, segment_views(segments@)),
            stream@.wf(),
    {
        // A `str` holds no more bytes than a `usize` counts.
        let _bytes: usize = text.as_bytes().len();
        let token = if segments.len() > 0 {
            let first = &segments[0];
            proof {
                assert(segment_views(segments@)[0] == first@);
                lemma_encode_subrange(text@, first@.start as int, first@.end as int);
            }
            Token {
                offset_from: first.byte_start,
                offset_to: first.byte_start + first.word.len(),
                text: first.word.to_owned(),
                position: first.start,
                position_length: first.end - first.start,
            }
        } else {
            Token::default()
        };
        JiebaTokenStream { cursor: Cursor { text: Ghost(text@), segments, index: 0 }, token }
    }

    /// Shows the next word's token. Returns `false`, and changes nothing,
    /// when every word has been shown.
    pub fn advance(&mut self) -> (more: bool)
        ensures
            more == old(self)@.has_next(),
            final(self)@ == old(self)@.next(),
            final(self)@.wf(),
            more ==> final(self)@.token.spans(final(self)@.text),
            more ==> final(self)@.token.position_length == final(self)@.token.text.len(),
            more ==> final(self)@.token.position_length >= 1,
            !more ==> *final(self) == *old(self),
    {
        proof {
            use_type_invariant(&self.cursor);
        }
        if self.cursor.index >= self.cursor.segments.len() {
            return false;
        }
        let segment = &self.cursor.segments[self.cursor.index];
        proof {
            assert(segment_views(self.cursor.segments@)[self.cursor.index as int] == segment@);
            lemma_token_spans_text(segment@, self.cursor.text@);
        }
        self.token.offset_from = segment.byte_start;
        self.token.offset_to = self.token.offset_from + segment.word.len();
        self.token.position = segment.start;
        self.token.position_length = segment.end - segment.start;
        self.token.text.clear();
        self.token.text.append(segment.word);
        self.cursor.index += 1;
        true
    }

    /// The token on show.
    pub fn token(&self) -> (token: &Token)
        ensures
            token@ == self@.token,
            self@.wf(),
    {
        proof {
            use_type_invariant(&self.cursor);
        }
        &self.token
    }

    /// The token on show, for changing in place.
    pub fn token_mut(&mut self) -> (token: &mut Token)
        ensures
            token@ == old(self)@.token,
            final(self)@ == (StreamView { token: final(token)@, ..old(self)@ }),
            old(self)@.wf(),
    {
        proof {
            use_type_invariant(&self.cursor);
        }
        &mut self.token
    }
}

} // verus!
