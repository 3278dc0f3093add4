//! Tokens for a text index, cut from Chinese text by the jieba segmentation engine.
//!
//! A tokenizer hands a text to the engine once, in search mode, and wraps the
//! answer in a [`JiebaTokenStream`]. The stream yields one [`Token`] per
//! engine word: byte offsets into the text, the word's position counted in
//! characters, and the number of positions that it spans.
//!
//! [`JiebaTokenizer`] works on an engine that the caller shares between
//! streams; [`CustomJiebaTokenizer`] owns its engine.

pub mod encoding;
pub mod segment;
pub mod stream;
pub mod token;
pub mod tokenizer;

pub use jieba_rs;
pub use segment::{Segment, SegmentView};
pub use stream::{JiebaTokenStream, StreamView};
pub use token::{Token, TokenView};
pub use tokenizer::{CustomJiebaTokenizer, JiebaTokenizer};
