//! The tokenizer at work inside a tantivy index.

use tantivy::collector::Count;
use tantivy::query::QueryParser;
use tantivy::schema::{IndexRecordOption, Schema, TextFieldIndexing, TextOptions};
use tantivy::tokenizer::{
    LowerCaser, RemoveLongFilter, Stemmer, TextAnalyzer, Token, TokenStream, Tokenizer,
};
use tantivy::{Index, IndexWriter, TantivyDocument};
use tantivy_jieba::jieba_rs::Jieba;
use tantivy_jieba::{JiebaTokenStream, JiebaTokenizer};

/// `JiebaTokenizer` over one engine, in the shape that the index asks for.
#[derive(Clone)]
struct IndexTokenizer {
    jieba: &'static Jieba,
    tokenizer: JiebaTokenizer,
}

struct IndexTokenStream<'a> {
    stream: JiebaTokenStream<'a>,
    token: Token,
}

impl Tokenizer for IndexTokenizer {
    type TokenStream<'a> = IndexTokenStream<'a>;

    fn token_stream<'a>(&'a mut self, text: &'a str) -> IndexTokenStream<'a> {
        assert!(text.len() <= u32::MAX as usize);
        IndexTokenStream {
            stream: self.tokenizer.token_stream(self.jieba, text),
            token: Token::default(),
        }
    }
}

impl TokenStream for IndexTokenStream<'_> {
    fn advance(&mut self) -> bool {
        if !self.stream.advance() {
            return false;
        }
        let shown = self.stream.token();
        self.token.offset_from = shown.offset_from;
        self.token.offset_to = shown.offset_to;
        self.token.position = shown.position;
        self.token.position_length = shown.position_length;
        self.token.text.clear();
        self.token.text.push_str(&shown.text);
        true
    }

    fn token(&self) -> &Token {
        &self.token
    }

    fn token_mut(&mut self) -> &mut Token {
        &mut self.token
    }
}

#[test]
fn search() {
    // Build schema
    let mut schema_builder = Schema::builder();
    let name = schema_builder.add_text_field(
        "name",
        TextOptions::default()
            .set_indexing_options(
                TextFieldIndexing::default()
                    .set_tokenizer("jieba")
                    .set_index_option(IndexRecordOption::WithFreqsAndPositions),
            )
            .set_stored(),
    );
    let schema = schema_builder.build();

    // Register tantivy tokenizer
    let tokenizer = IndexTokenizer {
        jieba: Box::leak(Box::new(Jieba::new())),
        tokenizer: JiebaTokenizer {},
    };
    let index = Index::create_in_ram(schema);
    let analyzer = TextAnalyzer::builder(tokenizer)
        .filter(RemoveLongFilter::limit(40))
        .filter(LowerCaser)
        .filter(Stemmer::default())
        .build();
    index.tokenizers().register("jieba", analyzer);

    // Index some documents
    let mut index_writer: IndexWriter = index.writer(50_000_000).unwrap();
    let mut document = TantivyDocument::default();
    document.add_text(name, "中华人民共和国人民大会堂");
    index_writer.add_document(document).unwrap();
    index_writer.commit().unwrap();

    // Search keywords
    let reader = index.reader().unwrap();
    let searcher = reader.searcher();
    let query_parser = QueryParser::for_index(&index, vec![name]);

    for query_str in [
        "中华",
        "人民",
        "共和国",
        "华人",
        "共和",
        "人民共和",
        "中华人民共和国",
        "共和国人民",
        "人民大会堂",
    ] {
        let query = query_parser.parse_query(query_str).unwrap();
        println!("query: {query:?}");
        let count = searcher.search(&query, &Count).unwrap();
        assert_eq!(count, 1, "doc not found for query: {query_str}");
    }
}
