//! A configurable text tokenizer: thirteen segmentation strategies, an overlay that
//! keeps the matches of preserve patterns verbatim, and a post-processing pipeline.
pub mod chars;
pub mod offsets;
pub mod split;
pub mod pattern;
pub mod error;
pub mod config;
pub mod post;
pub mod spans;
pub mod overlay;
pub mod segment;
pub mod tokenizer;
pub mod ngram;
pub mod simple;
pub mod path_hierarchy;
pub mod url_email;
pub mod sentence;
pub mod factory;
pub mod raw;
pub mod session;

pub use config::{validate_config, TokenizerConfig, TokenizerStrategy};
pub use error::TokenizerError;
pub use factory::{from_config, validate_and_build, AnyTokenizer};
pub use ngram::{EdgeNgramTokenizer, NgramTokenizer};
pub use overlay::{apply_preserve_patterns, tokenize_simple};
pub use path_hierarchy::PathHierarchyTokenizer;
pub use pattern::CompiledPattern;
pub use post::{post_process, post_process_in_place, post_process_with_preserved};
pub use raw::{config_to_hash, parse_config_from_hash, RawConfig};
pub use sentence::SentenceTokenizer;
pub use session::{config_hash, configure, load_config, reset, tokenize, tokenize_with_config};
pub use simple::{
    CharGroupTokenizer, GraphemeTokenizer, KeywordTokenizer, LetterTokenizer, LowercaseTokenizer,
    PatternTokenizer, UnicodeTokenizer, WhitespaceTokenizer,
};
pub use spans::merge_overlapping_spans;
pub use tokenizer::{create_preserve_patterns, BaseTokenizerFields, Tokenizer};
pub use url_email::UrlEmailTokenizer;
