use vstd::prelude::*;

use crate::chars::trim_ws;
use crate::config::{
    check_patterns, config_fault, first_bad_pattern, reports, validate_config, ConfigFault, TokenizerConfig,
    TokenizerStrategy,
};
use crate::error::TokenizerError;
use crate::ngram::{clamp_max, clamp_min, gram_tokens, EdgeNgramTokenizer, NgramTokenizer};
use crate::offsets::char_spans;
use crate::overlay::preserve_overlay;
use crate::path_hierarchy::{path_tokens, PathHierarchyTokenizer};
use crate::pattern::{regex_find, regex_ok, CompiledPattern};
use crate::post::post;
use crate::segment::{graphemes_of, unicode_words_of};
use crate::sentence::{sentence_tokens, SentenceTokenizer};
use crate::simple::{span_texts, CharGroupTokenizer, GraphemeTokenizer, KeywordTokenizer, LetterTokenizer, LowercaseTokenizer, PatternTokenizer, UnicodeTokenizer, WhitespaceTokenizer};
use crate::split::{as_is, folded, letters, not_in, not_space, runs};
use crate::tokenizer::{compiled_sources, Tokenizer};
use crate::url_email::{url_tokens, UrlEmailTokenizer};

verus! {

/// The tokens that a tokenizer built from configuration `c` gives for text `t`.
pub open spec fn tokens_for(c: TokenizerConfig, t: Seq<char>) -> Seq<Seq<char>> {
    let ps = compiled_sources(c.preserve_patterns@);
    let lower = c.lowercase;
    let strip = c.remove_punctuation;
    match c.strategy {
        TokenizerStrategy::Whitespace => preserve_overlay(runs(not_space(), as_is(), t), ps, t, lower, strip),
        TokenizerStrategy::Unicode => preserve_overlay(unicode_words_of(t), ps, t, lower, strip),
        TokenizerStrategy::Pattern { regex } => preserve_overlay(
            span_texts(t, char_spans(t, regex_find(regex@, t))),
            ps,
            t,
            lower,
            strip,
        ),
        TokenizerStrategy::Sentence => sentence_tokens(c, ps, t),
        TokenizerStrategy::Grapheme { extended } => post(
            graphemes_of(t, extended),
            lower,
            strip,
            Seq::<char>::empty(),
        ),
        TokenizerStrategy::Keyword => if trim_ws(t).len() == 0 {
            seq![]
        } else {
            post(seq![trim_ws(t)], lower, strip, Seq::<char>::empty())
        },
        TokenizerStrategy::EdgeNgram { min_gram, max_gram } => gram_tokens(
            c,
            true,
            clamp_min(min_gram) as int,
            clamp_max(max_gram, clamp_min(min_gram)) as int,
            t,
        ),
        TokenizerStrategy::Ngram { min_gram, max_gram } => gram_tokens(
            c,
            false,
            clamp_min(min_gram) as int,
            clamp_max(max_gram, clamp_min(min_gram)) as int,
            t,
        ),
        TokenizerStrategy::PathHierarchy { delimiter } => path_tokens(c, ps, delimiter@, t),
        TokenizerStrategy::UrlEmail => url_tokens(c, ps, t),
        TokenizerStrategy::CharGroup { split_on_chars } => preserve_overlay(
            runs(not_in(split_on_chars@), as_is(), t),
            ps,
            t,
            lower,
            strip,
        ),
        TokenizerStrategy::Letter => preserve_overlay(runs(letters(), as_is(), t), ps, t, lower, strip),
        TokenizerStrategy::Lowercase => if ps.len() == 0 {
            runs(letters(), folded(), t)
        } else {
            preserve_overlay(runs(letters(), folded(), t), ps, t, true, strip)
        },
    }
}

/// The first reason the factory refuses `c`: a pattern strategy's expression that
/// does not compile or an empty path delimiter, then the first preserve pattern that
/// does not compile. (Out-of-range n-gram bounds are clamped, not refused.)
pub open spec fn build_fault(c: TokenizerConfig) -> Option<ConfigFault> {
    match c.strategy {
        TokenizerStrategy::Pattern { regex } if !regex_ok(regex@) => Some(
            ConfigFault::BadRegex { pattern: regex@ },
        ),
        TokenizerStrategy::PathHierarchy { delimiter } if delimiter@.len() == 0 => Some(
            ConfigFault::EmptyDelimiter,
        ),
        _ => match first_bad_pattern(c.preserve_patterns@) {
            Some(k) => Some(ConfigFault::BadRegex { pattern: c.preserve_patterns@[k]@ }),
            None => None,
        },
    }
}

/// Whether the factory can build from `c`.
pub open spec fn buildable(c: TokenizerConfig) -> bool {
    build_fault(c) is None
}

/// One tokenizer of any strategy.
pub enum AnyTokenizer {
    Whitespace(WhitespaceTokenizer),
    Unicode(UnicodeTokenizer),
    Pattern(PatternTokenizer),
    Sentence(SentenceTokenizer),
    Grapheme(GraphemeTokenizer),
    Keyword(KeywordTokenizer),
    EdgeNgram(EdgeNgramTokenizer),
    Ngram(NgramTokenizer),
    PathHierarchy(PathHierarchyTokenizer),
    UrlEmail(UrlEmailTokenizer),
    CharGroup(CharGroupTokenizer),
    Letter(LetterTokenizer),
    Lowercase(LowercaseTokenizer),
}

impl AnyTokenizer {
    /// The configuration the tokenizer holds.
    pub open spec fn config_spec(&self) -> TokenizerConfig {
        match self {
            AnyTokenizer::Whitespace(t) => t.base.config,
            AnyTokenizer::Unicode(t) => t.base.config,
            AnyTokenizer::Pattern(t) => t.base.config,
            AnyTokenizer::Sentence(t) => t.base.config,
            AnyTokenizer::Grapheme(t) => t.config,
            AnyTokenizer::Keyword(t) => t.config,
            AnyTokenizer::EdgeNgram(t) => t.spec_config(),
            AnyTokenizer::Ngram(t) => t.spec_config(),
            AnyTokenizer::PathHierarchy(t) => t.spec_config(),
            AnyTokenizer::UrlEmail(t) => t.base.config,
            AnyTokenizer::CharGroup(t) => t.base.config,
            AnyTokenizer::Letter(t) => t.base.config,
            AnyTokenizer::Lowercase(t) => t.base.config,
        }
    }

    /// The tokenizer behaves, on every text, as configuration `c` prescribes.
    pub open spec fn built_from(&self, c: TokenizerConfig) -> bool {
        forall|t: Seq<char>| #[trigger] self.tokens_spec(t) == tokens_for(c, t)
    }

    /// The configuration the tokenizer was built from.
    pub fn describe(&self) -> (r: TokenizerConfig)
        ensures
            r.strategy == self.config_spec().strategy,
            r.lowercase == self.config_spec().lowercase,
            r.remove_punctuation == self.config_spec().remove_punctuation,
            r.preserve_patterns@ == self.config_spec().preserve_patterns@,
    {
        match self {
            AnyTokenizer::Whitespace(t) => t.base.config.copied(),
            AnyTokenizer::Unicode(t) => t.base.config.copied(),
            AnyTokenizer::Pattern(t) => t.base.config.copied(),
            AnyTokenizer::Sentence(t) => t.base.config.copied(),
            AnyTokenizer::Grapheme(t) => t.config.copied(),
            AnyTokenizer::Keyword(t) => t.config.copied(),
            AnyTokenizer::EdgeNgram(t) => t.config().copied(),
            AnyTokenizer::Ngram(t) => t.config().copied(),
            AnyTokenizer::PathHierarchy(t) => t.config().copied(),
            AnyTokenizer::UrlEmail(t) => t.base.config.copied(),
            AnyTokenizer::CharGroup(t) => t.base.config.copied(),
            AnyTokenizer::Letter(t) => t.base.config.copied(),
            AnyTokenizer::Lowercase(t) => t.base.config.copied(),
        }
    }
}

impl Tokenizer for AnyTokenizer {
    open spec fn tokens_spec(&self, text: Seq<char>) -> Seq<Seq<char>> {
        match self {
            AnyTokenizer::Whitespace(t) => t.tokens_spec(text),
            AnyTokenizer::Unicode(t) => t.tokens_spec(text),
            AnyTokenizer::Pattern(t) => t.tokens_spec(text),
            AnyTokenizer::Sentence(t) => t.tokens_spec(text),
            AnyTokenizer::Grapheme(t) => t.tokens_spec(text),
            AnyTokenizer::Keyword(t) => t.tokens_spec(text),
            AnyTokenizer::EdgeNgram(t) => t.tokens_spec(text),
            AnyTokenizer::Ngram(t) => t.tokens_spec(text),
            AnyTokenizer::PathHierarchy(t) => t.tokens_spec(text),
            AnyTokenizer::UrlEmail(t) => t.tokens_spec(text),
            AnyTokenizer::CharGroup(t) => t.tokens_spec(text),
            AnyTokenizer::Letter(t) => t.tokens_spec(text),
            AnyTokenizer::Lowercase(t) => t.tokens_spec(text),
        }
    }

    fn tokenize(&self, text: &str) -> (r: Vec<String>) {
        match self {
            AnyTokenizer::Whitespace(t) => t.tokenize(text),
            AnyTokenizer::Unicode(t) => t.tokenize(text),
            AnyTokenizer::Pattern(t) => t.tokenize(text),
            AnyTokenizer::Sentence(t) => t.tokenize(text),
            AnyTokenizer::Grapheme(t) => t.tokenize(text),
            AnyTokenizer::Keyword(t) => t.tokenize(text),
            AnyTokenizer::EdgeNgram(t) => t.tokenize(text),
            AnyTokenizer::Ngram(t) => t.tokenize(text),
            AnyTokenizer::PathHierarchy(t) => t.tokenize(text),
            AnyTokenizer::UrlEmail(t) => t.tokenize(text),
            AnyTokenizer::CharGroup(t) => t.tokenize(text),
            AnyTokenizer::Letter(t) => t.tokenize(text),
            AnyTokenizer::Lowercase(t) => t.tokenize(text),
        }
    }
}

/// The error the factory reports for a configuration it cannot build from.
pub open spec fn build_error(c: TokenizerConfig, e: TokenizerError) -> bool {
    build_fault(c) matches Some(f) && reports(e, f)
}

/// Builds the tokenizer of `config`'s strategy, compiling every expression once.
/// Refuses a configuration whose expressions do not all compile or whose path
/// delimiter is empty; n-gram bounds are clamped.
pub fn from_config(config: TokenizerConfig) -> (r: Result<AnyTokenizer, TokenizerError>)
    ensures
        r is Ok <==> buildable(config),
        r matches Ok(t) ==> t.built_from(config) && t.config_spec() == config,
        r matches Err(e) ==> build_error(config, e),
{
    match &config.strategy {
        TokenizerStrategy::Pattern { regex } => {
            match CompiledPattern::compile(regex.as_str()) {
                Ok(_) => {},
                Err(msg) => {
                    return Err(TokenizerError::InvalidRegex { pattern: regex.clone(), error: msg });
                },
            }
        },
        TokenizerStrategy::PathHierarchy { delimiter } => {
            if delimiter.as_str().is_empty() {
                return Err(TokenizerError::EmptyDelimiter { tokenizer: "PathHierarchy".to_owned() });
            }
        },
        _ => {},
    }
    match check_patterns(&config.preserve_patterns) {
        Ok(()) => {},
        Err(e) => {
            return Err(e);
        },
    }
    let r = match config.strategy.copied() {
        TokenizerStrategy::Whitespace => Ok(AnyTokenizer::Whitespace(WhitespaceTokenizer::new(config))),
        TokenizerStrategy::Unicode => Ok(AnyTokenizer::Unicode(UnicodeTokenizer::new(config))),
        TokenizerStrategy::Pattern { regex } => match PatternTokenizer::new(regex.as_str(), config) {
            Ok(t) => Ok(AnyTokenizer::Pattern(t)),
            Err(e) => Err(e),
        },
        TokenizerStrategy::Sentence => Ok(AnyTokenizer::Sentence(SentenceTokenizer::new(config))),
        TokenizerStrategy::Grapheme { extended } => Ok(
            AnyTokenizer::Grapheme(GraphemeTokenizer::new(config, extended)),
        ),
        TokenizerStrategy::Keyword => Ok(AnyTokenizer::Keyword(KeywordTokenizer::new(config))),
        TokenizerStrategy::EdgeNgram { min_gram, max_gram } => Ok(
            AnyTokenizer::EdgeNgram(EdgeNgramTokenizer::new(config, min_gram, max_gram)),
        ),
        TokenizerStrategy::Ngram { min_gram, max_gram } => Ok(
            AnyTokenizer::Ngram(NgramTokenizer::new(config, min_gram, max_gram)),
        ),
        TokenizerStrategy::PathHierarchy { delimiter } => {
            if delimiter.as_str().is_empty() {
                Err(TokenizerError::EmptyDelimiter { tokenizer: "PathHierarchy".to_owned() })
            } else {
                Ok(AnyTokenizer::PathHierarchy(PathHierarchyTokenizer::new(config, delimiter)))
            }
        },
        TokenizerStrategy::UrlEmail => Ok(AnyTokenizer::UrlEmail(UrlEmailTokenizer::new(config))),
        TokenizerStrategy::CharGroup { split_on_chars } => Ok(
            AnyTokenizer::CharGroup(CharGroupTokenizer::new(config, split_on_chars)),
        ),
        TokenizerStrategy::Letter => Ok(AnyTokenizer::Letter(LetterTokenizer::new(config))),
        TokenizerStrategy::Lowercase => Ok(AnyTokenizer::Lowercase(LowercaseTokenizer::new(config))),
    };
    r
}

/// Validates `config` and builds its tokenizer; the only fallible entry point.
pub fn validate_and_build(config: TokenizerConfig) -> (r: Result<AnyTokenizer, TokenizerError>)
    ensures
        r is Ok <==> config_fault(config) is None,
        r matches Err(e) ==> config_fault(config) matches Some(f) && reports(e, f),
        r matches Ok(t) ==> t.built_from(config) && t.config_spec() == config,
{
    match validate_config(&config) {
        Ok(()) => {},
        Err(e) => {
            return Err(e);
        },
    }
    from_config(config)
}

/// Rebuilding a tokenizer from its description gives a tokenizer that tokenizes
/// every text exactly as the first one does.
pub proof fn lemma_describe_round_trip(
    c: TokenizerConfig,
    first: AnyTokenizer,
    described: TokenizerConfig,
    second: AnyTokenizer,
    text: Seq<char>,
)
    requires
        first.built_from(c),
        first.config_spec() == c,
        described.strategy == c.strategy,
        described.lowercase == c.lowercase,
        described.remove_punctuation == c.remove_punctuation,
        described.preserve_patterns@ == c.preserve_patterns@,
        second.built_from(described),
    ensures
        second.tokens_spec(text) == first.tokens_spec(text),
{
    assert(second.tokens_spec(text) == tokens_for(described, text));
    assert(first.tokens_spec(text) == tokens_for(c, text));
}

} // verus!
