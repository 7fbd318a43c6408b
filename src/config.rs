use vstd::prelude::*;

use crate::chars::copy_strings;
use crate::error::TokenizerError;
use crate::pattern::{regex_compile_error, regex_ok, CompiledPattern};

verus! {

/// The segmentation algorithm and its parameters.
#[derive(Clone, Debug)]
pub enum TokenizerStrategy {
    Whitespace,
    Unicode,
    Pattern { regex: String },
    Sentence,
    Grapheme { extended: bool },
    Keyword,
    EdgeNgram { min_gram: usize, max_gram: usize },
    Ngram { min_gram: usize, max_gram: usize },
    PathHierarchy { delimiter: String },
    UrlEmail,
    CharGroup { split_on_chars: String },
    Letter,
    Lowercase,
}

/// A tokenizer's configuration: the strategy, the two normalizations and the
/// patterns whose matches are kept verbatim.
#[derive(Clone, Debug)]
pub struct TokenizerConfig {
    pub strategy: TokenizerStrategy,
    pub lowercase: bool,
    pub remove_punctuation: bool,
    pub preserve_patterns: Vec<String>,
}

impl Default for TokenizerConfig {
    /// Unicode words, lowercased, punctuation kept, nothing preserved.
    fn default() -> (r: TokenizerConfig)
        ensures
            r.strategy is Unicode,
            r.lowercase,
            !r.remove_punctuation,
            r.preserve_patterns@.len() == 0,
    {
        TokenizerConfig {
            strategy: TokenizerStrategy::Unicode,
            lowercase: true,
            remove_punctuation: false,
            preserve_patterns: Vec::new(),
        }
    }
}

impl TokenizerStrategy {
    /// A copy of the strategy.
    pub fn copied(&self) -> (r: TokenizerStrategy)
        ensures
            r == *self,
    {
        match self {
            TokenizerStrategy::Whitespace => TokenizerStrategy::Whitespace,
            TokenizerStrategy::Unicode => TokenizerStrategy::Unicode,
            TokenizerStrategy::Pattern { regex } => TokenizerStrategy::Pattern { regex: regex.clone() },
            TokenizerStrategy::Sentence => TokenizerStrategy::Sentence,
            TokenizerStrategy::Grapheme { extended } => TokenizerStrategy::Grapheme { extended: *extended },
            TokenizerStrategy::Keyword => TokenizerStrategy::Keyword,
            TokenizerStrategy::EdgeNgram { min_gram, max_gram } => TokenizerStrategy::EdgeNgram {
                min_gram: *min_gram,
                max_gram: *max_gram,
            },
            TokenizerStrategy::Ngram { min_gram, max_gram } => TokenizerStrategy::Ngram {
                min_gram: *min_gram,
                max_gram: *max_gram,
            },
            TokenizerStrategy::PathHierarchy { delimiter } => TokenizerStrategy::PathHierarchy {
                delimiter: delimiter.clone(),
            },
            TokenizerStrategy::UrlEmail => TokenizerStrategy::UrlEmail,
            TokenizerStrategy::CharGroup { split_on_chars } => TokenizerStrategy::CharGroup {
                split_on_chars: split_on_chars.clone(),
            },
            TokenizerStrategy::Letter => TokenizerStrategy::Letter,
            TokenizerStrategy::Lowercase => TokenizerStrategy::Lowercase,
        }
    }
}

impl TokenizerConfig {
    /// A copy of the configuration.
    pub fn copied(&self) -> (r: TokenizerConfig)
        ensures
            r.strategy == self.strategy,
            r.lowercase == self.lowercase,
            r.remove_punctuation == self.remove_punctuation,
            r.preserve_patterns@ == self.preserve_patterns@,
    {
        TokenizerConfig {
            strategy: self.strategy.copied(),
            lowercase: self.lowercase,
            remove_punctuation: self.remove_punctuation,
            preserve_patterns: copy_strings(&self.preserve_patterns),
        }
    }
}

/// The first violation in a configuration, as the validator reports it.
pub enum ConfigFault {
    Ngram { min: usize, max: usize },
    EmptyDelimiter,
    BadRegex { pattern: Seq<char> },
}

/// The first position in `ps` whose pattern does not compile.
pub open spec fn first_bad_pattern(ps: Seq<String>) -> Option<int>
    decreases ps.len(),
{
    if ps.len() == 0 {
        None
    } else if !regex_ok(ps[0]@) {
        Some(0)
    } else {
        match first_bad_pattern(ps.drop_first()) {
            Some(k) => Some(k + 1),
            None => None,
        }
    }
}

/// The fault of the strategy's own parameters, if any.
pub open spec fn strategy_fault(s: TokenizerStrategy) -> Option<ConfigFault> {
    match s {
        TokenizerStrategy::EdgeNgram { min_gram, max_gram } | TokenizerStrategy::Ngram {
            min_gram,
            max_gram,
        } => if min_gram == 0 || min_gram > max_gram {
            Some(ConfigFault::Ngram { min: min_gram, max: max_gram })
        } else {
            None
        },
        TokenizerStrategy::PathHierarchy { delimiter } => if delimiter@.len() == 0 {
            Some(ConfigFault::EmptyDelimiter)
        } else {
            None
        },
        TokenizerStrategy::Pattern { regex } => if !regex_ok(regex@) {
            Some(ConfigFault::BadRegex { pattern: regex@ })
        } else {
            None
        },
        _ => None,
    }
}

/// The first violation of a configuration: the strategy's parameters are checked
/// first, then the preserve patterns in order.
pub open spec fn config_fault(c: TokenizerConfig) -> Option<ConfigFault> {
    match strategy_fault(c.strategy) {
        Some(f) => Some(f),
        None => match first_bad_pattern(c.preserve_patterns@) {
            Some(k) => Some(ConfigFault::BadRegex { pattern: c.preserve_patterns@[k]@ }),
            None => None,
        },
    }
}

/// Whether `e` is the error that reports fault `f`.
pub open spec fn reports(e: TokenizerError, f: ConfigFault) -> bool {
    match (e, f) {
        (TokenizerError::InvalidNgramConfig { min, max }, ConfigFault::Ngram { min: m, max: n }) => min
            == m && max == n,
        (TokenizerError::EmptyDelimiter { tokenizer }, ConfigFault::EmptyDelimiter) => tokenizer@
            == "PathHierarchy"@,
        (TokenizerError::InvalidRegex { pattern, error }, ConfigFault::BadRegex { pattern: p }) => pattern@
            == p && regex_compile_error(p) == Some(error@),
        _ => false,
    }
}

/// Checks every preserve pattern, in order.
pub(crate) fn check_patterns(ps: &Vec<String>) -> (r: Result<(), TokenizerError>)
    ensures
        r is Ok <==> first_bad_pattern(ps@) is None,
        r matches Err(e) ==> first_bad_pattern(ps@) matches Some(k) && reports(
            e,
            ConfigFault::BadRegex { pattern: ps@[k]@ },
        ),
{
    let mut i: usize = 0;
    while i < ps.len()
        invariant
            i <= ps@.len(),
            forall|j: int| 0 <= j < i ==> regex_ok(#[trigger] ps@[j]@),
        decreases ps.len() - i,
    {
        match CompiledPattern::compile(ps[i].as_str()) {
            Ok(_) => {},
            Err(msg) => {
                proof {
                    lemma_first_bad_is(ps@, i as int);
                }
                return Err(TokenizerError::InvalidRegex { pattern: ps[i].clone(), error: msg });
            },
        }
        i += 1;
    }
    proof {
        lemma_first_bad_none(ps@);
    }
    Ok(())
}

proof fn lemma_first_bad_is(ps: Seq<String>, i: int)
    requires
        0 <= i < ps.len(),
        !regex_ok(ps[i]@),
        forall|j: int| 0 <= j < i ==> regex_ok(#[trigger] ps[j]@),
    ensures
        first_bad_pattern(ps) == Some(i),
    decreases i,
{
    if i > 0 {
        lemma_first_bad_is(ps.drop_first(), i - 1);
    }
}

proof fn lemma_first_bad_none(ps: Seq<String>)
    requires
        forall|j: int| 0 <= j < ps.len() ==> regex_ok(#[trigger] ps[j]@),
    ensures
        first_bad_pattern(ps) is None,
    decreases ps.len(),
{
    if ps.len() > 0 {
        assert(regex_ok(ps[0]@));
        lemma_first_bad_none(ps.drop_first());
    }
}

/// Checks a configuration and reports its first violation.
pub fn validate_config(config: &TokenizerConfig) -> (r: Result<(), TokenizerError>)
    ensures
        r is Ok <==> config_fault(*config) is None,
        r matches Err(e) ==> config_fault(*config) matches Some(f) && reports(e, f),
{
    match &config.strategy {
        TokenizerStrategy::EdgeNgram { min_gram, max_gram } | TokenizerStrategy::Ngram {
            min_gram,
            max_gram,
        } => {
            if *min_gram == 0 || *min_gram > *max_gram {
                return Err(TokenizerError::InvalidNgramConfig { min: *min_gram, max: *max_gram });
            }
        },
        TokenizerStrategy::PathHierarchy { delimiter } => {
            if delimiter.as_str().is_empty() {
                let name = "PathHierarchy".to_owned();
                return Err(TokenizerError::EmptyDelimiter { tokenizer: name });
            }
        },
        TokenizerStrategy::Pattern { regex } => {
            match CompiledPattern::compile(regex.as_str()) {
                Ok(_) => {},
                Err(msg) => {
                    return Err(TokenizerError::InvalidRegex { pattern: regex.clone(), error: msg });
                },
            }
        },
        _ => {},
    }
    check_patterns(&config.preserve_patterns)
}

} // verus!
