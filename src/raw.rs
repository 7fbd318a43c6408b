use vstd::prelude::*;

use crate::chars::{chars_of, copy_strings};
use crate::config::{config_fault, reports, validate_config, TokenizerConfig, TokenizerStrategy};
use crate::error::TokenizerError;
use crate::factory::tokens_for;


verus! {

/// A configuration as a host hands it over: every field optional, the strategy by name.
pub struct RawConfig {
    pub strategy: Option<String>,
    pub regex: Option<String>,
    pub extended: Option<bool>,
    pub min_gram: Option<usize>,
    pub max_gram: Option<usize>,
    pub delimiter: Option<String>,
    pub split_on_chars: Option<String>,
    pub lowercase: Option<bool>,
    pub remove_punctuation: Option<bool>,
    pub preserve_patterns: Option<Vec<String>>,
}

/// The lower n-gram bound when none is given.
pub const DEFAULT_MIN_GRAM: usize = 2;

/// The upper n-gram bound when none is given.
pub const DEFAULT_MAX_GRAM: usize = 10;

/// The name under which a strategy is known.
pub open spec fn strategy_name(s: TokenizerStrategy) -> Seq<char> {
    match s {
        TokenizerStrategy::Whitespace => "whitespace"@,
        TokenizerStrategy::Unicode => "unicode"@,
        TokenizerStrategy::Pattern { .. } => "pattern"@,
        TokenizerStrategy::Sentence => "sentence"@,
        TokenizerStrategy::Grapheme { .. } => "grapheme"@,
        TokenizerStrategy::Keyword => "keyword"@,
        TokenizerStrategy::EdgeNgram { .. } => "edge_ngram"@,
        TokenizerStrategy::Ngram { .. } => "ngram"@,
        TokenizerStrategy::PathHierarchy { .. } => "path_hierarchy"@,
        TokenizerStrategy::UrlEmail => "url_email"@,
        TokenizerStrategy::CharGroup { .. } => "char_group"@,
        TokenizerStrategy::Letter => "letter"@,
        TokenizerStrategy::Lowercase => "lowercase"@,
    }
}

/// Whether `n` names a strategy.
pub open spec fn known_name(n: Seq<char>) -> bool {
    exists|s: TokenizerStrategy| strategy_name(s) == n
}

/// The value of an optional flag, or its default.
pub open spec fn flag_or(v: Option<bool>, d: bool) -> bool {
    match v {
        Some(b) => b,
        None => d,
    }
}

/// The value of an optional count, or its default.
pub open spec fn count_or(v: Option<usize>, d: usize) -> usize {
    match v {
        Some(n) => n,
        None => d,
    }
}

/// The view of an optional string, or a default.
pub open spec fn text_or(v: Option<String>, d: Seq<char>) -> Seq<char> {
    match v {
        Some(s) => s@,
        None => d,
    }
}

/// The strategy name a raw configuration asks for; none means Unicode words.
pub open spec fn raw_name(raw: RawConfig) -> Seq<char> {
    text_or(raw.strategy, "unicode"@)
}

/// A pattern strategy is asked for without its expression.
pub open spec fn missing_regex(raw: RawConfig) -> bool {
    raw_name(raw) == "pattern"@ && raw.regex is None
}

/// Whether strategy `s` is what `raw` asks for, defaults filled in.
pub open spec fn strategy_fits(s: TokenizerStrategy, raw: RawConfig) -> bool {
    &&& strategy_name(s) == raw_name(raw)
    &&& match s {
        TokenizerStrategy::Pattern { regex } => raw.regex matches Some(x) && regex@ == x@,
        TokenizerStrategy::Grapheme { extended } => extended == flag_or(raw.extended, true),
        TokenizerStrategy::EdgeNgram { min_gram, max_gram } | TokenizerStrategy::Ngram {
            min_gram,
            max_gram,
        } => min_gram == count_or(raw.min_gram, DEFAULT_MIN_GRAM) && max_gram == count_or(
            raw.max_gram,
            DEFAULT_MAX_GRAM,
        ),
        TokenizerStrategy::PathHierarchy { delimiter } => delimiter@ == text_or(raw.delimiter, "/"@),
        TokenizerStrategy::CharGroup { split_on_chars } => split_on_chars@ == text_or(
            raw.split_on_chars,
            " \t\n\r"@,
        ),
        _ => true,
    }
}

/// Whether `c` is what `raw` asks for, defaults filled in.
pub open spec fn config_fits(c: TokenizerConfig, raw: RawConfig) -> bool {
    &&& strategy_fits(c.strategy, raw)
    &&& c.lowercase == flag_or(raw.lowercase, true)
    &&& c.remove_punctuation == flag_or(raw.remove_punctuation, false)
    &&& c.preserve_patterns@ == match raw.preserve_patterns {
        Some(v) => v@,
        None => Seq::<String>::empty(),
    }
}

/// The raw configuration names a strategy, has what it needs, and every
/// configuration it describes passes validation.
pub open spec fn fault_free(raw: RawConfig) -> bool {
    &&& known_name(raw_name(raw))
    &&& !missing_regex(raw)
    &&& forall|c: TokenizerConfig| config_fits(c, raw) ==> (#[trigger] config_fault(c)) is None
}

/// Whether two strings hold the same characters.
fn same_text(a: &str, b: &str) -> (r: bool)
    ensures
        r == (a@ == b@),
{
    let x = chars_of(a);
    let y = chars_of(b);
    if x.len() != y.len() {
        return false;
    }
    let mut i: usize = 0;
    while i < x.len()
        invariant
            i <= x@.len(),
            x@ == a@,
            y@ == b@,
            x@.len() == y@.len(),
            forall|j: int| 0 <= j < i ==> x@[j] == y@[j],
        decreases x.len() - i,
    {
        if x[i] != y[i] {
            assert(x@[i as int] != y@[i as int]);
            return false;
        }
        i += 1;
    }
    assert(x@ =~= y@);
    true
}

/// The strategy a raw configuration names, with its parameters' defaults filled in.
fn parse_strategy(raw: &RawConfig) -> (r: Result<TokenizerStrategy, TokenizerError>)
    ensures
        r matches Ok(s) ==> strategy_fits(s, *raw),
        r is Ok <==> known_name(raw_name(*raw)) && !missing_regex(*raw),
        r matches Err(e) ==> (if !known_name(raw_name(*raw)) {
            e matches TokenizerError::UnknownStrategy(n) && n@ == raw_name(*raw)
        } else {
            e is InvalidConfiguration
        }),
{
    let name: String = match &raw.strategy {
        Some(s) => s.clone(),
        None => "unicode".to_owned(),
    };
    assert(name@ == raw_name(*raw));
    proof {
        reveal_strlit("whitespace");
        reveal_strlit("unicode");
        reveal_strlit("pattern");
        reveal_strlit("sentence");
        reveal_strlit("grapheme");
        reveal_strlit("keyword");
        reveal_strlit("edge_ngram");
        reveal_strlit("ngram");
        reveal_strlit("path_hierarchy");
        reveal_strlit("url_email");
        reveal_strlit("char_group");
        reveal_strlit("letter");
        reveal_strlit("lowercase");
    }
    let n = name.as_str();
    let r = if same_text(n, "whitespace") {
        Ok(TokenizerStrategy::Whitespace)
    } else if same_text(n, "unicode") {
        Ok(TokenizerStrategy::Unicode)
    } else if same_text(n, "pattern") {
        match &raw.regex {
            Some(x) => Ok(TokenizerStrategy::Pattern { regex: x.clone() }),
            None => {
                assert(strategy_name(TokenizerStrategy::Pattern { regex: name }) == raw_name(*raw));
                Err(
                    TokenizerError::InvalidConfiguration(
                        "pattern strategy requires regex parameter".to_owned(),
                    ),
                )
            },
        }
    } else if same_text(n, "sentence") {
        Ok(TokenizerStrategy::Sentence)
    } else if same_text(n, "grapheme") {
        let extended = match raw.extended {
            Some(b) => b,
            None => true,
        };
        Ok(TokenizerStrategy::Grapheme { extended })
    } else if same_text(n, "keyword") {
        Ok(TokenizerStrategy::Keyword)
    } else if same_text(n, "edge_ngram") || same_text(n, "ngram") {
        let min_gram = match raw.min_gram {
            Some(v) => v,
            None => DEFAULT_MIN_GRAM,
        };
        let max_gram = match raw.max_gram {
            Some(v) => v,
            None => DEFAULT_MAX_GRAM,
        };
        if same_text(n, "ngram") {
            Ok(TokenizerStrategy::Ngram { min_gram, max_gram })
        } else {
            Ok(TokenizerStrategy::EdgeNgram { min_gram, max_gram })
        }
    } else if same_text(n, "path_hierarchy") {
        let delimiter = match &raw.delimiter {
            Some(d) => d.clone(),
            None => "/".to_owned(),
        };
        Ok(TokenizerStrategy::PathHierarchy { delimiter })
    } else if same_text(n, "url_email") {
        Ok(TokenizerStrategy::UrlEmail)
    } else if same_text(n, "char_group") {
        let split_on_chars = match &raw.split_on_chars {
            Some(d) => d.clone(),
            None => " \t\n\r".to_owned(),
        };
        Ok(TokenizerStrategy::CharGroup { split_on_chars })
    } else if same_text(n, "letter") {
        Ok(TokenizerStrategy::Letter)
    } else if same_text(n, "lowercase") {
        Ok(TokenizerStrategy::Lowercase)
    } else {
        proof {
            lemma_unknown_name(name@);
        }
        Err(TokenizerError::UnknownStrategy(name))
    };
    proof {
        if r is Ok {
            let s = r->Ok_0;
            assert(strategy_name(s) == raw_name(*raw));
            assert(known_name(raw_name(*raw)));
            if raw_name(*raw) == "pattern"@ {
                lemma_pattern_name(s);
            }
        }
    }
    r
}

/// Reads a raw configuration: the strategy by name with its defaults, the flags
/// (lowercase by default, punctuation kept by default) and the preserve patterns;
/// then validates the result.
pub fn parse_config_from_hash(raw: RawConfig) -> (r: Result<TokenizerConfig, TokenizerError>)
    ensures
        r matches Ok(c) ==> config_fits(c, raw) && config_fault(c) is None,
        r is Ok ==> known_name(raw_name(raw)) && !missing_regex(raw),
        !known_name(raw_name(raw)) ==> (r matches Err(TokenizerError::UnknownStrategy(n)) && n@
            == raw_name(raw)),
        known_name(raw_name(raw)) && missing_regex(raw) ==> r matches Err(
            TokenizerError::InvalidConfiguration(_),
        ),
        r is Err && known_name(raw_name(raw)) && !missing_regex(raw) ==> exists|c: TokenizerConfig|
            config_fits(c, raw) && (#[trigger] config_fault(c) matches Some(f) && reports(r->Err_0, f)),
        fault_free(raw) ==> r is Ok,
{
    let strategy = match parse_strategy(&raw) {
        Ok(s) => s,
        Err(e) => {
            return Err(e);
        },
    };
    let lowercase = match raw.lowercase {
        Some(b) => b,
        None => true,
    };
    let remove_punctuation = match raw.remove_punctuation {
        Some(b) => b,
        None => false,
    };
    let preserve_patterns = match &raw.preserve_patterns {
        Some(v) => copy_strings(v),
        None => Vec::new(),
    };
    let config = TokenizerConfig { strategy, lowercase, remove_punctuation, preserve_patterns };
    match validate_config(&config) {
        Ok(()) => Ok(config),
        Err(e) => {
            assert(config_fits(config, raw));
            Err(e)
        },
    }
}

/// Writes a configuration out in raw form: its strategy's name and parameters, both
/// flags and the preserve patterns.
pub fn config_to_hash(config: &TokenizerConfig) -> (r: RawConfig)
    ensures
        config_fits(*config, r),
        r.strategy matches Some(n) && n@ == strategy_name(config.strategy),
        r.lowercase == Some(config.lowercase),
        r.remove_punctuation == Some(config.remove_punctuation),
        r.preserve_patterns matches Some(v) && v@ == config.preserve_patterns@,
        config.strategy matches TokenizerStrategy::Pattern { regex } ==> (r.regex matches Some(x)
            && x@ == regex@),
        config.strategy matches TokenizerStrategy::Grapheme { extended } ==> r.extended == Some(
            extended,
        ),
        config.strategy matches TokenizerStrategy::EdgeNgram { min_gram, max_gram } ==> r.min_gram
            == Some(min_gram) && r.max_gram == Some(max_gram),
        config.strategy matches TokenizerStrategy::Ngram { min_gram, max_gram } ==> r.min_gram == Some(
            min_gram,
        ) && r.max_gram == Some(max_gram),
        config.strategy matches TokenizerStrategy::PathHierarchy { delimiter } ==> (r.delimiter matches Some(
            d,
        ) && d@ == delimiter@),
        config.strategy matches TokenizerStrategy::CharGroup { split_on_chars } ==> (r.split_on_chars matches Some(
            s,
        ) && s@ == split_on_chars@),
{
    let name = match &config.strategy {
        TokenizerStrategy::Whitespace => "whitespace",
        TokenizerStrategy::Unicode => "unicode",
        TokenizerStrategy::Pattern { .. } => "pattern",
        TokenizerStrategy::Sentence => "sentence",
        TokenizerStrategy::Grapheme { .. } => "grapheme",
        TokenizerStrategy::Keyword => "keyword",
        TokenizerStrategy::EdgeNgram { .. } => "edge_ngram",
        TokenizerStrategy::Ngram { .. } => "ngram",
        TokenizerStrategy::PathHierarchy { .. } => "path_hierarchy",
        TokenizerStrategy::UrlEmail => "url_email",
        TokenizerStrategy::CharGroup { .. } => "char_group",
        TokenizerStrategy::Letter => "letter",
        TokenizerStrategy::Lowercase => "lowercase",
    };
    let mut raw = RawConfig {
        strategy: Some(name.to_owned()),
        regex: None,
        extended: None,
        min_gram: None,
        max_gram: None,
        delimiter: None,
        split_on_chars: None,
        lowercase: Some(config.lowercase),
        remove_punctuation: Some(config.remove_punctuation),
        preserve_patterns: Some(copy_strings(&config.preserve_patterns)),
    };
    match &config.strategy {
        TokenizerStrategy::Pattern { regex } => {
            raw.regex = Some(regex.clone());
        },
        TokenizerStrategy::Grapheme { extended } => {
            raw.extended = Some(*extended);
        },
        TokenizerStrategy::EdgeNgram { min_gram, max_gram } | TokenizerStrategy::Ngram {
            min_gram,
            max_gram,
        } => {
            raw.min_gram = Some(*min_gram);
            raw.max_gram = Some(*max_gram);
        },
        TokenizerStrategy::PathHierarchy { delimiter } => {
            raw.delimiter = Some(delimiter.clone());
        },
        TokenizerStrategy::CharGroup { split_on_chars } => {
            raw.split_on_chars = Some(split_on_chars.clone());
        },
        _ => {},
    }
    raw
}

/// The variant of a strategy, as a number.
pub open spec fn strategy_tag(s: TokenizerStrategy) -> nat {
    match s {
        TokenizerStrategy::Whitespace => 0,
        TokenizerStrategy::Unicode => 1,
        TokenizerStrategy::Pattern { .. } => 2,
        TokenizerStrategy::Sentence => 3,
        TokenizerStrategy::Grapheme { .. } => 4,
        TokenizerStrategy::Keyword => 5,
        TokenizerStrategy::EdgeNgram { .. } => 6,
        TokenizerStrategy::Ngram { .. } => 7,
        TokenizerStrategy::PathHierarchy { .. } => 8,
        TokenizerStrategy::UrlEmail => 9,
        TokenizerStrategy::CharGroup { .. } => 10,
        TokenizerStrategy::Letter => 11,
        TokenizerStrategy::Lowercase => 12,
    }
}

spec fn name_len(s: TokenizerStrategy) -> nat {
    match s {
        TokenizerStrategy::Whitespace => 10,
        TokenizerStrategy::Unicode => 7,
        TokenizerStrategy::Pattern { .. } => 7,
        TokenizerStrategy::Sentence => 8,
        TokenizerStrategy::Grapheme { .. } => 8,
        TokenizerStrategy::Keyword => 7,
        TokenizerStrategy::EdgeNgram { .. } => 10,
        TokenizerStrategy::Ngram { .. } => 5,
        TokenizerStrategy::PathHierarchy { .. } => 14,
        TokenizerStrategy::UrlEmail => 9,
        TokenizerStrategy::CharGroup { .. } => 10,
        TokenizerStrategy::Letter => 6,
        TokenizerStrategy::Lowercase => 9,
    }
}

spec fn name_first(s: TokenizerStrategy) -> char {
    match s {
        TokenizerStrategy::Whitespace => 'w',
        TokenizerStrategy::Unicode => 'u',
        TokenizerStrategy::Pattern { .. } => 'p',
        TokenizerStrategy::Sentence => 's',
        TokenizerStrategy::Grapheme { .. } => 'g',
        TokenizerStrategy::Keyword => 'k',
        TokenizerStrategy::EdgeNgram { .. } => 'e',
        TokenizerStrategy::Ngram { .. } => 'n',
        TokenizerStrategy::PathHierarchy { .. } => 'p',
        TokenizerStrategy::UrlEmail => 'u',
        TokenizerStrategy::CharGroup { .. } => 'c',
        TokenizerStrategy::Letter => 'l',
        TokenizerStrategy::Lowercase => 'l',
    }
}

proof fn lemma_name_key(s: TokenizerStrategy)
    ensures
        strategy_name(s).len() == name_len(s),
        strategy_name(s)[0] == name_first(s),
{
    match s {
        TokenizerStrategy::Whitespace => {
            reveal_strlit("whitespace");
        },
        TokenizerStrategy::Unicode => {
            reveal_strlit("unicode");
        },
        TokenizerStrategy::Pattern { .. } => {
            reveal_strlit("pattern");
        },
        TokenizerStrategy::Sentence => {
            reveal_strlit("sentence");
        },
        TokenizerStrategy::Grapheme { .. } => {
            reveal_strlit("grapheme");
        },
        TokenizerStrategy::Keyword => {
            reveal_strlit("keyword");
        },
        TokenizerStrategy::EdgeNgram { .. } => {
            reveal_strlit("edge_ngram");
        },
        TokenizerStrategy::Ngram { .. } => {
            reveal_strlit("ngram");
        },
        TokenizerStrategy::PathHierarchy { .. } => {
            reveal_strlit("path_hierarchy");
        },
        TokenizerStrategy::UrlEmail => {
            reveal_strlit("url_email");
        },
        TokenizerStrategy::CharGroup { .. } => {
            reveal_strlit("char_group");
        },
        TokenizerStrategy::Letter => {
            reveal_strlit("letter");
        },
        TokenizerStrategy::Lowercase => {
            reveal_strlit("lowercase");
        },
    }
}

/// Distinct strategies have distinct names.
pub proof fn lemma_name_injective(a: TokenizerStrategy, b: TokenizerStrategy)
    requires
        strategy_name(a) == strategy_name(b),
    ensures
        strategy_tag(a) == strategy_tag(b),
{
    lemma_name_key(a);
    lemma_name_key(b);
    match a {
        TokenizerStrategy::Whitespace => {},
        TokenizerStrategy::Unicode => {},
        TokenizerStrategy::Pattern { .. } => {},
        TokenizerStrategy::Sentence => {},
        TokenizerStrategy::Grapheme { .. } => {},
        TokenizerStrategy::Keyword => {},
        TokenizerStrategy::EdgeNgram { .. } => {},
        TokenizerStrategy::Ngram { .. } => {},
        TokenizerStrategy::PathHierarchy { .. } => {},
        TokenizerStrategy::UrlEmail => {},
        TokenizerStrategy::CharGroup { .. } => {},
        TokenizerStrategy::Letter => {},
        TokenizerStrategy::Lowercase => {},
    }
}

/// Two configurations that a raw configuration both describes agree: their strategies
/// are of one variant with parameters of the same value.
proof fn lemma_fits_agree(a: TokenizerConfig, b: TokenizerConfig, raw: RawConfig, t: Seq<char>)
    requires
        config_fits(a, raw),
        config_fits(b, raw),
    ensures
        config_fault(a) == config_fault(b),
        tokens_for(a, t) == tokens_for(b, t),
{
    lemma_name_injective(a.strategy, b.strategy);
}

/// Writing a valid configuration out in raw form and reading it back (defaults
/// filled in) succeeds, and the configuration read back prescribes the same tokens
/// for every text.
pub proof fn lemma_raw_round_trip(c: TokenizerConfig, raw: RawConfig, back: TokenizerConfig, t: Seq<char>)
    requires
        config_fault(c) is None,
        config_fits(c, raw),
        config_fits(back, raw),
    ensures
        fault_free(raw),
        config_fault(back) is None,
        tokens_for(back, t) == tokens_for(c, t),
{
    lemma_fits_agree(c, back, raw, t);
    assert(strategy_name(c.strategy) == raw_name(raw));
    assert forall|c2: TokenizerConfig| config_fits(c2, raw) implies (#[trigger] config_fault(c2)) is None by {
        lemma_fits_agree(c, c2, raw, t);
    }
    if missing_regex(raw) {
        lemma_pattern_name(c.strategy);
    }
}

proof fn lemma_pattern_name(s: TokenizerStrategy)
    requires
        strategy_name(s) == "pattern"@,
    ensures
        s is Pattern,
{
    reveal_strlit("whitespace");
    reveal_strlit("unicode");
    reveal_strlit("pattern");
    reveal_strlit("sentence");
    reveal_strlit("grapheme");
    reveal_strlit("keyword");
    reveal_strlit("edge_ngram");
    reveal_strlit("ngram");
    reveal_strlit("path_hierarchy");
    reveal_strlit("url_email");
    reveal_strlit("char_group");
    reveal_strlit("letter");
    reveal_strlit("lowercase");
    match s {
        TokenizerStrategy::Pattern { .. } => {},
        TokenizerStrategy::Unicode => {
            assert("unicode"@[0] != "pattern"@[0]);
        },
        TokenizerStrategy::Keyword => {
            assert("keyword"@[0] != "pattern"@[0]);
        },
        _ => {
            assert(strategy_name(s).len() != "pattern"@.len());
        },
    }
}

proof fn lemma_unknown_name(n: Seq<char>)
    requires
        n != "whitespace"@,
        n != "unicode"@,
        n != "pattern"@,
        n != "sentence"@,
        n != "grapheme"@,
        n != "keyword"@,
        n != "edge_ngram"@,
        n != "ngram"@,
        n != "path_hierarchy"@,
        n != "url_email"@,
        n != "char_group"@,
        n != "letter"@,
        n != "lowercase"@,
    ensures
        !known_name(n),
{
}

} // verus!
