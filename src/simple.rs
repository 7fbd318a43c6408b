use vstd::prelude::*;

use crate::chars::{chars_of, string_of, trim_ws, views};
use crate::config::{reports, ConfigFault, TokenizerConfig};
use crate::error::TokenizerError;
use crate::offsets::{byte_offsets, char_spans, to_char_spans};
use crate::overlay::{apply_preserve_patterns, preserve_overlay};
use crate::pattern::{regex_find, regex_ok, CompiledPattern};
use crate::post::{post, post_process};
use crate::segment::{graphemes, graphemes_of, unicode_words, unicode_words_of};
use crate::split::{as_is, folded, letters, not_in, not_space, runs, split_runs, RunRule};
use crate::tokenizer::{compiled_sources, BaseTokenizerFields, Tokenizer};

verus! {

/// The texts that character spans cover.
pub open spec fn span_texts(t: Seq<char>, spans: Seq<(usize, usize)>) -> Seq<Seq<char>> {
    spans.map_values(|s: (usize, usize)| t.subrange(s.0 as int, s.1 as int))
}

/// Splits on runs of Unicode whitespace.
pub struct WhitespaceTokenizer {
    pub base: BaseTokenizerFields,
}

impl WhitespaceTokenizer {
    pub fn new(config: TokenizerConfig) -> (r: WhitespaceTokenizer)
        ensures
            r.base.config == config,
            r.base.pattern_sources() == compiled_sources(config.preserve_patterns@),
    {
        WhitespaceTokenizer { base: BaseTokenizerFields::new(config) }
    }
}

impl Tokenizer for WhitespaceTokenizer {
    open spec fn tokens_spec(&self, text: Seq<char>) -> Seq<Seq<char>> {
        preserve_overlay(
            runs(not_space(), as_is(), text),
            self.base.pattern_sources(),
            text,
            self.base.config.lowercase,
            self.base.config.remove_punctuation,
        )
    }

    fn tokenize(&self, text: &str) -> (r: Vec<String>) {
        let tokens = split_runs(text, &RunRule::NonSpace);
        apply_preserve_patterns(tokens, &self.base.preserve_patterns, text, &self.base.config)
    }
}

/// Splits at Unicode word boundaries, dropping punctuation-only pieces.
pub struct UnicodeTokenizer {
    pub base: BaseTokenizerFields,
}

impl UnicodeTokenizer {
    pub fn new(config: TokenizerConfig) -> (r: UnicodeTokenizer)
        ensures
            r.base.config == config,
            r.base.pattern_sources() == compiled_sources(config.preserve_patterns@),
    {
        UnicodeTokenizer { base: BaseTokenizerFields::new(config) }
    }
}

impl Tokenizer for UnicodeTokenizer {
    open spec fn tokens_spec(&self, text: Seq<char>) -> Seq<Seq<char>> {
        preserve_overlay(
            unicode_words_of(text),
            self.base.pattern_sources(),
            text,
            self.base.config.lowercase,
            self.base.config.remove_punctuation,
        )
    }

    fn tokenize(&self, text: &str) -> (r: Vec<String>) {
        let tokens = unicode_words(text);
        apply_preserve_patterns(tokens, &self.base.preserve_patterns, text, &self.base.config)
    }
}

/// Emits every non-overlapping match of a regular expression, in order.
pub struct PatternTokenizer {
    pub base: BaseTokenizerFields,
    pub pattern: CompiledPattern,
}

impl PatternTokenizer {
    /// Compiles `regex`; fails when it does not compile.
    pub fn new(regex: &str, config: TokenizerConfig) -> (r: Result<PatternTokenizer, TokenizerError>)
        ensures
            r is Ok <==> regex_ok(regex@),
            r matches Ok(t) ==> t.pattern.source_view() == regex@ && t.base.config == config
                && t.base.pattern_sources() == compiled_sources(config.preserve_patterns@),
            r matches Err(e) ==> reports(e, ConfigFault::BadRegex { pattern: regex@ }),
    {
        match CompiledPattern::compile(regex) {
            Ok(pattern) => Ok(PatternTokenizer { base: BaseTokenizerFields::new(config), pattern }),
            Err(msg) => Err(TokenizerError::InvalidRegex { pattern: regex.to_owned(), error: msg }),
        }
    }
}

impl Tokenizer for PatternTokenizer {
    open spec fn tokens_spec(&self, text: Seq<char>) -> Seq<Seq<char>> {
        preserve_overlay(
            span_texts(text, char_spans(text, regex_find(self.pattern.source_view(), text))),
            self.base.pattern_sources(),
            text,
            self.base.config.lowercase,
            self.base.config.remove_punctuation,
        )
    }

    fn tokenize(&self, text: &str) -> (r: Vec<String>) {
        let found = self.pattern.find_spans(text);
        let cs = chars_of(text);
        let offs = byte_offsets(&cs, text.as_bytes().len());
        let spans = to_char_spans(&cs, &offs, &found);
        let mut tokens: Vec<String> = Vec::new();
        let mut k: usize = 0;
        while k < spans.len()
            invariant
                k <= spans@.len(),
                cs@ == text@,
                forall|j: int| 0 <= j < spans@.len() ==> (#[trigger] spans@[j]).0 <= cs@.len() && spans@[j].1
                    <= cs@.len(),
                spans@ == char_spans(cs@, found@),
                forall|j: int| 0 <= j < spans@.len() ==> (#[trigger] spans@[j]).0 <= spans@[j].1,
                views(tokens@) == span_texts(cs@, spans@.subrange(0, k as int)),
            decreases spans.len() - k,
        {
            let (s, e) = spans[k];
            let piece = string_of(&cs, s, e);
            let ghost before = views(tokens@);
            tokens.push(piece);
            assert(views(tokens@) =~= before.push(piece@));
            assert(span_texts(cs@, spans@.subrange(0, k + 1)) =~= span_texts(cs@, spans@.subrange(0, k as int)).push(piece@));
            k += 1;
        }
        assert(spans@.subrange(0, spans@.len() as int) =~= spans@);
        apply_preserve_patterns(tokens, &self.base.preserve_patterns, text, &self.base.config)
    }
}

/// Splits into grapheme clusters, extended or legacy.
pub struct GraphemeTokenizer {
    pub config: TokenizerConfig,
    pub extended: bool,
}

impl GraphemeTokenizer {
    pub fn new(config: TokenizerConfig, extended: bool) -> (r: GraphemeTokenizer)
        ensures
            r.config == config,
            r.extended == extended,
    {
        GraphemeTokenizer { config, extended }
    }
}

impl Tokenizer for GraphemeTokenizer {
    open spec fn tokens_spec(&self, text: Seq<char>) -> Seq<Seq<char>> {
        post(
            graphemes_of(text, self.extended),
            self.config.lowercase,
            self.config.remove_punctuation,
            Seq::<char>::empty(),
        )
    }

    fn tokenize(&self, text: &str) -> (r: Vec<String>) {
        post_process(graphemes(text, self.extended), &self.config)
    }
}

/// The whole trimmed input as one token, or nothing for blank input.
pub struct KeywordTokenizer {
    pub config: TokenizerConfig,
}

impl KeywordTokenizer {
    pub fn new(config: TokenizerConfig) -> (r: KeywordTokenizer)
        ensures
            r.config == config,
    {
        KeywordTokenizer { config }
    }
}

impl Tokenizer for KeywordTokenizer {
    open spec fn tokens_spec(&self, text: Seq<char>) -> Seq<Seq<char>> {
        if trim_ws(text).len() == 0 {
            seq![]
        } else {
            post(
                seq![trim_ws(text)],
                self.config.lowercase,
                self.config.remove_punctuation,
                Seq::<char>::empty(),
            )
        }
    }

    fn tokenize(&self, text: &str) -> (r: Vec<String>) {
        let trimmed = text.trim();
        if trimmed.is_empty() {
            return Vec::new();
        }
        let mut tokens: Vec<String> = Vec::new();
        tokens.push(trimmed.to_owned());
        assert(views(tokens@) =~= seq![trim_ws(text@)]);
        post_process(tokens, &self.config)
    }
}

/// Splits on any character of a set; an empty set splits nothing.
pub struct CharGroupTokenizer {
    pub base: BaseTokenizerFields,
    pub split_chars: Vec<char>,
}

impl CharGroupTokenizer {
    pub fn new(config: TokenizerConfig, split_on_chars: String) -> (r: CharGroupTokenizer)
        ensures
            r.base.config == config,
            r.base.pattern_sources() == compiled_sources(config.preserve_patterns@),
            r.split_chars@ == split_on_chars@,
    {
        let split_chars = chars_of(split_on_chars.as_str());
        CharGroupTokenizer { base: BaseTokenizerFields::new(config), split_chars }
    }
}

impl Tokenizer for CharGroupTokenizer {
    open spec fn tokens_spec(&self, text: Seq<char>) -> Seq<Seq<char>> {
        preserve_overlay(
            runs(not_in(self.split_chars@), as_is(), text),
            self.base.pattern_sources(),
            text,
            self.base.config.lowercase,
            self.base.config.remove_punctuation,
        )
    }

    fn tokenize(&self, text: &str) -> (r: Vec<String>) {
        let rule = RunRule::NotIn(self.split_chars.clone());
        assert(rule.keep_fn() == not_in(self.split_chars@));
        let tokens = split_runs(text, &rule);
        apply_preserve_patterns(tokens, &self.base.preserve_patterns, text, &self.base.config)
    }
}

/// Maximal runs of alphabetic characters.
pub struct LetterTokenizer {
    pub base: BaseTokenizerFields,
}

impl LetterTokenizer {
    pub fn new(config: TokenizerConfig) -> (r: LetterTokenizer)
        ensures
            r.base.config == config,
            r.base.pattern_sources() == compiled_sources(config.preserve_patterns@),
    {
        LetterTokenizer { base: BaseTokenizerFields::new(config) }
    }
}

impl Tokenizer for LetterTokenizer {
    open spec fn tokens_spec(&self, text: Seq<char>) -> Seq<Seq<char>> {
        preserve_overlay(
            runs(letters(), as_is(), text),
            self.base.pattern_sources(),
            text,
            self.base.config.lowercase,
            self.base.config.remove_punctuation,
        )
    }

    fn tokenize(&self, text: &str) -> (r: Vec<String>) {
        let tokens = split_runs(text, &RunRule::Letters);
        apply_preserve_patterns(tokens, &self.base.preserve_patterns, text, &self.base.config)
    }
}

/// Runs of alphabetic characters, folded to lowercase whatever the configuration says.
pub struct LowercaseTokenizer {
    pub base: BaseTokenizerFields,
}

impl LowercaseTokenizer {
    pub fn new(config: TokenizerConfig) -> (r: LowercaseTokenizer)
        ensures
            r.base.config == config,
            r.base.pattern_sources() == compiled_sources(config.preserve_patterns@),
    {
        LowercaseTokenizer { base: BaseTokenizerFields::new(config) }
    }
}

impl Tokenizer for LowercaseTokenizer {
    open spec fn tokens_spec(&self, text: Seq<char>) -> Seq<Seq<char>> {
        if self.base.pattern_sources().len() == 0 {
            runs(letters(), folded(), text)
        } else {
            preserve_overlay(
                runs(letters(), folded(), text),
                self.base.pattern_sources(),
                text,
                true,
                self.base.config.remove_punctuation,
            )
        }
    }

    fn tokenize(&self, text: &str) -> (r: Vec<String>) {
        let tokens = split_runs(text, &RunRule::FoldedLetters);
        if self.base.has_preserve_patterns() {
            let mut folded_config = self.base.config.copied();
            folded_config.lowercase = true;
            apply_preserve_patterns(tokens, &self.base.preserve_patterns, text, &folded_config)
        } else {
            tokens
        }
    }
}

} // verus!
