use tokenkit::{
    config_hash, configure, merge_overlapping_spans, parse_config_from_hash, reset, tokenize,
    tokenize_with_config, validate_and_build, EdgeNgramTokenizer, NgramTokenizer, RawConfig,
    Tokenizer, TokenizerConfig, TokenizerError, TokenizerStrategy,
};

fn config(strategy: TokenizerStrategy) -> TokenizerConfig {
    TokenizerConfig {
        strategy,
        lowercase: true,
        remove_punctuation: false,
        preserve_patterns: Vec::new(),
    }
}

fn with_patterns(strategy: TokenizerStrategy, patterns: &[&str]) -> TokenizerConfig {
    TokenizerConfig {
        strategy,
        lowercase: true,
        remove_punctuation: false,
        preserve_patterns: patterns.iter().map(|p| p.to_string()).collect(),
    }
}

fn run(c: TokenizerConfig, text: &str) -> Vec<String> {
    match validate_and_build(c) {
        Ok(t) => t.tokenize(text),
        Err(e) => panic!("configuration refused: {:?}", e),
    }
}

fn empty_raw() -> RawConfig {
    RawConfig {
        strategy: None,
        regex: None,
        extended: None,
        min_gram: None,
        max_gram: None,
        delimiter: None,
        split_on_chars: None,
        lowercase: None,
        remove_punctuation: None,
        preserve_patterns: None,
    }
}

#[test]
fn path_hierarchy_prefixes() {
    let c = config(TokenizerStrategy::PathHierarchy { delimiter: "/".to_string() });
    assert_eq!(run(c, "/a/b/c"), vec!["/a", "/a/b", "/a/b/c"]);
}

#[test]
fn path_hierarchy_without_leading_delimiter() {
    let c = config(TokenizerStrategy::PathHierarchy { delimiter: "/".to_string() });
    assert_eq!(run(c, "  usr/Local/bin  "), vec!["usr", "usr/local", "usr/local/bin"]);
}

#[test]
fn path_hierarchy_keeps_delimiter_when_stripping() {
    let mut c = config(TokenizerStrategy::PathHierarchy { delimiter: "/".to_string() });
    c.remove_punctuation = true;
    assert_eq!(run(c, "/a.b/c!"), vec!["/ab", "/ab/c"]);
}

#[test]
fn path_hierarchy_with_preserve_pattern() {
    let c = with_patterns(
        TokenizerStrategy::PathHierarchy { delimiter: "/".to_string() },
        &["^/?API$"],
    );
    assert_eq!(run(c, "/API/Users/List"), vec!["/API", "/API/users", "/API/users/list"]);
}

#[test]
fn path_hierarchy_drops_prefixes_before_preserved() {
    let c = with_patterns(
        TokenizerStrategy::PathHierarchy { delimiter: "/".to_string() },
        &["^a/KEEP$"],
    );
    assert_eq!(run(c, "a/KEEP/B"), vec!["a/KEEP", "a/keep/b"]);
}

#[test]
fn edge_ngram_prefixes() {
    let c = config(TokenizerStrategy::EdgeNgram { min_gram: 2, max_gram: 4 });
    assert_eq!(run(c, "apple"), vec!["ap", "app", "appl"]);
}

#[test]
fn ngram_windows() {
    let c = config(TokenizerStrategy::Ngram { min_gram: 2, max_gram: 3 });
    assert_eq!(run(c, "abcd"), vec!["ab", "bc", "cd", "abc", "bcd"]);
}

#[test]
fn ngram_per_word_lowercased() {
    let c = config(TokenizerStrategy::Ngram { min_gram: 2, max_gram: 2 });
    assert_eq!(run(c, "AB cd"), vec!["ab", "cd"]);
}

#[test]
fn edge_ngram_strips_punctuation_per_word() {
    let mut c = config(TokenizerStrategy::EdgeNgram { min_gram: 1, max_gram: 2 });
    c.remove_punctuation = true;
    assert_eq!(run(c, "a.b !!"), vec!["a", "ab"]);
}

#[test]
fn generate_grams_directly() {
    let c = config(TokenizerStrategy::Keyword);
    let e = EdgeNgramTokenizer::new(c.clone(), 0, 0);
    assert_eq!(e.generate_edge_ngrams("xyz"), vec!["x"]);
    let n = NgramTokenizer::new(c, 2, 1);
    assert_eq!(n.generate_ngrams("xyz"), vec!["xy", "yz"]);
}

#[test]
fn preserve_pattern_keeps_case() {
    let c = with_patterns(TokenizerStrategy::Unicode, &[r"ID-\d+"]);
    assert_eq!(run(c, "contact ID-42 now"), vec!["contact", "ID-42", "now"]);
}

#[test]
fn overlapping_preserve_patterns_merge() {
    let c = with_patterns(TokenizerStrategy::Whitespace, &[r"\d{4}-\d{2}", r"\d{2}-\d{2}$"]);
    assert_eq!(run(c, "2024-01-01"), vec!["2024-01-01"]);
}

#[test]
fn merge_spans_union_and_touching() {
    assert_eq!(merge_overlapping_spans(vec![(5, 10), (0, 7)]), vec![(0, 10)]);
    assert_eq!(merge_overlapping_spans(vec![(3, 5), (0, 3)]), vec![(0, 3), (3, 5)]);
    assert_eq!(merge_overlapping_spans(vec![(0, 4), (1, 2), (6, 8)]), vec![(0, 4), (6, 8)]);
    assert_eq!(merge_overlapping_spans(vec![]), Vec::<(usize, usize)>::new());
}

#[test]
fn char_group_empty_set_splits_nothing() {
    let c = config(TokenizerStrategy::CharGroup { split_on_chars: String::new() });
    assert_eq!(run(c, "hello world"), vec!["hello world"]);
}

#[test]
fn char_group_splits_on_set() {
    let c = config(TokenizerStrategy::CharGroup { split_on_chars: ",;".to_string() });
    assert_eq!(run(c, "A,b;;c"), vec!["a", "b", "c"]);
}

#[test]
fn invalid_preserve_pattern_is_refused() {
    let c = with_patterns(TokenizerStrategy::Unicode, &["ok", "("]);
    match validate_and_build(c) {
        Err(TokenizerError::InvalidRegex { pattern, .. }) => assert_eq!(pattern, "("),
        _ => panic!("expected an invalid-regex error"),
    }
}

#[test]
fn invalid_main_pattern_is_refused() {
    let c = config(TokenizerStrategy::Pattern { regex: "[a-".to_string() });
    match validate_and_build(c) {
        Err(TokenizerError::InvalidRegex { pattern, error }) => {
            assert_eq!(pattern, "[a-");
            assert!(!error.is_empty());
        }
        _ => panic!("expected an invalid-regex error"),
    }
}

#[test]
fn edge_ngram_zero_min_is_refused() {
    let c = config(TokenizerStrategy::EdgeNgram { min_gram: 0, max_gram: 5 });
    match validate_and_build(c) {
        Err(TokenizerError::InvalidNgramConfig { min, max }) => {
            assert_eq!((min, max), (0, 5));
        }
        _ => panic!("expected an n-gram error"),
    }
}

#[test]
fn ngram_min_above_max_is_refused() {
    let c = config(TokenizerStrategy::Ngram { min_gram: 4, max_gram: 2 });
    assert!(matches!(
        validate_and_build(c),
        Err(TokenizerError::InvalidNgramConfig { min: 4, max: 2 })
    ));
}

#[test]
fn empty_delimiter_is_refused() {
    let c = config(TokenizerStrategy::PathHierarchy { delimiter: String::new() });
    match validate_and_build(c) {
        Err(TokenizerError::EmptyDelimiter { tokenizer }) => assert_eq!(tokenizer, "PathHierarchy"),
        _ => panic!("expected an empty-delimiter error"),
    }
}

#[test]
fn unknown_strategy_is_refused() {
    let mut raw = empty_raw();
    raw.strategy = Some("bogus".to_string());
    match parse_config_from_hash(raw) {
        Err(TokenizerError::UnknownStrategy(name)) => assert_eq!(name, "bogus"),
        _ => panic!("expected an unknown-strategy error"),
    }
}

#[test]
fn pattern_without_regex_is_refused() {
    let mut raw = empty_raw();
    raw.strategy = Some("pattern".to_string());
    assert!(matches!(
        parse_config_from_hash(raw),
        Err(TokenizerError::InvalidConfiguration(_))
    ));
}

#[test]
fn raw_defaults_fill_in() {
    let mut raw = empty_raw();
    raw.strategy = Some("edge_ngram".to_string());
    let c = parse_config_from_hash(raw).unwrap();
    assert!(matches!(c.strategy, TokenizerStrategy::EdgeNgram { min_gram: 2, max_gram: 10 }));
    assert!(c.lowercase);
    assert!(!c.remove_punctuation);
    assert!(c.preserve_patterns.is_empty());
    let c = parse_config_from_hash(empty_raw()).unwrap();
    assert!(matches!(c.strategy, TokenizerStrategy::Unicode));
}

#[test]
fn describe_round_trip_tokenizes_alike() {
    let c = with_patterns(
        TokenizerStrategy::CharGroup { split_on_chars: " -".to_string() },
        &[r"[A-Z]{2}\d"],
    );
    let first = validate_and_build(c).unwrap();
    let second = validate_and_build(first.describe()).unwrap();
    let text = "Hello AB1-world  Foo";
    assert_eq!(first.tokenize(text), second.tokenize(text));
    assert_eq!(first.tokenize(text), vec!["hello", "AB1", "-world", "foo"]);
}

#[test]
fn raw_round_trip_through_hash() {
    let c = config(TokenizerStrategy::Ngram { min_gram: 1, max_gram: 3 });
    let back = parse_config_from_hash(tokenkit::config_to_hash(&c)).unwrap();
    assert!(matches!(back.strategy, TokenizerStrategy::Ngram { min_gram: 1, max_gram: 3 }));
    assert_eq!(back.lowercase, c.lowercase);
}

#[test]
fn identity_without_preserve_patterns() {
    let mut c = config(TokenizerStrategy::Whitespace);
    c.remove_punctuation = true;
    assert_eq!(run(c, "Hello, World !!"), vec!["hello", "world"]);
}

#[test]
fn overlay_keeps_text_order() {
    let c = with_patterns(TokenizerStrategy::Letter, &[r"\d+", "XY"]);
    assert_eq!(run(c, "b 12 XY Cc 7"), vec!["b", "12", "XY", "cc", "7"]);
}

#[test]
fn overlay_positions_after_multibyte_text() {
    let c = with_patterns(TokenizerStrategy::Whitespace, &[r"ID-\d+"]);
    assert_eq!(run(c, "Çafé ID-7 Ünï"), vec!["çafé", "ID-7", "ünï"]);
}

#[test]
fn whitespace_splits_on_unicode_space() {
    let c = config(TokenizerStrategy::Whitespace);
    assert_eq!(run(c, " a\u{3000}B\tc "), vec!["a", "b", "c"]);
}

#[test]
fn unicode_words_drop_punctuation() {
    let c = config(TokenizerStrategy::Unicode);
    assert_eq!(run(c, "Hello, World! It's"), vec!["hello", "world", "it's"]);
}

#[test]
fn pattern_matches_in_order() {
    let c = config(TokenizerStrategy::Pattern { regex: r"[A-Za-z]+\d".to_string() });
    assert_eq!(run(c, "Ab1 cd x9 Zz2"), vec!["ab1", "x9", "zz2"]);
}

#[test]
fn sentences_are_split() {
    let mut c = config(TokenizerStrategy::Sentence);
    c.lowercase = false;
    assert_eq!(run(c, "One two. Three four? Five"), vec!["One two. ", "Three four? ", "Five"]);
}

#[test]
fn sentence_preserve_pattern_keeps_case() {
    let c = with_patterns(TokenizerStrategy::Sentence, &["NASA"]);
    assert_eq!(run(c, "Ask NASA Now."), vec!["ask NASA now."]);
}

#[test]
fn graphemes_are_clusters() {
    let mut c = config(TokenizerStrategy::Grapheme { extended: true });
    c.lowercase = false;
    assert_eq!(run(c, "e\u{301}X"), vec!["e\u{301}", "X"]);
}

#[test]
fn keyword_trims_and_keeps_whole() {
    let c = config(TokenizerStrategy::Keyword);
    assert_eq!(run(c.clone(), "  Hello World \n"), vec!["hello world"]);
    assert_eq!(run(c, "   "), Vec::<String>::new());
}

#[test]
fn url_email_keeps_links_whole() {
    let c = config(TokenizerStrategy::UrlEmail);
    assert_eq!(
        run(c, "Mail Bob@Example.com or see https://Example.org/x now"),
        vec!["mail", "bob@example.com", "or", "see", "https://example.org/x", "now"]
    );
}

#[test]
fn url_email_preserved_link_keeps_case() {
    let c = with_patterns(TokenizerStrategy::UrlEmail, &["Example"]);
    assert_eq!(run(c, "Go https://Example.org"), vec!["go", "https://Example.org"]);
}

#[test]
fn letter_runs() {
    let c = config(TokenizerStrategy::Letter);
    assert_eq!(run(c, "Don't stop-2day"), vec!["don", "t", "stop", "day"]);
}

#[test]
fn lowercase_strategy_folds_regardless() {
    let mut c = config(TokenizerStrategy::Lowercase);
    c.lowercase = false;
    assert_eq!(run(c, "ÀB-Cd"), vec!["àb", "cd"]);
}

#[test]
fn session_configure_and_reset() {
    let mut current = TokenizerConfig::default();
    assert_eq!(tokenize(&current, "Hello World").unwrap(), vec!["hello", "world"]);
    let mut raw = empty_raw();
    raw.strategy = Some("whitespace".to_string());
    raw.lowercase = Some(false);
    configure(&mut current, raw).unwrap();
    assert_eq!(tokenize(&current, "Hello World").unwrap(), vec!["Hello", "World"]);
    let hash = config_hash(&current);
    assert_eq!(hash.strategy.as_deref(), Some("whitespace"));
    assert_eq!(hash.lowercase, Some(false));
    let mut bad = empty_raw();
    bad.strategy = Some("nope".to_string());
    assert!(configure(&mut current, bad).is_err());
    assert!(matches!(current.strategy, TokenizerStrategy::Whitespace));
    reset(&mut current);
    assert!(matches!(current.strategy, TokenizerStrategy::Unicode));
    assert!(current.lowercase);
}

#[test]
fn tokenize_with_raw_config() {
    let mut raw = empty_raw();
    raw.strategy = Some("ngram".to_string());
    raw.min_gram = Some(3);
    raw.max_gram = Some(3);
    assert_eq!(tokenize_with_config("abcd", raw).unwrap(), vec!["abc", "bcd"]);
}

#[test]
fn factory_refuses_bad_preserve_pattern() {
    let c = with_patterns(TokenizerStrategy::Unicode, &["("]);
    match tokenkit::from_config(c) {
        Err(TokenizerError::InvalidRegex { pattern, error }) => {
            assert_eq!(pattern, "(");
            assert!(!error.is_empty());
        }
        _ => panic!("expected an invalid-regex error"),
    }
}

#[test]
fn hash_writes_parameters_equal_to_defaults() {
    let h = tokenkit::config_to_hash(&config(TokenizerStrategy::Grapheme { extended: true }));
    assert_eq!(h.extended, Some(true));
    let h = tokenkit::config_to_hash(&config(TokenizerStrategy::EdgeNgram { min_gram: 2, max_gram: 10 }));
    assert_eq!((h.min_gram, h.max_gram), (Some(2), Some(10)));
    let h = tokenkit::config_to_hash(&config(TokenizerStrategy::PathHierarchy { delimiter: "/".to_string() }));
    assert_eq!(h.delimiter.as_deref(), Some("/"));
    assert_eq!(h.strategy.as_deref(), Some("path_hierarchy"));
    assert_eq!(h.lowercase, Some(true));
    assert_eq!(h.remove_punctuation, Some(false));
    assert_eq!(h.preserve_patterns, Some(Vec::<String>::new()));
}
