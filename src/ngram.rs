use vstd::prelude::*;

use crate::chars::{chars_of, string_of, views};
use crate::config::TokenizerConfig;
use crate::overlay::tokenize_simple;
use crate::post::{lower_all, lowercase_tokens, strip_punct, strip_punctuation};
use crate::split::{as_is, not_space, runs};
use crate::tokenizer::Tokenizer;

verus! {

/// The lower n-gram bound after clamping: at least one.
pub open spec fn clamp_min(min: usize) -> usize {
    if min < 1 {
        1
    } else {
        min
    }
}

/// The upper n-gram bound after clamping: at least the (clamped) lower one.
pub open spec fn clamp_max(max: usize, min: usize) -> usize {
    if max < min {
        min
    } else {
        max
    }
}

/// The largest gram size used on a word of `len` characters.
pub open spec fn top_size(len: int, max: int) -> int {
    if max < len {
        max
    } else {
        len
    }
}

/// Prefixes of `w` of every length from `min` to `min(max, |w|)`, shortest first.
pub open spec fn edge_grams(w: Seq<char>, min: int, max: int) -> Seq<Seq<char>> {
    let t = top_size(w.len() as int, max);
    if t < min {
        seq![]
    } else {
        Seq::new((t - min + 1) as nat, |k: int| w.subrange(0, min + k))
    }
}

/// Every substring of `w` of length `size`, left to right.
pub open spec fn windows(w: Seq<char>, size: int) -> Seq<Seq<char>> {
    if size > w.len() {
        seq![]
    } else {
        Seq::new((w.len() - size + 1) as nat, |k: int| w.subrange(k, k + size))
    }
}

/// Windows of each size from `size` to `t`, smaller sizes first.
pub open spec fn grams_from(w: Seq<char>, size: int, t: int) -> Seq<Seq<char>>
    decreases t - size + 1,
{
    if size > t {
        seq![]
    } else {
        windows(w, size) + grams_from(w, size + 1, t)
    }
}

/// Substrings of `w` of every length from `min` to `min(max, |w|)`, grouped by length.
pub open spec fn ngrams(w: Seq<char>, min: int, max: int) -> Seq<Seq<char>> {
    grams_from(w, min, top_size(w.len() as int, max))
}

/// A word as the n-gram tokenizers see it: without punctuation when that is configured.
pub open spec fn prepared(w: Seq<char>, strip: bool) -> Seq<char> {
    if strip {
        strip_punct(w, Seq::<char>::empty())
    } else {
        w
    }
}

/// The grams of each non-empty prepared word, word after word.
pub open spec fn grams_of_words(
    ws: Seq<Seq<char>>,
    strip: bool,
    edge: bool,
    min: int,
    max: int,
) -> Seq<Seq<char>>
    decreases ws.len(),
{
    if ws.len() == 0 {
        seq![]
    } else {
        let p = prepared(ws.last(), strip);
        let g = if p.len() == 0 {
            seq![]
        } else if edge {
            edge_grams(p, min, max)
        } else {
            ngrams(p, min, max)
        };
        grams_of_words(ws.drop_last(), strip, edge, min, max) + g
    }
}

/// Tokens of the n-gram tokenizers: grams of each whitespace-separated word, then
/// lowercased if configured.
pub open spec fn gram_tokens(c: TokenizerConfig, edge: bool, min: int, max: int, t: Seq<char>) -> Seq<
    Seq<char>,
> {
    let g = grams_of_words(runs(not_space(), as_is(), t), c.remove_punctuation, edge, min, max);
    if c.lowercase {
        lower_all(g)
    } else {
        g
    }
}

/// Appends the grams of `word` (edge grams or all n-grams) to `out`.
fn push_grams(out: &mut Vec<String>, word: &str, edge: bool, min: usize, max: usize)
    requires
        min >= 1,
    ensures
        views(final(out)@) == views(old(out)@) + (if edge {
            edge_grams(word@, min as int, max as int)
        } else {
            ngrams(word@, min as int, max as int)
        }),
{
    let chars = chars_of(word);
    let len = chars.len();
    let top = if max < len {
        max
    } else {
        len
    };
    let ghost start = views(out@);
    if edge {
        if top < min {
            assert(views(out@) =~= start + edge_grams(word@, min as int, max as int));
            return;
        }
        let count = top - min + 1;
        let mut k: usize = 0;
        while k < count
            invariant
                k <= count,
                count == top - min + 1,
                min <= top <= len,
                len == chars@.len(),
                chars@ == word@,
                top as int == top_size(word@.len() as int, max as int),
                views(out@) == start + edge_grams(word@, min as int, max as int).subrange(0, k as int),
            decreases count - k,
        {
            let g = string_of(&chars, 0, min + k);
            let ghost before = views(out@);
            out.push(g);
            assert(views(out@) =~= before.push(g@));
            assert(edge_grams(word@, min as int, max as int).subrange(0, k + 1) =~= edge_grams(
                word@,
                min as int,
                max as int,
            ).subrange(0, k as int).push(g@));
            k += 1;
        }
        assert(edge_grams(word@, min as int, max as int).subrange(0, count as int) =~= edge_grams(
            word@,
            min as int,
            max as int,
        ));
    } else {
        if top < min {
            assert(views(out@) =~= start + ngrams(word@, min as int, max as int));
            return;
        }
        let count = top - min + 1;
        let mut d: usize = 0;
        while d < count
            invariant
                1 <= min <= top <= len,
                count == top - min + 1,
                d <= count,
                len == chars@.len(),
                chars@ == word@,
                top as int == top_size(word@.len() as int, max as int),
                views(out@) + grams_from(word@, min + d, top as int) == start + ngrams(
                    word@,
                    min as int,
                    max as int,
                ),
            decreases count - d,
        {
            let size = min + d;
            let ghost outer = views(out@);
            let mut s: usize = 0;
            while s <= len - size
                invariant
                    1 <= size <= top <= len,
                    len == chars@.len(),
                    chars@ == word@,
                    s <= len - size + 1,
                    views(out@) == outer + windows(word@, size as int).subrange(0, s as int),
                decreases len - size + 1 - s,
            {
                let g = string_of(&chars, s, s + size);
                let ghost before = views(out@);
                out.push(g);
                assert(views(out@) =~= before.push(g@));
                assert(windows(word@, size as int).subrange(0, s + 1) =~= windows(
                    word@,
                    size as int,
                ).subrange(0, s as int).push(g@));
                s += 1;
            }
            assert(windows(word@, size as int).subrange(0, s as int) =~= windows(word@, size as int));
            assert(views(out@) + grams_from(word@, size + 1, top as int) =~= outer + grams_from(
                word@,
                size as int,
                top as int,
            ));
            d += 1;
        }
        assert(views(out@) =~= start + ngrams(word@, min as int, max as int));
    }
}

/// Grams of every word of `text`, lowercased if configured.
fn gram_tokenize(config: &TokenizerConfig, text: &str, edge: bool, min: usize, max: usize) -> (r: Vec<String>)
    requires
        min >= 1,
    ensures
        views(r@) == gram_tokens(*config, edge, min as int, max as int, text@),
{
    let words = tokenize_simple(text);
    let no_keep: Vec<char> = Vec::new();
    let mut all: Vec<String> = Vec::new();
    let mut i: usize = 0;
    while i < words.len()
        invariant
            min >= 1,
            i <= words@.len(),
            no_keep@ == Seq::<char>::empty(),
            views(words@) == runs(not_space(), as_is(), text@),
            views(all@) == grams_of_words(
                views(words@).subrange(0, i as int),
                config.remove_punctuation,
                edge,
                min as int,
                max as int,
            ),
        decreases words.len() - i,
    {
        let ghost ws = views(words@).subrange(0, i + 1);
        assert(ws.drop_last() =~= views(words@).subrange(0, i as int));
        assert(ws.last() == words@[i as int]@);
        let processed = if config.remove_punctuation {
            strip_punctuation(words[i].as_str(), &no_keep)
        } else {
            words[i].clone()
        };
        if !processed.as_str().is_empty() {
            push_grams(&mut all, processed.as_str(), edge, min, max);
        } else {
            assert(views(all@) =~= views(all@) + Seq::<Seq<char>>::empty());
        }
        i += 1;
    }
    assert(views(words@).subrange(0, words@.len() as int) =~= views(words@));
    if config.lowercase {
        lowercase_tokens(&all)
    } else {
        all
    }
}

/// Prefix grams of each word, for autocomplete indexing.
pub struct EdgeNgramTokenizer {
    config: TokenizerConfig,
    min_gram: usize,
    max_gram: usize,
}

impl EdgeNgramTokenizer {
    #[verifier::type_invariant]
    spec fn bounds_ordered(&self) -> bool {
        1 <= self.min_gram <= self.max_gram
    }

    pub closed spec fn spec_config(&self) -> TokenizerConfig {
        self.config
    }

    /// The configuration.
    pub fn config(&self) -> (r: &TokenizerConfig)
        ensures
            *r == self.spec_config(),
    {
        &self.config
    }

    pub closed spec fn spec_min(&self) -> usize {
        self.min_gram
    }

    pub closed spec fn spec_max(&self) -> usize {
        self.max_gram
    }

    /// Holds the configuration and the bounds, clamped so that `1 <= min <= max`.
    pub fn new(config: TokenizerConfig, min_gram: usize, max_gram: usize) -> (r: EdgeNgramTokenizer)
        ensures
            r.spec_config() == config,
            r.spec_min() == clamp_min(min_gram),
            r.spec_max() == clamp_max(max_gram, clamp_min(min_gram)),
    {
        let min_gram = if min_gram < 1 {
            1
        } else {
            min_gram
        };
        let max_gram = if max_gram < min_gram {
            min_gram
        } else {
            max_gram
        };
        EdgeNgramTokenizer { config, min_gram, max_gram }
    }

    /// The edge grams of one word.
    pub fn generate_edge_ngrams(&self, text: &str) -> (r: Vec<String>)
        ensures
            views(r@) == edge_grams(text@, self.spec_min() as int, self.spec_max() as int),
    {
        let mut out: Vec<String> = Vec::new();
        proof {
            use_type_invariant(self);
        }
        push_grams(&mut out, text, true, self.min_gram, self.max_gram);
        assert(views(out@) =~= edge_grams(text@, self.spec_min() as int, self.spec_max() as int));
        out
    }
}

impl Tokenizer for EdgeNgramTokenizer {
    open spec fn tokens_spec(&self, text: Seq<char>) -> Seq<Seq<char>> {
        gram_tokens(self.spec_config(), true, self.spec_min() as int, self.spec_max() as int, text)
    }

    fn tokenize(&self, text: &str) -> (r: Vec<String>) {
        proof {
            use_type_invariant(self);
        }
        gram_tokenize(&self.config, text, true, self.min_gram, self.max_gram)
    }
}

/// Every substring of each word within the length bounds (a sliding window).
pub struct NgramTokenizer {
    config: TokenizerConfig,
    min_gram: usize,
    max_gram: usize,
}

impl NgramTokenizer {
    #[verifier::type_invariant]
    spec fn bounds_ordered(&self) -> bool {
        1 <= self.min_gram <= self.max_gram
    }

    pub closed spec fn spec_config(&self) -> TokenizerConfig {
        self.config
    }

    /// The configuration.
    pub fn config(&self) -> (r: &TokenizerConfig)
        ensures
            *r == self.spec_config(),
    {
        &self.config
    }

    pub closed spec fn spec_min(&self) -> usize {
        self.min_gram
    }

    pub closed spec fn spec_max(&self) -> usize {
        self.max_gram
    }

    /// Holds the configuration and the bounds, clamped so that `1 <= min <= max`.
    pub fn new(config: TokenizerConfig, min_gram: usize, max_gram: usize) -> (r: NgramTokenizer)
        ensures
            r.spec_config() == config,
            r.spec_min() == clamp_min(min_gram),
            r.spec_max() == clamp_max(max_gram, clamp_min(min_gram)),
    {
        let min_gram = if min_gram < 1 {
            1
        } else {
            min_gram
        };
        let max_gram = if max_gram < min_gram {
            min_gram
        } else {
            max_gram
        };
        NgramTokenizer { config, min_gram, max_gram }
    }

    /// The n-grams of one word.
    pub fn generate_ngrams(&self, text: &str) -> (r: Vec<String>)
        ensures
            views(r@) == ngrams(text@, self.spec_min() as int, self.spec_max() as int),
    {
        let mut out: Vec<String> = Vec::new();
        proof {
            use_type_invariant(self);
        }
        push_grams(&mut out, text, false, self.min_gram, self.max_gram);
        assert(views(out@) =~= ngrams(text@, self.spec_min() as int, self.spec_max() as int));
        out
    }
}

impl Tokenizer for NgramTokenizer {
    open spec fn tokens_spec(&self, text: Seq<char>) -> Seq<Seq<char>> {
        gram_tokens(self.spec_config(), false, self.spec_min() as int, self.spec_max() as int, text)
    }

    fn tokenize(&self, text: &str) -> (r: Vec<String>) {
        proof {
            use_type_invariant(self);
        }
        gram_tokenize(&self.config, text, false, self.min_gram, self.max_gram)
    }
}

} // verus!
