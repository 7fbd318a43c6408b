use vstd::prelude::*;

use crate::chars::{chars_of, lower_of, string_of, views};
use crate::config::TokenizerConfig;
use crate::overlay::{lemma_protected_ordered, protected, protected_spans};
use crate::post::{post, post_process, strip_all, strip_tokens};
use crate::segment::{sentences_of, unicode_sentences};
use crate::spans::spans_within;
use crate::tokenizer::{compiled_sources, BaseTokenizerFields, Tokenizer};

verus! {

/// A sentence from span `k` on, the previous span having ended at `pos`: text
/// between spans lowercased, spans verbatim.
pub open spec fn fold_outside_from(s: Seq<char>, spans: Seq<(usize, usize)>, k: int, pos: int) -> Seq<char>
    decreases spans.len() - k,
{
    if k < 0 || k >= spans.len() {
        if pos < s.len() {
            lower_of(s.subrange(pos, s.len() as int))
        } else {
            seq![]
        }
    } else {
        let (a, b) = spans[k];
        let gap = if a > pos {
            lower_of(s.subrange(pos, a as int))
        } else {
            seq![]
        };
        gap + s.subrange(a as int, b as int) + fold_outside_from(s, spans, k + 1, b as int)
    }
}

/// A sentence lowercased outside its protected spans.
pub open spec fn protect_sentence(s: Seq<char>, ps: Seq<Seq<char>>) -> Seq<char> {
    fold_outside_from(s, protected(ps, s), 0, 0)
}

/// Tokens of the sentence tokenizer. With preserve patterns and lowercasing, each
/// sentence is lowercased outside its protected spans, then punctuation is removed
/// if configured; otherwise the sentences go through post-processing.
pub open spec fn sentence_tokens(c: TokenizerConfig, ps: Seq<Seq<char>>, t: Seq<char>) -> Seq<Seq<char>> {
    if ps.len() > 0 && c.lowercase {
        let ss = sentences_of(t).map_values(|s: Seq<char>| protect_sentence(s, ps));
        if c.remove_punctuation {
            strip_all(ss, Seq::<char>::empty())
        } else {
            ss
        }
    } else {
        post(sentences_of(t), c.lowercase, c.remove_punctuation, Seq::<char>::empty())
    }
}

/// Splits at Unicode sentence boundaries.
pub struct SentenceTokenizer {
    pub base: BaseTokenizerFields,
}

impl SentenceTokenizer {
    pub fn new(config: TokenizerConfig) -> (r: SentenceTokenizer)
        ensures
            r.base.config == config,
            r.base.pattern_sources() == compiled_sources(config.preserve_patterns@),
    {
        SentenceTokenizer { base: BaseTokenizerFields::new(config) }
    }

    /// A sentence lowercased outside its protected spans; unchanged when there is no
    /// preserve pattern or no lowercasing.
    pub fn apply_patterns_to_sentence(&self, sentence: &str) -> (r: String)
        ensures
            r@ == (if self.base.pattern_sources().len() > 0 && self.base.config.lowercase {
                protect_sentence(sentence@, self.base.pattern_sources())
            } else {
                sentence@
            }),
    {
        if self.base.preserve_patterns.len() == 0 || !self.base.config.lowercase {
            return sentence.to_owned();
        }
        let cs = chars_of(sentence);
        let spans = protected_spans(&self.base.preserve_patterns, sentence, &cs);
        assert(cs@.len() == cs.len());
        proof {
            lemma_protected_ordered(self.base.pattern_sources(), sentence@);
        }
        let mut result = String::new();
        let mut pos: usize = 0;
        let mut k: usize = 0;
        while k < spans.len()
            invariant
                k <= spans@.len(),
                pos <= cs@.len(),
                cs@ == sentence@,
                spans_within(spans@, cs@.len() as int),
                result@ + fold_outside_from(cs@, spans@, k as int, pos as int) == fold_outside_from(
                    cs@,
                    spans@,
                    0,
                    0,
                ),
            decreases spans.len() - k,
        {
            let (s, e) = spans[k];
            assert(spans@[k as int].0 <= spans@[k as int].1 && spans@[k as int].1 <= cs@.len());
            let ghost before = result@;
            if s > pos {
                let gap = string_of(&cs, pos, s);
                let low = gap.as_str().to_lowercase();
                result.push_str(low.as_str());
            }
            let kept = string_of(&cs, s, e);
            result.push_str(kept.as_str());
            assert(before + fold_outside_from(cs@, spans@, k as int, pos as int) =~= result@
                + fold_outside_from(cs@, spans@, k + 1, e as int));
            pos = e;
            k += 1;
        }
        if pos < cs.len() {
            let rest = string_of(&cs, pos, cs.len());
            let low = rest.as_str().to_lowercase();
            result.push_str(low.as_str());
        }
        assert(result@ =~= fold_outside_from(cs@, spans@, 0, 0));
        result
    }
}

impl Tokenizer for SentenceTokenizer {
    open spec fn tokens_spec(&self, text: Seq<char>) -> Seq<Seq<char>> {
        sentence_tokens(self.base.config, self.base.pattern_sources(), text)
    }

    fn tokenize(&self, text: &str) -> (r: Vec<String>) {
        let sentences = unicode_sentences(text);
        if self.base.preserve_patterns.len() > 0 && self.base.config.lowercase {
            let ghost ps = self.base.pattern_sources();
            let ghost f = |s: Seq<char>| protect_sentence(s, ps);
            let mut folded: Vec<String> = Vec::new();
            let mut i: usize = 0;
            while i < sentences.len()
                invariant
                    i <= sentences@.len(),
                    ps == self.base.pattern_sources(),
                    ps.len() > 0,
                    self.base.config.lowercase,
                    f == (|s: Seq<char>| protect_sentence(s, ps)),
                    views(folded@) == views(sentences@).subrange(0, i as int).map_values(f),
                decreases sentences.len() - i,
            {
                let out = self.apply_patterns_to_sentence(sentences[i].as_str());
                let ghost before = views(folded@);
                folded.push(out);
                assert(views(folded@) =~= before.push(out@));
                assert(views(sentences@).subrange(0, i + 1).map_values(f) =~= views(sentences@).subrange(
                    0,
                    i as int,
                ).map_values(f).push(f(sentences@[i as int]@)));
                i += 1;
            }
            assert(views(sentences@).subrange(0, sentences@.len() as int) =~= views(sentences@));
            if self.base.config.remove_punctuation {
                let no_keep: Vec<char> = Vec::new();
                strip_tokens(&folded, &no_keep)
            } else {
                folded
            }
        } else {
            post_process(sentences, &self.base.config)
        }
    }
}

} // verus!
