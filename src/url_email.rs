use vstd::prelude::*;

use crate::chars::{chars_of, lower_of, string_of, views};
use crate::offsets::{byte_offsets, char_spans, to_char_spans};
use crate::overlay::{all_matches, collect_matches, lemma_char_spans_within};
use crate::path_hierarchy::any_match;
use crate::post::{post, post_process};
use crate::segment::{find_links, link_spans_of, unicode_words, unicode_words_of};
use crate::spans::{lemma_merged_spans_ordered, merge_overlapping_spans, merged_spans, spans_within};
use crate::tokenizer::{compiled_sources, BaseTokenizerFields, Tokenizer};
use crate::config::TokenizerConfig;

verus! {

/// Character spans of the links and of the preserve-pattern matches of `t`, merged.
pub open spec fn url_spans(ps: Seq<Seq<char>>, t: Seq<char>) -> Seq<(usize, usize)> {
    merged_spans(char_spans(t, link_spans_of(t) + all_matches(ps, t)))
}

/// A kept span: lowercased when configured, unless a preserve pattern matches it.
pub open spec fn url_piece(x: Seq<char>, ps: Seq<Seq<char>>, lower: bool) -> Seq<char> {
    if lower && !any_match(ps, x) {
        lower_of(x)
    } else {
        x
    }
}

/// Unicode words of a stretch between spans, post-processed.
pub open spec fn word_gap(t: Seq<char>, lower: bool, strip: bool) -> Seq<Seq<char>> {
    post(unicode_words_of(t), lower, strip, Seq::<char>::empty())
}

/// Tokens of `t` from span `k` on, the previous span having ended at `pos`.
pub open spec fn url_from(
    t: Seq<char>,
    spans: Seq<(usize, usize)>,
    k: int,
    pos: int,
    ps: Seq<Seq<char>>,
    lower: bool,
    strip: bool,
) -> Seq<Seq<char>>
    decreases spans.len() - k,
{
    if k < 0 || k >= spans.len() {
        if pos < t.len() {
            word_gap(t.subrange(pos, t.len() as int), lower, strip)
        } else {
            seq![]
        }
    } else {
        let (s, e) = spans[k];
        let gap = if s > pos {
            word_gap(t.subrange(pos, s as int), lower, strip)
        } else {
            seq![]
        };
        gap + seq![url_piece(t.subrange(s as int, e as int), ps, lower)] + url_from(
            t,
            spans,
            k + 1,
            e as int,
            ps,
            lower,
            strip,
        )
    }
}

/// Tokens of the URL/e-mail tokenizer: links and protected matches as single tokens,
/// the rest as Unicode words.
pub open spec fn url_tokens(c: TokenizerConfig, ps: Seq<Seq<char>>, t: Seq<char>) -> Seq<Seq<char>> {
    let sp = url_spans(ps, t);
    if sp.len() == 0 {
        word_gap(t, c.lowercase, c.remove_punctuation)
    } else {
        url_from(t, sp, 0, 0, ps, c.lowercase, c.remove_punctuation)
    }
}

/// Keeps URLs and e-mail addresses whole and splits the rest into Unicode words.
pub struct UrlEmailTokenizer {
    pub base: BaseTokenizerFields,
}

impl UrlEmailTokenizer {
    pub fn new(config: TokenizerConfig) -> (r: UrlEmailTokenizer)
        ensures
            r.base.config == config,
            r.base.pattern_sources() == compiled_sources(config.preserve_patterns@),
    {
        UrlEmailTokenizer { base: BaseTokenizerFields::new(config) }
    }

    /// The merged character spans of links and preserve-pattern matches.
    fn extract_url_email_spans(&self, text: &str, cs: &Vec<char>) -> (r: Vec<(usize, usize)>)
        requires
            cs@ == text@,
        ensures
            r@ == url_spans(self.base.pattern_sources(), text@),
            spans_within(r@, text@.len() as int),
    {
        let mut bs = find_links(text);
        let mut found = collect_matches(&self.base.preserve_patterns, text);
        bs.append(&mut found);
        let offs = byte_offsets(cs, text.as_bytes().len());
        let chs = to_char_spans(cs, &offs, &bs);
        assert(cs@.len() == cs.len());
        proof {
            lemma_char_spans_within(cs@, bs@);
            lemma_merged_spans_ordered(chs@, cs@.len() as int);
        }
        merge_overlapping_spans(chs)
    }

    /// A kept span's token.
    fn span_token(&self, piece: String) -> (r: String)
        ensures
            r@ == url_piece(piece@, self.base.pattern_sources(), self.base.config.lowercase),
    {
        if self.base.config.lowercase && !crate::path_hierarchy::any_match_exec(
            &self.base.preserve_patterns,
            piece.as_str(),
        ) {
            piece.as_str().to_lowercase()
        } else {
            piece
        }
    }

    /// Unicode words of a gap, post-processed.
    fn gap_tokens(&self, piece: &str) -> (r: Vec<String>)
        ensures
            views(r@) == word_gap(piece@, self.base.config.lowercase, self.base.config.remove_punctuation),
    {
        post_process(unicode_words(piece), &self.base.config)
    }
}

impl Tokenizer for UrlEmailTokenizer {
    open spec fn tokens_spec(&self, text: Seq<char>) -> Seq<Seq<char>> {
        url_tokens(self.base.config, self.base.pattern_sources(), text)
    }

    fn tokenize(&self, text: &str) -> (r: Vec<String>) {
        let cs = chars_of(text);
        let spans = self.extract_url_email_spans(text, &cs);
        if spans.len() == 0 {
            return self.gap_tokens(text);
        }
        let ghost ps = self.base.pattern_sources();
        let ghost lower = self.base.config.lowercase;
        let ghost strip = self.base.config.remove_punctuation;
        let mut result: Vec<String> = Vec::new();
        let mut pos: usize = 0;
        let mut k: usize = 0;
        while k < spans.len()
            invariant
                k <= spans@.len(),
                pos <= cs@.len(),
                cs@ == text@,
                ps == self.base.pattern_sources(),
                lower == self.base.config.lowercase,
                strip == self.base.config.remove_punctuation,
                spans_within(spans@, cs@.len() as int),
                views(result@) + url_from(cs@, spans@, k as int, pos as int, ps, lower, strip) == url_from(
                    cs@,
                    spans@,
                    0,
                    0,
                    ps,
                    lower,
                    strip,
                ),
            decreases spans.len() - k,
        {
            let (s, e) = spans[k];
            assert(spans@[k as int].0 <= spans@[k as int].1 && spans@[k as int].1 <= cs@.len());
            let ghost before = views(result@);
            let ghost gap = if s > pos {
                word_gap(cs@.subrange(pos as int, s as int), lower, strip)
            } else {
                seq![]
            };
            if s > pos {
                let piece = string_of(&cs, pos, s);
                let mut toks = self.gap_tokens(piece.as_str());
                let ghost t = toks@;
                result.append(&mut toks);
                assert(views(result@) =~= before + views(t));
            }
            assert(views(result@) =~= before + gap);
            let kept = self.span_token(string_of(&cs, s, e));
            let ghost mid = views(result@);
            result.push(kept);
            assert(views(result@) =~= mid.push(kept@));
            pos = e;
            k += 1;
        }
        if pos < cs.len() {
            let piece = string_of(&cs, pos, cs.len());
            let mut toks = self.gap_tokens(piece.as_str());
            let ghost before = views(result@);
            let ghost t = toks@;
            result.append(&mut toks);
            assert(views(result@) =~= before + views(t));
        }
        result
    }
}

} // verus!
