use vstd::prelude::*;

use crate::chars::{chars_of, string_of, views};
use crate::config::TokenizerConfig;
use crate::offsets::{byte_offsets, char_spans, lemma_char_pos_bound, to_char_spans};
use crate::pattern::{regex_find, CompiledPattern};
use crate::post::{post, post_process};
use crate::spans::{lemma_merged_spans_ordered, merge_overlapping_spans, merged_spans, ordered_disjoint, spans_within};
use crate::split::{as_is, not_space, runs, split_runs, RunRule};

verus! {

/// The sources of a list of compiled patterns.
pub open spec fn sources(ps: Seq<CompiledPattern>) -> Seq<Seq<char>> {
    ps.map_values(|p: CompiledPattern| p.source_view())
}

/// The byte spans of every pattern's matches in `t`: the first pattern's matches,
/// then the second's, and so on.
pub open spec fn all_matches(ps: Seq<Seq<char>>, t: Seq<char>) -> Seq<(usize, usize)>
    decreases ps.len(),
{
    if ps.len() == 0 {
        seq![]
    } else {
        all_matches(ps.drop_last(), t) + regex_find(ps.last(), t)
    }
}

/// The protected character spans of `t`: all matches, merged.
pub open spec fn protected(ps: Seq<Seq<char>>, t: Seq<char>) -> Seq<(usize, usize)> {
    merged_spans(char_spans(t, all_matches(ps, t)))
}

/// Tokens of an unprotected stretch of text: split at whitespace, then post-processed.
pub open spec fn fallback(t: Seq<char>, lower: bool, strip: bool) -> Seq<Seq<char>> {
    post(runs(not_space(), as_is(), t), lower, strip, Seq::<char>::empty())
}

/// Tokens of `text` from span `k` on, where the previous span ended at `pos`: each
/// gap goes through `fallback`, each span is one verbatim token.
pub open spec fn overlay_from(
    text: Seq<char>,
    spans: Seq<(usize, usize)>,
    k: int,
    pos: int,
    lower: bool,
    strip: bool,
) -> Seq<Seq<char>>
    decreases spans.len() - k,
{
    if k < 0 || k >= spans.len() {
        if pos < text.len() {
            fallback(text.subrange(pos, text.len() as int), lower, strip)
        } else {
            seq![]
        }
    } else {
        let (s, e) = spans[k];
        let gap = if s > pos {
            fallback(text.subrange(pos, s as int), lower, strip)
        } else {
            seq![]
        };
        gap + seq![text.subrange(s as int, e as int)] + overlay_from(text, spans, k + 1, e as int, lower, strip)
    }
}

/// The overlay: with no preserve pattern, the raw tokens post-processed; otherwise
/// the protected spans verbatim and the rest re-tokenized, in text order.
pub open spec fn preserve_overlay(
    raw: Seq<Seq<char>>,
    ps: Seq<Seq<char>>,
    text: Seq<char>,
    lower: bool,
    strip: bool,
) -> Seq<Seq<char>> {
    if ps.len() == 0 {
        post(raw, lower, strip, Seq::<char>::empty())
    } else {
        overlay_from(text, protected(ps, text), 0, 0, lower, strip)
    }
}

/// With no preserve pattern the overlay is the identity: the raw tokens only go
/// through post-processing.
pub proof fn lemma_overlay_identity(raw: Seq<Seq<char>>, text: Seq<char>, lower: bool, strip: bool)
    ensures
        preserve_overlay(raw, Seq::<Seq<char>>::empty(), text, lower, strip) == post(
            raw,
            lower,
            strip,
            Seq::<char>::empty(),
        ),
{
}

/// The protected spans of a text come in strictly left-to-right order, within the
/// text, so the overlay emits its pieces in text order.
pub proof fn lemma_protected_ordered(ps: Seq<Seq<char>>, text: Seq<char>)
    requires
        text.len() <= usize::MAX,
    ensures
        spans_within(protected(ps, text), text.len() as int),
        ordered_disjoint(protected(ps, text)),
{
    let cs = char_spans(text, all_matches(ps, text));
    lemma_char_spans_within(text, all_matches(ps, text));
    lemma_merged_spans_ordered(cs, text.len() as int);
}

/// Where each token of `overlay_from` comes from: the stretch `(start, end)` of the
/// text, and whether the token is that stretch kept verbatim (a protected span).
pub open spec fn overlay_origins(
    text: Seq<char>,
    spans: Seq<(usize, usize)>,
    k: int,
    pos: int,
    lower: bool,
    strip: bool,
) -> Seq<(int, int, bool)>
    decreases spans.len() - k,
{
    if k < 0 || k >= spans.len() {
        if pos < text.len() {
            Seq::new(
                fallback(text.subrange(pos, text.len() as int), lower, strip).len(),
                |i: int| (pos, text.len() as int, false),
            )
        } else {
            seq![]
        }
    } else {
        let (s, e) = spans[k];
        let gap = if s > pos {
            Seq::new(fallback(text.subrange(pos, s as int), lower, strip).len(), |i: int| (pos, s as int, false))
        } else {
            seq![]
        };
        gap + seq![(s as int, e as int, true)] + overlay_origins(text, spans, k + 1, e as int, lower, strip)
    }
}

/// Origins `o` of tokens `t`: stretches of the text from `pos` on, verbatim where
/// marked, and in text order.
pub open spec fn origins_in_order(o: Seq<(int, int, bool)>, t: Seq<Seq<char>>, text: Seq<char>, pos: int) -> bool {
    &&& o.len() == t.len()
    &&& forall|i: int| 0 <= i < o.len() ==> pos <= (#[trigger] o[i]).0 <= o[i].1 <= text.len()
    &&& forall|i: int| 0 <= i < o.len() && (#[trigger] o[i]).2 ==> t[i] == text.subrange(o[i].0, o[i].1)
    &&& forall|i: int, j: int| 0 <= i < j < o.len() ==> #[trigger] o[i] == #[trigger] o[j] || o[i].1 <= o[j].0
}

proof fn lemma_overlay_origins(
    text: Seq<char>,
    spans: Seq<(usize, usize)>,
    k: int,
    pos: int,
    lower: bool,
    strip: bool,
)
    requires
        spans_within(spans, text.len() as int),
        ordered_disjoint(spans),
        0 <= pos <= text.len(),
        0 <= k <= spans.len(),
        k < spans.len() ==> pos <= spans[k].0,
    ensures
        origins_in_order(
            overlay_origins(text, spans, k, pos, lower, strip),
            overlay_from(text, spans, k, pos, lower, strip),
            text,
            pos,
        ),
    decreases spans.len() - k,
{
    if k < spans.len() {
        let (s, e) = spans[k];
        assert(spans[k].0 <= spans[k].1 && spans[k].1 <= text.len());
        if k + 1 < spans.len() {
            assert(spans[k].1 <= spans[k + 1].0);
        }
        lemma_overlay_origins(text, spans, k + 1, e as int, lower, strip);
        let ro = overlay_origins(text, spans, k + 1, e as int, lower, strip);
        let rt = overlay_from(text, spans, k + 1, e as int, lower, strip);
        let go = if s > pos {
            Seq::new(fallback(text.subrange(pos, s as int), lower, strip).len(), |i: int| (pos, s as int, false))
        } else {
            seq![]
        };
        let gt = if s > pos {
            fallback(text.subrange(pos, s as int), lower, strip)
        } else {
            seq![]
        };
        let x = (s as int, e as int, true);
        let o = go + seq![x] + ro;
        let t = gt + seq![text.subrange(s as int, e as int)] + rt;
        assert(o == overlay_origins(text, spans, k, pos, lower, strip));
        assert(t == overlay_from(text, spans, k, pos, lower, strip));
        let g = go.len() as int;
        assert forall|i: int| 0 <= i < o.len() implies (i < g ==> o[i] == (pos, s as int, false)) && (i == g
            ==> o[i] == x) && (i > g ==> o[i] == ro[i - g - 1]) by {}
        assert forall|i: int| 0 <= i < o.len() && (#[trigger] o[i]).2 implies t[i] == text.subrange(o[i].0, o[i].1) by {
            if i > g {
                assert(t[i] == rt[i - g - 1]);
            } else {
                assert(t[i] == text.subrange(s as int, e as int));
            }
        }
        assert forall|i: int, j: int| 0 <= i < j < o.len() implies #[trigger] o[i] == #[trigger] o[j] || o[i].1
            <= o[j].0 by {
            if j > g && i > g {
                assert(o[i] == ro[i - g - 1] && o[j] == ro[j - g - 1]);
            } else if j > g {
                assert(o[j] == ro[j - g - 1]);
            }
        }
    } else if pos < text.len() {
        let o = overlay_origins(text, spans, k, pos, lower, strip);
        assert forall|i: int, j: int| 0 <= i < j < o.len() implies #[trigger] o[i] == #[trigger] o[j] || o[i].1
            <= o[j].0 by {}
    }
}

/// Overlay tokens come in text order: every token comes from a stretch of the text,
/// the token of a protected span is that span verbatim, and no token comes from a
/// stretch that lies before the stretch of an earlier token.
pub proof fn lemma_overlay_in_text_order(
    raw: Seq<Seq<char>>,
    ps: Seq<Seq<char>>,
    text: Seq<char>,
    lower: bool,
    strip: bool,
)
    requires
        ps.len() > 0,
        text.len() <= usize::MAX,
    ensures
        origins_in_order(
            overlay_origins(text, protected(ps, text), 0, 0, lower, strip),
            preserve_overlay(raw, ps, text, lower, strip),
            text,
            0,
        ),
{
    lemma_protected_ordered(ps, text);
    let sp = protected(ps, text);
    if sp.len() > 0 {
        assert(sp[0].0 >= 0);
    }
    lemma_overlay_origins(text, sp, 0, 0, lower, strip);
}

/// Character spans made from byte spans are well formed and lie within the text.
pub proof fn lemma_char_spans_within(s: Seq<char>, bs: Seq<(usize, usize)>)
    requires
        s.len() <= usize::MAX,
    ensures
        spans_within(char_spans(s, bs), s.len() as int),
    decreases bs.len(),
{
    if bs.len() > 0 {
        lemma_char_spans_within(s, bs.drop_last());
        let (b0, b1) = bs.last();
        lemma_char_pos_bound(s, b0 as int, 0);
        lemma_char_pos_bound(s, b1 as int, 0);
        assert(bs.last() == (b0, b1));
        let prev = char_spans(s, bs.drop_last());
        assert forall|k: int| 0 <= k < char_spans(s, bs).len() implies (#[trigger] char_spans(s, bs)[k]).0
            <= char_spans(s, bs)[k].1 && char_spans(s, bs)[k].1 <= s.len() by {
            if k < prev.len() {
                assert(char_spans(s, bs)[k] == prev[k]);
            }
        }
    }
}

/// Splits `text` at whitespace, dropping the whitespace.
pub fn tokenize_simple(text: &str) -> (r: Vec<String>)
    ensures
        views(r@) == runs(not_space(), as_is(), text@),
{
    split_runs(text, &RunRule::NonSpace)
}

/// Tokens of an unprotected stretch of text.
fn fallback_tokens(text: &str, config: &TokenizerConfig) -> (r: Vec<String>)
    ensures
        views(r@) == fallback(text@, config.lowercase, config.remove_punctuation),
{
    post_process(tokenize_simple(text), config)
}

/// Byte spans of every pattern's matches in `text`, pattern by pattern.
pub fn collect_matches(patterns: &Vec<CompiledPattern>, text: &str) -> (r: Vec<(usize, usize)>)
    ensures
        r@ == all_matches(sources(patterns@), text@),
{
    let mut r: Vec<(usize, usize)> = Vec::new();
    let mut i: usize = 0;
    while i < patterns.len()
        invariant
            i <= patterns@.len(),
            r@ == all_matches(sources(patterns@.subrange(0, i as int)), text@),
        decreases patterns.len() - i,
    {
        let mut found = patterns[i].find_spans(text);
        assert(sources(patterns@.subrange(0, i + 1)).drop_last() =~= sources(patterns@.subrange(0, i as int)));
        assert(sources(patterns@.subrange(0, i + 1)).last() == patterns@[i as int].source_view());
        r.append(&mut found);
        i += 1;
    }
    assert(patterns@.subrange(0, patterns@.len() as int) =~= patterns@);
    r
}

/// The protected character spans of `text`, whose characters are `cs`.
pub fn protected_spans(patterns: &Vec<CompiledPattern>, text: &str, cs: &Vec<char>) -> (r: Vec<(usize, usize)>)
    requires
        cs@ == text@,
    ensures
        r@ == protected(sources(patterns@), text@),
{
    let bs = collect_matches(patterns, text);
    let total = text.as_bytes().len();
    let offs = byte_offsets(cs, total);
    let chs = to_char_spans(cs, &offs, &bs);
    merge_overlapping_spans(chs)
}

/// Walks the protected spans left to right: gaps are re-tokenized, spans kept whole.
pub fn overlay_tokens(cs: &Vec<char>, spans: &Vec<(usize, usize)>, config: &TokenizerConfig) -> (r: Vec<String>)
    requires
        spans_within(spans@, cs@.len() as int),
    ensures
        views(r@) == overlay_from(cs@, spans@, 0, 0, config.lowercase, config.remove_punctuation),
{
    let mut result: Vec<String> = Vec::new();
    let mut pos: usize = 0;
    let mut k: usize = 0;
    while k < spans.len()
        invariant
            k <= spans@.len(),
            pos <= cs@.len(),
            spans_within(spans@, cs@.len() as int),
            views(result@) + overlay_from(cs@, spans@, k as int, pos as int, config.lowercase, config.remove_punctuation)
                == overlay_from(cs@, spans@, 0, 0, config.lowercase, config.remove_punctuation),
        decreases spans.len() - k,
    {
        let (s, e) = spans[k];
        assert(spans@[k as int].0 <= spans@[k as int].1 && spans@[k as int].1 <= cs@.len());
        let ghost before = views(result@);
        let ghost gap = if s > pos {
            fallback(cs@.subrange(pos as int, s as int), config.lowercase, config.remove_punctuation)
        } else {
            seq![]
        };
        if s > pos {
            let piece = string_of(cs, pos, s);
            let mut toks = fallback_tokens(piece.as_str(), config);
            let ghost t = toks@;
            result.append(&mut toks);
            assert(views(result@) =~= before + views(t));
            assert(views(result@) =~= before + gap);
        } else {
            assert(views(result@) =~= before + gap);
        }
        let kept = string_of(cs, s, e);
        let ghost mid = views(result@);
        result.push(kept);
        assert(views(result@) =~= mid.push(kept@));
        pos = e;
        k += 1;
        assert(views(result@) =~= before + gap + seq![cs@.subrange(s as int, e as int)]);
    }
    if pos < cs.len() {
        let piece = string_of(cs, pos, cs.len());
        let mut toks = fallback_tokens(piece.as_str(), config);
        let ghost before = views(result@);
        let ghost t = toks@;
        result.append(&mut toks);
        assert(views(result@) =~= before + views(t));
    }
    result
}

/// The overlay of preserve patterns over `tokens`, the raw tokens of `original_text`.
pub fn apply_preserve_patterns(
    tokens: Vec<String>,
    preserve_patterns: &Vec<CompiledPattern>,
    original_text: &str,
    config: &TokenizerConfig,
) -> (r: Vec<String>)
    ensures
        views(r@) == preserve_overlay(
            views(tokens@),
            sources(preserve_patterns@),
            original_text@,
            config.lowercase,
            config.remove_punctuation,
        ),
{
    if preserve_patterns.len() == 0 {
        return post_process(tokens, config);
    }
    let cs = chars_of(original_text);
    let spans = protected_spans(preserve_patterns, original_text, &cs);
    assert(cs@.len() == cs.len());
    proof {
        lemma_protected_ordered(sources(preserve_patterns@), original_text@);
    }
    overlay_tokens(&cs, &spans, config)
}

} // verus!
