use vstd::prelude::*;

use crate::chars::{chars_of, contains_char, copy_strings, is_punct, lower_of, views};
use crate::config::TokenizerConfig;

verus! {

/// `t` without its ASCII punctuation, except characters listed in `keep`.
pub open spec fn strip_punct(t: Seq<char>, keep: Seq<char>) -> Seq<char>
    decreases t.len(),
{
    if t.len() == 0 {
        seq![]
    } else {
        let p = strip_punct(t.drop_last(), keep);
        let c = t.last();
        if !is_punct(c) || keep.contains(c) {
            p.push(c)
        } else {
            p
        }
    }
}

/// Each token in lowercase.
pub open spec fn lower_all(ts: Seq<Seq<char>>) -> Seq<Seq<char>> {
    ts.map_values(|t: Seq<char>| lower_of(t))
}

/// Each token stripped of punctuation; tokens left empty are dropped.
pub open spec fn strip_all(ts: Seq<Seq<char>>, keep: Seq<char>) -> Seq<Seq<char>>
    decreases ts.len(),
{
    if ts.len() == 0 {
        seq![]
    } else {
        let p = strip_all(ts.drop_last(), keep);
        let s = strip_punct(ts.last(), keep);
        if s.len() > 0 {
            p.push(s)
        } else {
            p
        }
    }
}

/// The post-processing pipeline: lowercase first (if asked), then punctuation
/// removal (if asked), which never leaves an empty token.
pub open spec fn post(ts: Seq<Seq<char>>, lower: bool, strip: bool, keep: Seq<char>) -> Seq<Seq<char>> {
    let l = if lower {
        lower_all(ts)
    } else {
        ts
    };
    if strip {
        strip_all(l, keep)
    } else {
        l
    }
}

/// Post-processing under a configuration's two flags.
pub open spec fn post_cfg(ts: Seq<Seq<char>>, c: TokenizerConfig, keep: Seq<char>) -> Seq<Seq<char>> {
    post(ts, c.lowercase, c.remove_punctuation, keep)
}

/// Removes the ASCII punctuation of `t`, keeping the characters of `keep`.
pub fn strip_punctuation(t: &str, keep: &Vec<char>) -> (r: String)
    ensures
        r@ == strip_punct(t@, keep@),
{
    let cs = chars_of(t);
    let mut r = String::new();
    let mut i: usize = 0;
    while i < cs.len()
        invariant
            i <= cs@.len(),
            cs@ == t@,
            r@ == strip_punct(cs@.subrange(0, i as int), keep@),
        decreases cs.len() - i,
    {
        let c = cs[i];
        assert(cs@.subrange(0, i + 1).drop_last() =~= cs@.subrange(0, i as int));
        if !c.is_ascii_punctuation() || contains_char(keep, c) {
            r.push(c);
        }
        i += 1;
    }
    assert(cs@.subrange(0, cs@.len() as int) =~= cs@);
    r
}

/// Lowercases every token.
pub fn lowercase_tokens(tokens: &Vec<String>) -> (r: Vec<String>)
    ensures
        views(r@) == lower_all(views(tokens@)),
{
    let mut r: Vec<String> = Vec::new();
    let mut i: usize = 0;
    while i < tokens.len()
        invariant
            i <= tokens@.len(),
            views(r@) == lower_all(views(tokens@.subrange(0, i as int))),
        decreases tokens.len() - i,
    {
        let low = tokens[i].as_str().to_lowercase();
        let ghost before = views(r@);
        r.push(low);
        assert(views(r@) =~= before.push(low@));
        assert(views(tokens@.subrange(0, i + 1)) =~= views(tokens@.subrange(0, i as int)).push(tokens@[i as int]@));
        assert(lower_all(views(tokens@.subrange(0, i + 1))) =~= lower_all(views(tokens@.subrange(0, i as int))).push(lower_of(tokens@[i as int]@)));
        i += 1;
    }
    assert(tokens@.subrange(0, tokens@.len() as int) =~= tokens@);
    r
}

/// Strips punctuation from every token and drops the tokens left empty.
pub fn strip_tokens(tokens: &Vec<String>, keep: &Vec<char>) -> (r: Vec<String>)
    ensures
        views(r@) == strip_all(views(tokens@), keep@),
{
    let mut r: Vec<String> = Vec::new();
    let mut i: usize = 0;
    while i < tokens.len()
        invariant
            i <= tokens@.len(),
            views(r@) == strip_all(views(tokens@.subrange(0, i as int)), keep@),
        decreases tokens.len() - i,
    {
        let s = strip_punctuation(tokens[i].as_str(), keep);
        assert(views(tokens@.subrange(0, i + 1)).drop_last() =~= views(tokens@.subrange(0, i as int)));
        assert(views(tokens@.subrange(0, i + 1)).last() == tokens@[i as int]@);
        if !s.as_str().is_empty() {
            let ghost before = views(r@);
            r.push(s);
            assert(views(r@) =~= before.push(s@));
        }
        i += 1;
    }
    assert(tokens@.subrange(0, tokens@.len() as int) =~= tokens@);
    r
}

/// Applies the configured normalizations to `tokens`; the characters of
/// `preserve_chars` never count as punctuation.
pub fn post_process_with_preserved(
    tokens: Vec<String>,
    config: &TokenizerConfig,
    preserve_chars: Option<&str>,
) -> (r: Vec<String>)
    ensures
        views(r@) == post_cfg(
            views(tokens@),
            *config,
            match preserve_chars {
                Some(p) => p@,
                None => Seq::<char>::empty(),
            },
        ),
{
    let keep: Vec<char> = match preserve_chars {
        Some(p) => chars_of(p),
        None => Vec::new(),
    };
    let lowered = if config.lowercase {
        lowercase_tokens(&tokens)
    } else {
        tokens
    };
    if config.remove_punctuation {
        strip_tokens(&lowered, &keep)
    } else {
        lowered
    }
}

/// Applies the configured normalizations to `tokens`.
pub fn post_process(tokens: Vec<String>, config: &TokenizerConfig) -> (r: Vec<String>)
    ensures
        views(r@) == post_cfg(views(tokens@), *config, Seq::<char>::empty()),
{
    post_process_with_preserved(tokens, config, None)
}

/// Applies the configured normalizations to `tokens` in place.
pub fn post_process_in_place(tokens: &mut Vec<String>, config: &TokenizerConfig)
    ensures
        views(final(tokens)@) == post_cfg(views(old(tokens)@), *config, Seq::<char>::empty()),
{
    let taken = copy_strings(tokens);
    *tokens = post_process(taken, config);
}

} // verus!
