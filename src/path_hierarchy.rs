use vstd::prelude::*;

use crate::chars::{byte_len, chars_of, lower_of, occurs_at_exec, starts_with, trim_ws, views};
use crate::config::TokenizerConfig;
use crate::overlay::sources;
use crate::pattern::{regex_find, CompiledPattern};
use crate::post::{post, post_process_with_preserved, strip_punct, strip_punctuation};
use crate::split::{split_on, split_on_exec};
use crate::tokenizer::{compiled_sources, BaseTokenizerFields, Tokenizer};

verus! {

/// Whether the first match of `p` in `t` is all of `t`.
pub open spec fn full_match(p: Seq<char>, t: Seq<char>) -> bool {
    regex_find(p, t).len() > 0 && regex_find(p, t)[0] == (0usize, byte_len(t) as usize)
}

/// Whether some pattern's first match in `t` is all of `t`.
pub open spec fn any_full_match(ps: Seq<Seq<char>>, t: Seq<char>) -> bool
    decreases ps.len(),
{
    ps.len() > 0 && (any_full_match(ps.drop_last(), t) || full_match(ps.last(), t))
}

/// Whether some pattern matches somewhere in `t`.
pub open spec fn any_match(ps: Seq<Seq<char>>, t: Seq<char>) -> bool
    decreases ps.len(),
{
    ps.len() > 0 && (any_match(ps.drop_last(), t) || regex_find(ps.last(), t).len() > 0)
}

/// Whether `s` ends with `d`.
pub open spec fn ends_with(s: Seq<char>, d: Seq<char>) -> bool {
    d.len() <= s.len() && s.subrange(s.len() - d.len(), s.len() as int) == d
}

/// Left-to-right scan over path parts: the prefixes emitted so far and the current one.
/// Empty parts are skipped; a leading delimiter is kept on the first prefix.
pub open spec fn hier_scan(parts: Seq<Seq<char>>, d: Seq<char>, lead: bool) -> (Seq<Seq<char>>, Seq<char>)
    decreases parts.len(),
{
    if parts.len() == 0 {
        (seq![], seq![])
    } else {
        let (ts, cur) = hier_scan(parts.drop_last(), d, lead);
        let p = parts.last();
        if p.len() == 0 {
            (ts, cur)
        } else {
            let next = (if cur.len() > 0 || lead {
                cur + d
            } else {
                cur
            }) + p;
            (ts.push(next), next)
        }
    }
}

/// The progressive prefixes of a path: the path cut after its first, second, ...
/// segment.
pub open spec fn hierarchy(path: Seq<char>, d: Seq<char>) -> Seq<Seq<char>> {
    hier_scan(split_on(path, d), d, starts_with(path, d)).0
}

/// The prefixes that some preserve pattern matches in full.
pub open spec fn preserved_tokens(all: Seq<Seq<char>>, ps: Seq<Seq<char>>) -> Seq<Seq<char>>
    decreases all.len(),
{
    if all.len() == 0 {
        seq![]
    } else {
        let prev = preserved_tokens(all.drop_last(), ps);
        if any_full_match(ps, all.last()) {
            prev.push(all.last())
        } else {
            prev
        }
    }
}

/// Whether `tok` strictly extends some preserved prefix.
pub open spec fn extends_some(pr: Seq<Seq<char>>, tok: Seq<char>) -> bool {
    exists|j: int| 0 <= j < pr.len() && starts_with(tok, #[trigger] pr[j]) && tok.len() > pr[j].len()
}

/// Whether `tok` is a strict prefix of some preserved prefix.
pub open spec fn prefix_of_some(pr: Seq<Seq<char>>, tok: Seq<char>) -> bool {
    exists|j: int| 0 <= j < pr.len() && starts_with(#[trigger] pr[j], tok) && pr[j] != tok
}

/// A prefix is kept when it is preserved, extends a preserved one, or leads to none.
pub open spec fn keeps_token(pr: Seq<Seq<char>>, tok: Seq<char>) -> bool {
    pr.contains(tok) || extends_some(pr, tok) || !prefix_of_some(pr, tok)
}

/// Rebuilds a prefix segment by segment, lowercasing the segments that no pattern
/// matches; `acc` is what has been written for the segments before `i`.
pub open spec fn rebuild_from(
    parts: Seq<Seq<char>>,
    d: Seq<char>,
    sd: bool,
    ps: Seq<Seq<char>>,
    i: int,
    acc: Seq<char>,
) -> Seq<char>
    decreases parts.len() - i,
{
    if i < 0 || i >= parts.len() {
        acc
    } else {
        let part = parts[i];
        if part.len() == 0 {
            rebuild_from(parts, d, sd, ps, i + 1, if i == 0 && sd { acc + d } else { acc })
        } else {
            let acc1 = if (i > 0 || sd) && acc.len() > 0 && !ends_with(acc, d) {
                acc + d
            } else {
                acc
            };
            let acc2 = acc1 + (if any_match(ps, part) {
                part
            } else {
                lower_of(part)
            });
            rebuild_from(parts, d, sd, ps, i + 1, acc2)
        }
    }
}

/// A prefix with its unprotected segments lowercased.
pub open spec fn rebuild(tok: Seq<char>, d: Seq<char>, ps: Seq<Seq<char>>) -> Seq<char> {
    rebuild_from(split_on(tok, d), d, starts_with(tok, d), ps, 0, seq![])
}

/// The kept prefixes, each lowercased segment-wise when configured and not preserved.
pub open spec fn hier_out(
    all: Seq<Seq<char>>,
    pr: Seq<Seq<char>>,
    ps: Seq<Seq<char>>,
    d: Seq<char>,
    lower: bool,
) -> Seq<Seq<char>>
    decreases all.len(),
{
    if all.len() == 0 {
        seq![]
    } else {
        let prev = hier_out(all.drop_last(), pr, ps, d, lower);
        let tok = all.last();
        if keeps_token(pr, tok) {
            prev.push(
                if lower && !pr.contains(tok) {
                    rebuild(tok, d, ps)
                } else {
                    tok
                },
            )
        } else {
            prev
        }
    }
}

/// The parts joined with `d` between them.
pub open spec fn join(parts: Seq<Seq<char>>, d: Seq<char>) -> Seq<char>
    decreases parts.len(),
{
    if parts.len() == 0 {
        seq![]
    } else if parts.len() == 1 {
        parts[0]
    } else {
        join(parts.drop_last(), d) + d + parts.last()
    }
}

/// A segment with its punctuation removed, unless a pattern matches it; the
/// delimiter's characters stay.
pub open spec fn strip_part(part: Seq<char>, d: Seq<char>, ps: Seq<Seq<char>>) -> Seq<char> {
    if part.len() == 0 {
        seq![]
    } else if any_match(ps, part) {
        part
    } else {
        strip_punct(part, d)
    }
}

/// A prefix with each of its segments stripped.
pub open spec fn strip_path_token(tok: Seq<char>, d: Seq<char>, ps: Seq<Seq<char>>) -> Seq<char> {
    join(split_on(tok, d).map_values(|p: Seq<char>| strip_part(p, d, ps)), d)
}

/// Stripped prefixes; those left empty or equal to the delimiter are dropped.
pub open spec fn strip_path_tokens(ts: Seq<Seq<char>>, d: Seq<char>, ps: Seq<Seq<char>>) -> Seq<Seq<char>>
    decreases ts.len(),
{
    if ts.len() == 0 {
        seq![]
    } else {
        let prev = strip_path_tokens(ts.drop_last(), d, ps);
        let s = strip_path_token(ts.last(), d, ps);
        if s.len() > 0 && s != d {
            prev.push(s)
        } else {
            prev
        }
    }
}

/// Tokens of a path: its progressive prefixes after trimming; with preserve
/// patterns, prefixes before the first preserved one are dropped and preserved
/// segments keep their case and punctuation.
pub open spec fn path_tokens(c: TokenizerConfig, ps: Seq<Seq<char>>, d: Seq<char>, t: Seq<char>) -> Seq<
    Seq<char>,
> {
    let tr = trim_ws(t);
    if tr.len() == 0 {
        seq![]
    } else if ps.len() > 0 {
        let all = hierarchy(tr, d);
        let h = hier_out(all, preserved_tokens(all, ps), ps, d, c.lowercase);
        if c.remove_punctuation {
            strip_path_tokens(h, d, ps)
        } else {
            h
        }
    } else {
        post(hierarchy(tr, d), c.lowercase, c.remove_punctuation, d)
    }
}

/// Whether some pattern's first match in `t` covers all of `t`.
fn any_full_match_exec(ps: &Vec<CompiledPattern>, t: &str) -> (r: bool)
    ensures
        r == any_full_match(sources(ps@), t@),
{
    let mut r = false;
    let mut i: usize = 0;
    while i < ps.len()
        invariant
            i <= ps@.len(),
            r == any_full_match(sources(ps@.subrange(0, i as int)), t@),
        decreases ps.len() - i,
    {
        let found = ps[i].find_spans(t);
        let full = found.len() > 0 && found[0].0 == 0 && found[0].1 == t.len();
        assert(sources(ps@.subrange(0, i + 1)).drop_last() =~= sources(ps@.subrange(0, i as int)));
        assert(sources(ps@.subrange(0, i + 1)).last() == ps@[i as int].source_view());
        r = r || full;
        i += 1;
    }
    assert(ps@.subrange(0, ps@.len() as int) =~= ps@);
    r
}

/// Whether some pattern matches somewhere in `t`.
pub fn any_match_exec(ps: &Vec<CompiledPattern>, t: &str) -> (r: bool)
    ensures
        r == any_match(sources(ps@), t@),
{
    let mut r = false;
    let mut i: usize = 0;
    while i < ps.len()
        invariant
            i <= ps@.len(),
            r == any_match(sources(ps@.subrange(0, i as int)), t@),
        decreases ps.len() - i,
    {
        let found = ps[i].find_spans(t);
        assert(sources(ps@.subrange(0, i + 1)).drop_last() =~= sources(ps@.subrange(0, i as int)));
        assert(sources(ps@.subrange(0, i + 1)).last() == ps@[i as int].source_view());
        r = r || found.len() > 0;
        i += 1;
    }
    assert(ps@.subrange(0, ps@.len() as int) =~= ps@);
    r
}

/// Whether `s` begins with `d`.
fn starts_with_exec(s: &Vec<char>, d: &Vec<char>) -> (r: bool)
    ensures
        r == starts_with(s@, d@),
{
    occurs_at_exec(s, d, 0)
}

/// Whether `s` ends with `d`.
fn ends_with_exec(s: &Vec<char>, d: &Vec<char>) -> (r: bool)
    ensures
        r == ends_with(s@, d@),
{
    if d.len() > s.len() {
        return false;
    }
    let r = occurs_at_exec(s, d, s.len() - d.len());
    r
}

/// Whether `tok` is one of `pr`.
fn contains_token(pr: &Vec<String>, tok: &String) -> (r: bool)
    ensures
        r == views(pr@).contains(tok@),
{
    let mut k: usize = 0;
    while k < pr.len()
        invariant
            k <= pr@.len(),
            forall|j: int| 0 <= j < k ==> (#[trigger] pr@[j])@ != tok@,
        decreases pr.len() - k,
    {
        if pr[k] == *tok {
            assert(views(pr@)[k as int] == tok@);
            return true;
        }
        k += 1;
    }
    assert forall|j: int| 0 <= j < views(pr@).len() implies #[trigger] views(pr@)[j] != tok@ by {
        assert(views(pr@)[j] == pr@[j]@);
    }
    false
}

/// Whether `tok` strictly extends some token of `pr`.
fn extends_some_exec(pr: &Vec<String>, tok: &String) -> (r: bool)
    ensures
        r == extends_some(views(pr@), tok@),
{
    let tc = chars_of(tok.as_str());
    let mut k: usize = 0;
    while k < pr.len()
        invariant
            k <= pr@.len(),
            tc@ == tok@,
            forall|j: int| 0 <= j < k ==> !(starts_with(tok@, #[trigger] views(pr@)[j]) && tok@.len() > views(pr@)[j].len()),
        decreases pr.len() - k,
    {
        let pc = chars_of(pr[k].as_str());
        assert(views(pr@)[k as int] == pr@[k as int]@);
        if starts_with_exec(&tc, &pc) && tc.len() > pc.len() {
            return true;
        }
        k += 1;
    }
    false
}

/// Whether `tok` is a strict prefix of some token of `pr`.
fn prefix_of_some_exec(pr: &Vec<String>, tok: &String) -> (r: bool)
    ensures
        r == prefix_of_some(views(pr@), tok@),
{
    let tc = chars_of(tok.as_str());
    let mut k: usize = 0;
    while k < pr.len()
        invariant
            k <= pr@.len(),
            tc@ == tok@,
            forall|j: int| 0 <= j < k ==> !(starts_with(#[trigger] views(pr@)[j], tok@) && views(pr@)[j] != tok@),
        decreases pr.len() - k,
    {
        let pc = chars_of(pr[k].as_str());
        assert(views(pr@)[k as int] == pr@[k as int]@);
        if starts_with_exec(&pc, &tc) && pr[k] != *tok {
            return true;
        }
        k += 1;
    }
    false
}

/// Joins `parts` with `d` between them.
fn join_exec(parts: &Vec<String>, d: &str) -> (r: String)
    ensures
        r@ == join(views(parts@), d@),
{
    let mut r = String::new();
    let mut i: usize = 0;
    while i < parts.len()
        invariant
            i <= parts@.len(),
            r@ == join(views(parts@).subrange(0, i as int), d@),
        decreases parts.len() - i,
    {
        let ghost sub = views(parts@).subrange(0, i + 1);
        assert(sub.drop_last() =~= views(parts@).subrange(0, i as int));
        assert(sub.last() == parts@[i as int]@);
        if i > 0 {
            r.push_str(d);
        } else {
            assert(r@ + parts@[0]@ =~= parts@[0]@);
        }
        r.push_str(parts[i].as_str());
        i += 1;
    }
    assert(views(parts@).subrange(0, parts@.len() as int) =~= views(parts@));
    r
}

/// Splits a text into a hierarchy of prefixes at a non-empty delimiter.
pub struct PathHierarchyTokenizer {
    base: BaseTokenizerFields,
    delimiter: String,
}

impl PathHierarchyTokenizer {
    #[verifier::type_invariant]
    spec fn delimiter_present(&self) -> bool {
        self.delimiter@.len() > 0
    }

    pub closed spec fn spec_config(&self) -> TokenizerConfig {
        self.base.config
    }

    /// The configuration.
    pub fn config(&self) -> (r: &TokenizerConfig)
        ensures
            *r == self.spec_config(),
    {
        &self.base.config
    }

    pub closed spec fn spec_sources(&self) -> Seq<Seq<char>> {
        self.base.pattern_sources()
    }

    pub closed spec fn spec_delimiter(&self) -> Seq<char> {
        self.delimiter@
    }

    /// Holds the configuration and the (non-empty) delimiter.
    pub fn new(config: TokenizerConfig, delimiter: String) -> (r: PathHierarchyTokenizer)
        requires
            delimiter@.len() > 0,
        ensures
            r.spec_config() == config,
            r.spec_sources() == compiled_sources(config.preserve_patterns@),
            r.spec_delimiter() == delimiter@,
    {
        PathHierarchyTokenizer { base: BaseTokenizerFields::new(config), delimiter }
    }

    /// The progressive prefixes of `path`.
    fn generate_hierarchy(&self, path: &str) -> (r: Vec<String>)
        ensures
            views(r@) == hierarchy(path@, self.spec_delimiter()),
    {
        proof {
            use_type_invariant(self);
        }
        let cs = chars_of(path);
        let d = chars_of(self.delimiter.as_str());
        let parts = split_on_exec(&cs, &d);
        let sd = starts_with_exec(&cs, &d);
        let mut tokens: Vec<String> = Vec::new();
        let mut cur = String::new();
        let mut i: usize = 0;
        while i < parts.len()
            invariant
                i <= parts@.len(),
                d@ == self.delimiter@,
                views(parts@) == split_on(path@, d@),
                sd == starts_with(path@, d@),
                (views(tokens@), cur@) == hier_scan(views(parts@).subrange(0, i as int), d@, sd),
            decreases parts.len() - i,
        {
            let ghost sub = views(parts@).subrange(0, i + 1);
            assert(sub.drop_last() =~= views(parts@).subrange(0, i as int));
            assert(sub.last() == parts@[i as int]@);
            if !parts[i].as_str().is_empty() {
                if !cur.as_str().is_empty() || sd {
                    cur.push_str(self.delimiter.as_str());
                }
                cur.push_str(parts[i].as_str());
                let ghost before = views(tokens@);
                tokens.push(cur.clone());
                assert(views(tokens@) =~= before.push(cur@));
            }
            i += 1;
        }
        assert(views(parts@).subrange(0, parts@.len() as int) =~= views(parts@));
        tokens
    }

    /// A prefix rebuilt with its unprotected segments lowercased.
    fn rebuild_lowercased(&self, tok: &str) -> (r: String)
        ensures
            r@ == rebuild(tok@, self.spec_delimiter(), self.spec_sources()),
    {
        let tc = chars_of(tok);
        let d = chars_of(self.delimiter.as_str());
        proof {
            use_type_invariant(self);
        }
        let parts = split_on_exec(&tc, &d);
        let sd = starts_with_exec(&tc, &d);
        let ghost ps = self.spec_sources();
        let mut acc = String::new();
        let mut i: usize = 0;
        while i < parts.len()
            invariant
                i <= parts@.len(),
                d@ == self.delimiter@,
                ps == sources(self.base.preserve_patterns@),
                views(parts@) == split_on(tok@, d@),
                sd == starts_with(tok@, d@),
                rebuild_from(views(parts@), d@, sd, ps, i as int, acc@) == rebuild(tok@, d@, ps),
            decreases parts.len() - i,
        {
            let part = &parts[i];
            assert(views(parts@)[i as int] == part@);
            if part.as_str().is_empty() {
                if i == 0 && sd {
                    acc.push_str(self.delimiter.as_str());
                }
            } else {
                if (i > 0 || sd) && !acc.as_str().is_empty() {
                    let ac = chars_of(acc.as_str());
                    if !ends_with_exec(&ac, &d) {
                        acc.push_str(self.delimiter.as_str());
                    }
                }
                if any_match_exec(&self.base.preserve_patterns, part.as_str()) {
                    acc.push_str(part.as_str());
                } else {
                    let low = part.as_str().to_lowercase();
                    acc.push_str(low.as_str());
                }
            }
            i += 1;
        }
        acc
    }

    /// The prefixes of `text` under the preserve patterns: those before the first
    /// preserved prefix are dropped, and unpreserved ones are lowercased segment-wise
    /// when configured.
    fn apply_patterns_to_hierarchy(&self, text: &str) -> (r: Vec<String>)
        ensures
            views(r@) == (if self.spec_sources().len() == 0 {
                hierarchy(text@, self.spec_delimiter())
            } else {
                hier_out(
                    hierarchy(text@, self.spec_delimiter()),
                    preserved_tokens(hierarchy(text@, self.spec_delimiter()), self.spec_sources()),
                    self.spec_sources(),
                    self.spec_delimiter(),
                    self.spec_config().lowercase,
                )
            }),
    {
        let all = self.generate_hierarchy(text);
        if self.base.preserve_patterns.len() == 0 {
            return all;
        }
        let ghost ps = self.spec_sources();
        let ghost allv = views(all@);
        let mut preserved: Vec<String> = Vec::new();
        let mut i: usize = 0;
        while i < all.len()
            invariant
                i <= all@.len(),
                allv == views(all@),
                ps == sources(self.base.preserve_patterns@),
                views(preserved@) == preserved_tokens(allv.subrange(0, i as int), ps),
            decreases all.len() - i,
        {
            let ghost sub = allv.subrange(0, i + 1);
            assert(sub.drop_last() =~= allv.subrange(0, i as int));
            assert(sub.last() == all@[i as int]@);
            if any_full_match_exec(&self.base.preserve_patterns, all[i].as_str()) {
                let ghost before = views(preserved@);
                preserved.push(all[i].clone());
                assert(views(preserved@) =~= before.push(all@[i as int]@));
            }
            i += 1;
        }
        assert(allv.subrange(0, all@.len() as int) =~= allv);
        let ghost prv = views(preserved@);
        let lower = self.base.config.lowercase;
        let mut result: Vec<String> = Vec::new();
        let mut i: usize = 0;
        while i < all.len()
            invariant
                i <= all@.len(),
                allv == views(all@),
                prv == views(preserved@),
                lower == self.base.config.lowercase,
                ps == sources(self.base.preserve_patterns@),
                views(result@) == hier_out(allv.subrange(0, i as int), prv, ps, self.delimiter@, lower),
            decreases all.len() - i,
        {
            let ghost sub = allv.subrange(0, i + 1);
            assert(sub.drop_last() =~= allv.subrange(0, i as int));
            assert(sub.last() == all@[i as int]@);
            let tok = &all[i];
            let is_preserved = contains_token(&preserved, tok);
            let kept = is_preserved || extends_some_exec(&preserved, tok) || !prefix_of_some_exec(
                &preserved,
                tok,
            );
            if kept {
                let out = if lower && !is_preserved {
                    self.rebuild_lowercased(tok.as_str())
                } else {
                    tok.clone()
                };
                let ghost before = views(result@);
                result.push(out);
                assert(views(result@) =~= before.push(out@));
            }
            i += 1;
        }
        assert(allv.subrange(0, all@.len() as int) =~= allv);
        result
    }

    /// A prefix with the punctuation of each unprotected segment removed.
    fn strip_token(&self, tok: &str) -> (r: String)
        ensures
            r@ == strip_path_token(tok@, self.spec_delimiter(), self.spec_sources()),
    {
        proof {
            use_type_invariant(self);
        }
        let tc = chars_of(tok);
        let d = chars_of(self.delimiter.as_str());
        let parts = split_on_exec(&tc, &d);
        let ghost ps = self.spec_sources();
        let ghost f = |p: Seq<char>| strip_part(p, d@, ps);
        let mut processed: Vec<String> = Vec::new();
        let mut i: usize = 0;
        while i < parts.len()
            invariant
                i <= parts@.len(),
                d@ == self.delimiter@,
                ps == sources(self.base.preserve_patterns@),
                f == (|p: Seq<char>| strip_part(p, d@, ps)),
                views(processed@) == views(parts@).subrange(0, i as int).map_values(f),
            decreases parts.len() - i,
        {
            let part = &parts[i];
            let out = if part.as_str().is_empty() {
                String::new()
            } else if any_match_exec(&self.base.preserve_patterns, part.as_str()) {
                part.clone()
            } else {
                strip_punctuation(part.as_str(), &d)
            };
            assert(out@ == strip_part(part@, d@, ps));
            assert(views(parts@)[i as int] == part@);
            let ghost before = views(processed@);
            processed.push(out);
            assert(views(processed@) =~= before.push(out@));
            assert(views(parts@).subrange(0, i + 1).map_values(f) =~= views(parts@).subrange(0, i as int).map_values(f).push(f(part@)));
            i += 1;
        }
        assert(views(parts@).subrange(0, parts@.len() as int) =~= views(parts@));
        join_exec(&processed, self.delimiter.as_str())
    }

    /// Each prefix stripped; those left empty or equal to the delimiter are dropped.
    fn strip_all_tokens(&self, tokens: Vec<String>) -> (r: Vec<String>)
        ensures
            views(r@) == strip_path_tokens(views(tokens@), self.spec_delimiter(), self.spec_sources()),
    {
        let ghost ps = self.spec_sources();
        let ghost d = self.spec_delimiter();
        let ghost tv = views(tokens@);
        let mut result: Vec<String> = Vec::new();
        let mut i: usize = 0;
        while i < tokens.len()
            invariant
                i <= tokens@.len(),
                tv == views(tokens@),
                ps == self.spec_sources(),
                d == self.spec_delimiter(),
                d == self.delimiter@,
                views(result@) == strip_path_tokens(tv.subrange(0, i as int), d, ps),
            decreases tokens.len() - i,
        {
            let ghost sub = tv.subrange(0, i + 1);
            assert(sub.drop_last() =~= tv.subrange(0, i as int));
            assert(sub.last() == tokens@[i as int]@);
            let s = self.strip_token(tokens[i].as_str());
            if !s.as_str().is_empty() && s != self.delimiter {
                let ghost before = views(result@);
                result.push(s);
                assert(views(result@) =~= before.push(s@));
            }
            i += 1;
        }
        assert(tv.subrange(0, tokens@.len() as int) =~= tv);
        result
    }
}

impl Tokenizer for PathHierarchyTokenizer {
    open spec fn tokens_spec(&self, text: Seq<char>) -> Seq<Seq<char>> {
        path_tokens(self.spec_config(), self.spec_sources(), self.spec_delimiter(), text)
    }

    fn tokenize(&self, text: &str) -> (r: Vec<String>) {
        let trimmed = text.trim();
        if trimmed.is_empty() {
            return Vec::new();
        }
        if self.base.has_preserve_patterns() {
            let tokens = self.apply_patterns_to_hierarchy(trimmed);
            if !self.base.config.remove_punctuation {
                return tokens;
            }
            self.strip_all_tokens(tokens)
        } else {
            let tokens = self.generate_hierarchy(trimmed);
            post_process_with_preserved(tokens, &self.base.config, Some(self.delimiter.as_str()))
        }
    }
}

} // verus!
