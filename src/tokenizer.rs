use vstd::prelude::*;

use crate::chars::views;
use crate::config::{first_bad_pattern, TokenizerConfig};
use crate::overlay::sources;
use crate::pattern::{regex_ok, CompiledPattern};

verus! {

/// A segmentation algorithm bound to its parameters: text in, tokens out.
pub trait Tokenizer: Send + Sync {
    /// The tokens of `text`.
    spec fn tokens_spec(&self, text: Seq<char>) -> Seq<Seq<char>>;

    /// Tokenizes `text`; never fails.
    fn tokenize(&self, text: &str) -> (r: Vec<String>)
        ensures
            views(r@) == self.tokens_spec(text@),
    ;
}

/// The sources among `ps` that compile, in order.
pub open spec fn compiled_sources(ps: Seq<String>) -> Seq<Seq<char>>
    decreases ps.len(),
{
    if ps.len() == 0 {
        seq![]
    } else {
        let p = compiled_sources(ps.drop_last());
        if regex_ok(ps.last()@) {
            p.push(ps.last()@)
        } else {
            p
        }
    }
}

/// When every pattern compiles, none is dropped.
pub proof fn lemma_compiled_sources_all(ps: Seq<String>)
    requires
        first_bad_pattern(ps) is None,
    ensures
        compiled_sources(ps) == views(ps),
    decreases ps.len(),
{
    lemma_first_bad_none_all(ps);
    lemma_compiled_all_ok(ps);
}

proof fn lemma_first_bad_none_all(ps: Seq<String>)
    requires
        first_bad_pattern(ps) is None,
    ensures
        forall|j: int| 0 <= j < ps.len() ==> regex_ok(#[trigger] ps[j]@),
    decreases ps.len(),
{
    if ps.len() > 0 {
        lemma_first_bad_none_all(ps.drop_first());
        assert forall|j: int| 0 <= j < ps.len() implies regex_ok(#[trigger] ps[j]@) by {
            if j > 0 {
                assert(ps[j] == ps.drop_first()[j - 1]);
            }
        }
    }
}

proof fn lemma_compiled_all_ok(ps: Seq<String>)
    requires
        forall|j: int| 0 <= j < ps.len() ==> regex_ok(#[trigger] ps[j]@),
    ensures
        compiled_sources(ps) == views(ps),
    decreases ps.len(),
{
    if ps.len() > 0 {
        let p = ps.drop_last();
        assert forall|j: int| 0 <= j < p.len() implies regex_ok(#[trigger] p[j]@) by {
            assert(p[j] == ps[j]);
        }
        lemma_compiled_all_ok(p);
        assert(regex_ok(ps[ps.len() - 1]@));
        assert(views(ps) =~= views(p).push(ps.last()@));
    } else {
        assert(views(ps) =~= seq![]);
    }
}

/// Compiles the configuration's preserve patterns, leaving out those that do not compile.
pub fn create_preserve_patterns(config: &TokenizerConfig) -> (r: Vec<CompiledPattern>)
    ensures
        sources(r@) == compiled_sources(config.preserve_patterns@),
{
    let ps = &config.preserve_patterns;
    let mut r: Vec<CompiledPattern> = Vec::new();
    let mut i: usize = 0;
    while i < ps.len()
        invariant
            i <= ps@.len(),
            ps == &config.preserve_patterns,
            sources(r@) == compiled_sources(ps@.subrange(0, i as int)),
        decreases ps.len() - i,
    {
        assert(ps@.subrange(0, i + 1).drop_last() =~= ps@.subrange(0, i as int));
        assert(ps@.subrange(0, i + 1).last() == ps@[i as int]);
        match CompiledPattern::compile(ps[i].as_str()) {
            Ok(p) => {
                let ghost before = r@;
                r.push(p);
                assert(sources(r@) =~= sources(before).push(p.source_view()));
            },
            Err(_) => {},
        }
        i += 1;
    }
    assert(ps@.subrange(0, ps@.len() as int) =~= ps@);
    r
}

/// What most tokenizers hold: the configuration and its compiled preserve patterns.
pub struct BaseTokenizerFields {
    pub config: TokenizerConfig,
    pub preserve_patterns: Vec<CompiledPattern>,
}

impl BaseTokenizerFields {
    /// Sources of the compiled preserve patterns.
    pub open spec fn pattern_sources(&self) -> Seq<Seq<char>> {
        sources(self.preserve_patterns@)
    }

    /// Holds `config` with those of its preserve patterns that compile.
    pub fn new(config: TokenizerConfig) -> (r: BaseTokenizerFields)
        ensures
            r.config == config,
            r.pattern_sources() == compiled_sources(config.preserve_patterns@),
    {
        let preserve_patterns = create_preserve_patterns(&config);
        BaseTokenizerFields { config, preserve_patterns }
    }

    /// The configuration.
    pub fn config(&self) -> (r: &TokenizerConfig)
        ensures
            *r == self.config,
    {
        &self.config
    }

    /// Whether any preserve pattern is in force.
    pub fn has_preserve_patterns(&self) -> (r: bool)
        ensures
            r == (self.pattern_sources().len() > 0),
    {
        self.preserve_patterns.len() > 0
    }

    /// The compiled preserve patterns.
    pub fn preserve_patterns(&self) -> (r: &Vec<CompiledPattern>)
        ensures
            *r == self.preserve_patterns,
    {
        &self.preserve_patterns
    }
}

} // verus!
