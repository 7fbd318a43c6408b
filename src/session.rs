use vstd::prelude::*;

use crate::chars::views;
use crate::config::{config_fault, TokenizerConfig};
use crate::error::TokenizerError;
use crate::factory::{buildable, build_error, from_config, tokens_for};
use crate::raw::{config_fits, config_to_hash, fault_free, known_name, missing_regex, parse_config_from_hash, raw_name, RawConfig};
use crate::tokenizer::Tokenizer;

verus! {

/// Two configurations with the same field values prescribe the same tokens.
pub proof fn lemma_tokens_for_values(a: TokenizerConfig, b: TokenizerConfig, t: Seq<char>)
    requires
        a.strategy == b.strategy,
        a.lowercase == b.lowercase,
        a.remove_punctuation == b.remove_punctuation,
        a.preserve_patterns@ == b.preserve_patterns@,
    ensures
        tokens_for(a, t) == tokens_for(b, t),
        buildable(a) == buildable(b),
{
}

/// Tokenizes `text` with a fresh tokenizer built from the current default configuration.
pub fn tokenize(current: &TokenizerConfig, text: &str) -> (r: Result<Vec<String>, TokenizerError>)
    ensures
        r is Ok <==> buildable(*current),
        r matches Ok(v) ==> views(v@) == tokens_for(*current, text@),
        r matches Err(e) ==> build_error(*current, e),
{
    let c = current.copied();
    proof {
        lemma_tokens_for_values(c, *current, text@);
    }
    match from_config(c) {
        Ok(t) => Ok(t.tokenize(text)),
        Err(e) => Err(e),
    }
}

/// Replaces the current default configuration with the one `raw` describes; on
/// failure the current one stays.
pub fn configure(current: &mut TokenizerConfig, raw: RawConfig) -> (r: Result<(), TokenizerError>)
    ensures
        r is Ok ==> config_fits(*final(current), raw) && config_fault(*final(current)) is None,
        r is Err ==> *final(current) == *old(current),
        !known_name(raw_name(raw)) || missing_regex(raw) ==> r is Err,
        fault_free(raw) ==> r is Ok,
{
    match parse_config_from_hash(raw) {
        Ok(c) => {
            *current = c;
            Ok(())
        },
        Err(e) => Err(e),
    }
}

/// Same as `configure`.
pub fn load_config(current: &mut TokenizerConfig, raw: RawConfig) -> (r: Result<(), TokenizerError>)
    ensures
        r is Ok ==> config_fits(*final(current), raw) && config_fault(*final(current)) is None,
        r is Err ==> *final(current) == *old(current),
        !known_name(raw_name(raw)) || missing_regex(raw) ==> r is Err,
        fault_free(raw) ==> r is Ok,
{
    configure(current, raw)
}

/// Restores the factory defaults: Unicode words, lowercased, punctuation kept,
/// nothing preserved.
pub fn reset(current: &mut TokenizerConfig)
    ensures
        final(current).strategy is Unicode,
        final(current).lowercase,
        !final(current).remove_punctuation,
        final(current).preserve_patterns@.len() == 0,
{
    *current = TokenizerConfig::default();
}

/// The current default configuration in raw form.
pub fn config_hash(current: &TokenizerConfig) -> (r: RawConfig)
    ensures
        config_fits(*current, r),
{
    config_to_hash(current)
}

/// Tokenizes `text` with a tokenizer built from the configuration `raw` describes.
pub fn tokenize_with_config(text: &str, raw: RawConfig) -> (r: Result<Vec<String>, TokenizerError>)
    ensures
        r matches Ok(v) ==> exists|c: TokenizerConfig|
            config_fits(c, raw) && config_fault(c) is None && views(v@) == #[trigger] tokens_for(c, text@),
        !known_name(raw_name(raw)) || missing_regex(raw) ==> r is Err,
        fault_free(raw) ==> r is Ok,
{
    let c = match parse_config_from_hash(raw) {
        Ok(c) => c,
        Err(e) => {
            return Err(e);
        },
    };
    let ghost cv = c;
    match from_config(c) {
        Ok(t) => {
            let v = t.tokenize(text);
            assert(views(v@) == tokens_for(cv, text@));
            Ok(v)
        },
        Err(e) => Err(e),
    }
}

} // verus!
