use unicode_segmentation::UnicodeSegmentation;
use vstd::prelude::*;

use crate::chars::views;

verus! {

/// The words of a text under Unicode word-boundary rules, punctuation-only pieces left out.
pub uninterp spec fn unicode_words_of(t: Seq<char>) -> Seq<Seq<char>>;

/// The sentences of a text under Unicode sentence-boundary rules.
pub uninterp spec fn sentences_of(t: Seq<char>) -> Seq<Seq<char>>;

/// The grapheme clusters of a text, extended or legacy.
pub uninterp spec fn graphemes_of(t: Seq<char>, extended: bool) -> Seq<Seq<char>>;

/// Byte spans of the URLs and e-mail addresses found in a text, in order.
pub uninterp spec fn link_spans_of(t: Seq<char>) -> Seq<(usize, usize)>;

/// Relies on UnicodeSegmentation::unicode_words: the words depend on the text alone.
#[verifier::external_body]
pub(crate) fn unicode_words(text: &str) -> (r: Vec<String>)
    ensures
        views(r@) == unicode_words_of(text@),
{
    text.unicode_words().map(|s| s.to_string()).collect()
}

/// Relies on UnicodeSegmentation::unicode_sentences: the sentences depend on the text alone.
#[verifier::external_body]
pub(crate) fn unicode_sentences(text: &str) -> (r: Vec<String>)
    ensures
        views(r@) == sentences_of(text@),
{
    text.unicode_sentences().map(|s| s.to_string()).collect()
}

/// Relies on UnicodeSegmentation::graphemes: the clusters depend on the text and the
/// rule variant alone.
#[verifier::external_body]
pub(crate) fn graphemes(text: &str, extended: bool) -> (r: Vec<String>)
    ensures
        views(r@) == graphemes_of(text@, extended),
{
    text.graphemes(extended).map(|s| s.to_string()).collect()
}

/// Relies on linkify::LinkFinder (default options) and Links: the start and end byte
/// offsets of each link, in order; links are URLs or e-mail addresses.
#[verifier::external_body]
pub(crate) fn find_links(text: &str) -> (r: Vec<(usize, usize)>)
    ensures
        r@ == link_spans_of(text@),
{
    linkify::LinkFinder::new().links(text).map(|l| (l.start(), l.end())).collect()
}

} // verus!
