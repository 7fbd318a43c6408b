use vstd::prelude::*;

verus! {

#[verifier::external_type_specification]
#[verifier::external_body]
pub struct ExRegex(regex::Regex);

/// What compiling a regular expression reports: no message when it compiles, the
/// engine's error message otherwise.
pub uninterp spec fn regex_compile_error(p: Seq<char>) -> Option<Seq<char>>;

/// Whether a regular expression compiles.
pub open spec fn regex_ok(p: Seq<char>) -> bool {
    regex_compile_error(p) is None
}

/// Byte spans `(start, end)` of the successive non-overlapping matches of the
/// regular expression `p` in `t`.
pub uninterp spec fn regex_find(p: Seq<char>, t: Seq<char>) -> Seq<(usize, usize)>;

/// Relies on regex::Regex::new: whether it succeeds, and the error's message, depend
/// on the pattern alone.
#[verifier::external_body]
fn compile_regex(p: &str) -> (r: Result<regex::Regex, String>)
    ensures
        r is Ok <==> regex_compile_error(p@) is None,
        r matches Err(m) ==> regex_compile_error(p@) == Some(m@),
{
    regex::Regex::new(p).map_err(|e| e.to_string())
}

/// A regular expression together with the source it was compiled from. The fields
/// are private and `compile` is the only constructor, so `regex` is always the
/// expression compiled from `source`.
pub struct CompiledPattern {
    source: String,
    regex: regex::Regex,
}

impl CompiledPattern {
    /// The source text of the expression.
    pub closed spec fn source_view(&self) -> Seq<char> {
        self.source@
    }

    /// Compiles `p`; on failure, the regex engine's message.
    pub fn compile(p: &str) -> (r: Result<CompiledPattern, String>)
        ensures
            r is Ok <==> regex_ok(p@),
            r matches Ok(c) ==> c.source_view() == p@,
            r matches Err(m) ==> regex_compile_error(p@) == Some(m@),
    {
        match compile_regex(p) {
            Ok(regex) => Ok(CompiledPattern { source: p.to_owned(), regex }),
            Err(msg) => Err(msg),
        }
    }

    /// The source text of the expression.
    pub fn source(&self) -> (r: &str)
        ensures
            r@ == self.source_view(),
    {
        self.source.as_str()
    }

    /// Relies on regex::Regex::find_iter over the expression compiled from `source`:
    /// the byte spans of its matches in `text`, in order.
    #[verifier::external_body]
    pub(crate) fn find_spans(&self, text: &str) -> (r: Vec<(usize, usize)>)
        ensures
            r@ == regex_find(self.source_view(), text@),
    {
        self.regex.find_iter(text).map(|m| (m.start(), m.end())).collect()
    }
}

} // verus!
