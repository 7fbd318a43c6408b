use vstd::prelude::*;

verus! {

/// Everything that can go wrong while a configuration is read, checked or built.
#[derive(Debug)]
pub enum TokenizerError {
    /// A required field is missing or malformed.
    InvalidConfiguration(String),
    /// A regular expression does not compile: its source and the engine's message.
    InvalidRegex { pattern: String, error: String },
    /// n-gram bounds with `min == 0` or `min > max`.
    InvalidNgramConfig { min: usize, max: usize },
    /// An empty delimiter, for the named tokenizer.
    EmptyDelimiter { tokenizer: String },
    /// A strategy name that is not known.
    UnknownStrategy(String),
    /// The slot that holds a shared default configuration could not be locked.
    MutexError(String),
    /// A value handed over by a host language could not be converted.
    RubyConversionError(String),
}

} // verus!
