//! Diagnostic kinds for every fatal condition the pipeline can detect.
//!
//! Every stage returns a structured result instead of aborting: the reader
//! reports a kind together with the source position (in characters consumed)
//! at which the condition was detected, and the later stages report a kind.
use vstd::prelude::*;

verus! {

/// One kind for each detectable fatal condition.
#[derive(Clone, Copy, Debug, PartialEq, Eq, Structural)]
pub enum ErrKind {
    /// A number token that is neither an integer nor a float literal.
    BadNumber,
    /// End of input inside a string literal.
    UnterminatedString,
    /// A `\` escape other than `\t \n \r \\ \"` inside a string literal.
    UnknownEscape,
    /// End of input inside a `( ... )` form.
    UnterminatedList,
    /// End of input inside a `[ ... ]` form.
    UnterminatedVector,
    /// End of input inside a `{ ... }` form.
    UnterminatedMap,
    /// A `{ ... }` form with an odd number of entries.
    OddMapArity,
    /// A closing delimiter with no matching open delimiter.
    UnmatchedDelimiter,
    /// A `:` followed by whitespace or by end of input.
    BadKeyword,
    /// A `'` or `@` prefix with no form after it.
    MissingQuotedForm,
    /// A `^` followed by end of input or by a form that is no metadata.
    BadMeta,
    /// A list whose first element is not a symbol.
    NotCallable,
    /// An `if` form without exactly three forms after the head.
    IfArity,
    /// A `let` form with fewer than two elements in total.
    LetArity,
    /// A `let` form whose first argument is not a vector, or a binding
    /// vector of odd length.
    LetBindingVector,
    /// A non-symbol in a `let` binding position.
    NonSymbolBinding,
    /// An `=` form without exactly two operands.
    EqualArity,
    /// A `defn` form without a name, a parameter list and a body form.
    DefnArity,
    /// A `defn` form whose name is not a symbol.
    NonSymbolName,
    /// A `defn` parameter list that is neither a vector nor nil.
    BadParameterList,
    /// A non-symbol in a `defn` parameter vector.
    NonSymbolParameter,
    /// A value shape that the emitter has no rule for.
    EmitUnsupported,
    /// A backtick, tilde or bare backslash, which no reader rule accepts.
    BadToken,
}

/// A reader diagnostic: the kind and the number of characters that were
/// consumed from the input when the condition was detected.
#[derive(Clone, Copy, Debug, PartialEq, Eq, Structural)]
pub struct ReadErr {
    pub kind: ErrKind,
    pub pos: usize,
}

} // verus!
