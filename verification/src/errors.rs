use vstd::prelude::*;

verus! {

/// Why a pattern string failed to compile. Each error is fatal to the single
/// alternative being compiled, never to the whole run.
#[derive(Debug, PartialEq, Eq, Clone, Copy)]
pub enum CompileError {
    /// The pattern contains non-ASCII characters.
    NonAscii,
    /// The pattern (or one alternative) is empty, or yields no match steps.
    EmptyExpression,
    /// An unrecognized token at top level.
    InvalidCharacter,
    /// `*`, `+`, `?` or `{` with no preceding step; carries the offending character.
    UnexpectedQuantifier(char),
    /// A `{...}` body that is not one or two valid integers with `min <= max`.
    BadRangeSyntax,
    /// A `\` at the end of the pattern.
    DanglingEscape,
    /// A bracket expression `[]` with an empty body.
    EmptyBracket,
    /// A bracket expression `[^]` whose body is only the negation caret.
    InvalidCaretUsage,
    /// An unknown `:name:` token inside a bracket expression.
    InvalidMetachar,
}

} // verus!
