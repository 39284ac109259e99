//! Parse failures.
use vstd::prelude::*;
use vstd::string::StringExecFns;

verus! {

/// Why a parse failed.
#[derive(Debug, Clone, Copy, PartialEq, Eq, Structural)]
pub enum ErrorKind {
    /// A type-signature token is none of `int`, `list`, `matrix`.
    UnknownType,
    /// A digit run does not fit a 32-bit signed integer.
    NumericOverflow,
    /// A signature is not followed by at least one clause.
    MissingBranch,
    /// Input remains where no definition can start.
    UnexpectedTrailingInput,
    /// A required token is missing at the point of expectation.
    SyntaxError,
}

/// A failure and the character offset at which it was found.
#[derive(Debug, Clone, Copy, PartialEq, Eq, Structural)]
pub struct ParseError {
    pub kind: ErrorKind,
    pub position: usize,
}

/// The failure of kind `kind` at offset `pos`.
pub open spec fn fail(kind: ErrorKind, pos: int) -> ParseError {
    ParseError { kind, position: pos as usize }
}

/// The fixed text that introduces a failure of each kind in a message.
pub open spec fn kind_text(kind: ErrorKind) -> Seq<char> {
    match kind {
        ErrorKind::UnknownType => "unknown type at: "@,
        ErrorKind::NumericOverflow => "integer literal out of range at: "@,
        ErrorKind::MissingBranch => "definition without a clause at: "@,
        ErrorKind::UnexpectedTrailingInput => "unexpected trailing input at: "@,
        ErrorKind::SyntaxError => "syntax error at: "@,
    }
}

/// Whether the outcome `got` of a parsing step is the outcome `want` of its
/// model: the same failure, or the same end offset and a value whose model
/// is the value wanted.
pub open spec fn agree<T, M>(
    got: Result<(T, usize), ParseError>,
    want: Result<(M, int), ParseError>,
    model: spec_fn(T) -> M,
) -> bool {
    match (got, want) {
        (Ok((v, end)), Ok((m, n))) => model(v) == m && end == n,
        (Err(x), Err(y)) => x == y,
        _ => false,
    }
}

/// As [`agree`], for a step that may find nothing to parse.
pub open spec fn agree_opt<T, M>(
    got: Result<Option<(T, usize)>, ParseError>,
    want: Result<Option<(M, int)>, ParseError>,
    model: spec_fn(T) -> M,
) -> bool {
    match (got, want) {
        (Ok(Some((v, end))), Ok(Some((m, n)))) => model(v) == m && end == n,
        (Ok(None), Ok(None)) => true,
        (Err(x), Err(y)) => x == y,
        _ => false,
    }
}

impl ErrorKind {
    /// The text that introduces a failure of this kind.
    pub fn text(&self) -> (t: String)
        ensures
            t@ == kind_text(*self),
    {
        match self {
            ErrorKind::UnknownType => String::from_str("unknown type at: "),
            ErrorKind::NumericOverflow => String::from_str("integer literal out of range at: "),
            ErrorKind::MissingBranch => String::from_str("definition without a clause at: "),
            ErrorKind::UnexpectedTrailingInput => String::from_str(
                "unexpected trailing input at: ",
            ),
            ErrorKind::SyntaxError => String::from_str("syntax error at: "),
        }
    }
}

} // verus!
