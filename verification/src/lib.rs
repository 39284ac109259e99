//! A parser for a minimal functional language with per-function type
//! signatures, multi-clause definitions and arithmetic expressions.
//!
//! The grammar, with `ws` standing for any run of spaces, tabs and line
//! breaks (skipped before every token) and `word` for a maximal run of ASCII
//! letters, digits and underscores:
//!
//! ```text
//! program     := definition* ws end-of-input
//! definition  := name "::" type branch+
//! type        := base ( "->" base )*
//! base        := "int" | "list" | "matrix"
//! branch      := name pattern* "=" expr
//! pattern     := literal | name
//! expr        := term ( ( "+" | "-" ) term )*
//! term        := call ( ( "*" | "/" ) call )*
//! call        := atom | name atom+        (arguments on the line of the name)
//! atom        := literal | name | "(" expr ")"
//! literal     := digits | "NaN"
//! name        := a word that is not a literal
//! ```
//!
//! A binary operator is recorded as a call of its symbol with two
//! arguments. Parsing stops at the first failure: an unknown type word, a
//! digit run beyond `i32::MAX`, a signature without a clause, input where
//! no definition can start, or a missing token. Offsets in failures count
//! characters. Parenthesised expressions are parsed by recursion, so the
//! depth of nesting that can be parsed is bounded by the stack.
pub mod ast;
pub mod error;
pub mod source;
pub mod types;
pub mod expr;
pub mod definition;
pub mod program;
pub mod bounds;
pub mod laws;

pub use crate::ast::{Branch, Definition, Expr, Literal, PatternElement, Program, ValueType};
pub use crate::error::{ErrorKind, ParseError};
pub use crate::program::{parse, parse_expression, parse_program};
