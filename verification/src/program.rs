//! Whole programs, and the entry points of the library.
use vstd::prelude::*;
use vstd::string::StringExecFns;
use crate::ast::{Definition, DefinitionModel, Expr, ExprModel, Program, ProgramModel, definition_models};
use crate::definition::{parse_definition, spec_definition};
use crate::error::{ErrorKind, ParseError, fail, kind_text};
use crate::expr::{parse_expr, spec_expr};
use crate::source::{Source, skip};

verus! {

/// The definitions behind `pos` up to the end of the text, appended to
/// `acc` in source order. Only blank space may surround them.
pub open spec fn spec_definitions(s: Seq<char>, acc: Seq<DefinitionModel>, pos: int) -> Result<
    Seq<DefinitionModel>,
    ParseError,
>
    decreases s.len() - pos,
{
    if skip(s, pos) >= s.len() {
        Ok(acc)
    } else {
        match spec_definition(s, pos) {
            Ok((definition, end)) => if pos < end <= s.len() {
                spec_definitions(s, acc.push(definition), end)
            } else {
                Err(fail(ErrorKind::SyntaxError, end))
            },
            Err(e) => Err(e),
        }
    }
}

/// `program := definition*` over the whole text `s`.
pub open spec fn spec_program(s: Seq<char>) -> Result<ProgramModel, ParseError> {
    match spec_definitions(s, Seq::empty(), 0) {
        Ok(definitions) => Ok(ProgramModel { definitions }),
        Err(e) => Err(e),
    }
}

/// The whole text `s` read as one expression: what follows the expression
/// may only be blank space.
pub open spec fn spec_expression(s: Seq<char>) -> Result<ExprModel, ParseError> {
    match spec_expr(s, 0) {
        Ok((e, end)) => if skip(s, end) >= s.len() {
            Ok(e)
        } else {
            Err(fail(ErrorKind::UnexpectedTrailingInput, skip(s, end)))
        },
        Err(e) => Err(e),
    }
}

/// The message for the failure `e` on the text `s`: the text of its kind,
/// followed by the input that was left at its offset.
pub open spec fn spec_message(s: Seq<char>, e: ParseError) -> Seq<char> {
    kind_text(e.kind) + s.subrange(e.position as int, s.len() as int)
}

/// Whether `out` is the outcome of parsing the text `s` as a program: the
/// failure that the grammar gives, or a program whose model is the one
/// that the grammar gives.
pub open spec fn parses_to(s: Seq<char>, out: Result<Program, ParseError>) -> bool {
    match (out, spec_program(s)) {
        (Ok(p), Ok(m)) => p@ == m,
        (Err(x), Err(y)) => x == y,
        _ => false,
    }
}

/// Parses `input` as a program; a failure carries its kind and the
/// character offset at which it was found.
pub fn parse(input: &str) -> (out: Result<Program, ParseError>)
    ensures
        parses_to(input@, out),
        out matches Err(e) ==> e.position <= input@.len(),
{
    let src = Source::new(input);
    let mut definitions: Vec<Definition> = Vec::new();
    let mut at: usize = 0;
    assert(definition_models(definitions@) =~= Seq::empty());
    loop
        invariant
            src.wf(),
            src@ == input@,
            at <= src@.len(),
            spec_definitions(src@, definition_models(definitions@), at as int)
                == spec_definitions(src@, Seq::empty(), 0),
        decreases src@.len() - at,
    {
        if src.skip_space(at) >= src.len() {
            return Ok(Program { definitions });
        }
        match parse_definition(&src, at) {
            Ok((definition, end)) => {
                assert(definition_models(definitions@.push(definition)) =~= definition_models(
                    definitions@,
                ).push(definition@));
                definitions.push(definition);
                at = end;
            },
            Err(e) => {
                return Err(e);
            },
        }
    }
}

/// Parses `input` as a program; a failure is reported as a message that
/// names its kind and shows the input left at the point of failure.
pub fn parse_program(input: &str) -> (out: Result<Program, String>)
    ensures
        match (out, spec_program(input@)) {
            (Ok(p), Ok(m)) => p@ == m,
            (Err(message), Err(e)) => message@ == spec_message(input@, e),
            _ => false,
        },
{
    match parse(input) {
        Ok(program) => Ok(program),
        Err(e) => {
            let src = Source::new(input);
            Err(e.kind.text().concat(src.rest(e.position)))
        },
    }
}

/// Parses the whole of `input` as one expression.
pub fn parse_expression(input: &str) -> (out: Result<Expr, ParseError>)
    ensures
        match (out, spec_expression(input@)) {
            (Ok(e), Ok(m)) => e@ == m,
            (Err(x), Err(y)) => x == y,
            _ => false,
        },
        out matches Err(e) ==> e.position <= input@.len(),
{
    let src = Source::new(input);
    match parse_expr(&src, 0) {
        Ok((e, end)) => {
            let rest = src.skip_space(end);
            if rest >= src.len() {
                Ok(e)
            } else {
                Err(ParseError { kind: ErrorKind::UnexpectedTrailingInput, position: rest })
            }
        },
        Err(e) => Err(e),
    }
}

} // verus!
