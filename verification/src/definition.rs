//! Definitions: a signature line followed by one or more clauses.
use vstd::prelude::*;
use crate::ast::{
    Branch,
    BranchModel,
    Definition,
    DefinitionModel,
    Literal,
    PatternElement,
    PatternModel,
    branch_models,
    pattern_models,
};
use crate::error::{ErrorKind, ParseError, agree, agree_opt, fail};
use crate::expr::{parse_expr, spec_expr};
use crate::source::{
    Lexeme,
    Source,
    has_char,
    has_pair,
    lexeme_at,
    number_literal,
    skip,
    word_at,
    word_end,
};
use crate::types::{parse_type, spec_type};

verus! {

/// The pattern element behind `pos`, if a word starts there. A literal word
/// is always a literal pattern; only a name is a variable.
pub open spec fn spec_pattern(s: Seq<char>, pos: int) -> Result<
    Option<(PatternModel, int)>,
    ParseError,
> {
    let p = skip(s, pos);
    match lexeme_at(s, p) {
        Lexeme::Nothing => Ok(None),
        Lexeme::Number => match number_literal(word_at(s, p), p) {
            Ok(l) => Ok(Some((PatternModel::Literal(l), word_end(s, p)))),
            Err(e) => Err(e),
        },
        Lexeme::NotANumber => Ok(Some((PatternModel::Literal(Literal::NaN), word_end(s, p)))),
        Lexeme::Name => Ok(Some((PatternModel::Variable(word_at(s, p)), word_end(s, p)))),
    }
}

/// The pattern elements behind `pos`, appended to `acc` in order.
pub open spec fn spec_patterns(s: Seq<char>, acc: Seq<PatternModel>, pos: int) -> Result<
    (Seq<PatternModel>, int),
    ParseError,
>
    decreases s.len() - pos,
{
    match spec_pattern(s, pos) {
        Ok(Some((element, end))) => if pos < end <= s.len() {
            spec_patterns(s, acc.push(element), end)
        } else {
            Err(fail(ErrorKind::SyntaxError, end))
        },
        Ok(None) => Ok((acc, pos)),
        Err(e) => Err(e),
    }
}

/// `branch := name pattern* "=" expr`. Where no name starts, or no `=`
/// follows the patterns, no clause stands behind `pos`. The name is
/// consumed and not kept.
pub open spec fn spec_branch(s: Seq<char>, pos: int) -> Result<
    Option<(BranchModel, int)>,
    ParseError,
> {
    let p = skip(s, pos);
    if lexeme_at(s, p) != Lexeme::Name {
        Ok(None)
    } else {
        match spec_patterns(s, Seq::empty(), word_end(s, p)) {
            Ok((pattern, end)) => if has_char(s, skip(s, end), '=') {
                match spec_expr(s, skip(s, end) + 1) {
                    Ok((expression, stop)) => Ok(Some((BranchModel { pattern, expression }, stop))),
                    Err(e) => Err(e),
                }
            } else {
                Ok(None)
            },
            Err(e) => Err(e),
        }
    }
}

/// The clauses behind `pos`, appended to `acc` in order.
pub open spec fn spec_branches(s: Seq<char>, acc: Seq<BranchModel>, pos: int) -> Result<
    (Seq<BranchModel>, int),
    ParseError,
>
    decreases s.len() - pos,
{
    match spec_branch(s, pos) {
        Ok(Some((branch, end))) => if pos < end <= s.len() {
            spec_branches(s, acc.push(branch), end)
        } else {
            Err(fail(ErrorKind::SyntaxError, end))
        },
        Ok(None) => Ok((acc, pos)),
        Err(e) => Err(e),
    }
}

/// `definition := name "::" type branch+`. The name is that of the
/// signature line. Where no name starts, the input is unexpected; a
/// missing `::` is a syntax error; a signature without a clause is a
/// missing branch.
pub open spec fn spec_definition(s: Seq<char>, pos: int) -> Result<
    (DefinitionModel, int),
    ParseError,
> {
    let p = skip(s, pos);
    let q = skip(s, word_end(s, p));
    if lexeme_at(s, p) != Lexeme::Name {
        Err(fail(ErrorKind::UnexpectedTrailingInput, p))
    } else if !has_pair(s, q, ':', ':') {
        Err(fail(ErrorKind::SyntaxError, q))
    } else {
        match spec_type(s, q + 2) {
            Ok((args, end)) => match spec_branch(s, end) {
                Ok(Some((first, stop))) => match spec_branches(s, seq![first], stop) {
                    Ok((branches, last)) => Ok(
                        (DefinitionModel { args, name: word_at(s, p), branches }, last),
                    ),
                    Err(e) => Err(e),
                },
                Ok(None) => Err(fail(ErrorKind::MissingBranch, skip(s, end))),
                Err(e) => Err(e),
            },
            Err(e) => Err(e),
        }
    }
}

/// Parses the pattern element behind `pos`, if there is one.
pub fn parse_pattern(src: &Source, pos: usize) -> (out: Result<
    Option<(PatternElement, usize)>,
    ParseError,
>)
    requires
        src.wf(),
        pos <= src@.len(),
    ensures
        agree_opt(out, spec_pattern(src@, pos as int), |p: PatternElement| p@),
        out matches Ok(Some((_, end))) ==> pos < end <= src@.len(),
        out matches Err(e) ==> e.position <= src@.len(),
{
    let p = src.skip_space(pos);
    let (kind, end) = src.lexeme(p);
    match kind {
        Lexeme::Nothing => Ok(None),
        Lexeme::Number => match src.number(p, end) {
            Ok(l) => Ok(Some((PatternElement::Literal(l), end))),
            Err(e) => Err(e),
        },
        Lexeme::NotANumber => Ok(Some((PatternElement::Literal(Literal::NaN), end))),
        Lexeme::Name => Ok(Some((PatternElement::Variable(src.slice(p, end)), end))),
    }
}

/// Parses the pattern elements behind `pos`.
pub fn parse_patterns(src: &Source, pos: usize) -> (out: Result<
    (Vec<PatternElement>, usize),
    ParseError,
>)
    requires
        src.wf(),
        pos <= src@.len(),
    ensures
        agree(
            out,
            spec_patterns(src@, Seq::empty(), pos as int),
            |v: Vec<PatternElement>| pattern_models(v@),
        ),
        out matches Ok((_, end)) ==> pos <= end <= src@.len(),
        out matches Err(e) ==> e.position <= src@.len(),
{
    let mut elements: Vec<PatternElement> = Vec::new();
    let mut at: usize = pos;
    assert(pattern_models(elements@) =~= Seq::empty());
    loop
        invariant
            src.wf(),
            pos <= at <= src@.len(),
            spec_patterns(src@, pattern_models(elements@), at as int) == spec_patterns(
                src@,
                Seq::empty(),
                pos as int,
            ),
        decreases src@.len() - at,
    {
        match parse_pattern(src, at) {
            Ok(Some((element, end))) => {
                assert(pattern_models(elements@.push(element)) =~= pattern_models(
                    elements@,
                ).push(element@));
                elements.push(element);
                at = end;
            },
            Ok(None) => {
                return Ok((elements, at));
            },
            Err(e) => {
                return Err(e);
            },
        }
    }
}

/// Parses the clause behind `pos`, if there is one.
pub fn parse_branch(src: &Source, pos: usize) -> (out: Result<Option<(Branch, usize)>, ParseError>)
    requires
        src.wf(),
        pos <= src@.len(),
    ensures
        agree_opt(out, spec_branch(src@, pos as int), |b: Branch| b@),
        out matches Ok(Some((_, end))) ==> pos < end <= src@.len(),
        out matches Err(e) ==> e.position <= src@.len(),
{
    let p = src.skip_space(pos);
    let (kind, name_end) = src.lexeme(p);
    if kind != Lexeme::Name {
        return Ok(None);
    }
    let (pattern, end) = match parse_patterns(src, name_end) {
        Ok(found) => found,
        Err(e) => {
            return Err(e);
        },
    };
    let q = src.skip_space(end);
    if !src.is_at(q, '=') {
        return Ok(None);
    }
    match parse_expr(src, q + 1) {
        Ok((expression, stop)) => Ok(Some((Branch { pattern, expression }, stop))),
        Err(e) => Err(e),
    }
}

/// Parses the definition behind `pos`.
pub fn parse_definition(src: &Source, pos: usize) -> (out: Result<(Definition, usize), ParseError>)
    requires
        src.wf(),
        pos <= src@.len(),
    ensures
        agree(out, spec_definition(src@, pos as int), |d: Definition| d@),
        out matches Ok((_, end)) ==> pos < end <= src@.len(),
        out matches Err(e) ==> e.position <= src@.len(),
{
    let p = src.skip_space(pos);
    let (kind, name_end) = src.lexeme(p);
    if kind != Lexeme::Name {
        return Err(ParseError { kind: ErrorKind::UnexpectedTrailingInput, position: p });
    }
    let q = src.skip_space(name_end);
    if !src.pair_at(q, ':', ':') {
        return Err(ParseError { kind: ErrorKind::SyntaxError, position: q });
    }
    let (args, end) = match parse_type(src, q + 2) {
        Ok(found) => found,
        Err(e) => {
            return Err(e);
        },
    };
    let mut branches: Vec<Branch> = Vec::new();
    let mut at: usize = match parse_branch(src, end) {
        Ok(Some((first, stop))) => {
            assert(branch_models(branches@.push(first)) =~= seq![first@]);
            branches.push(first);
            stop
        },
        Ok(None) => {
            let at = src.skip_space(end);
            return Err(ParseError { kind: ErrorKind::MissingBranch, position: at });
        },
        Err(e) => {
            return Err(e);
        },
    };
    let ghost first_stop = at;
    let ghost first = branch_models(branches@);
    loop
        invariant
            src.wf(),
            pos <= p < name_end <= at <= src@.len(),
            p == skip(src@, pos as int),
            name_end == word_end(src@, p as int),
            spec_branches(src@, branch_models(branches@), at as int) == spec_branches(
                src@,
                first,
                first_stop as int,
            ),
            match spec_branches(src@, first, first_stop as int) {
                Ok((all, last)) => spec_definition(src@, pos as int) == Ok::<
                    (DefinitionModel, int),
                    ParseError,
                >(
                    (
                        DefinitionModel {
                            args: args@,
                            name: word_at(src@, p as int),
                            branches: all,
                        },
                        last,
                    ),
                ),
                Err(e) => spec_definition(src@, pos as int) == Err::<
                    (DefinitionModel, int),
                    ParseError,
                >(e),
            },
        decreases src@.len() - at,
    {
        match parse_branch(src, at) {
            Ok(Some((next, stop))) => {
                assert(branch_models(branches@.push(next)) =~= branch_models(branches@).push(
                    next@,
                ));
                branches.push(next);
                at = stop;
            },
            Ok(None) => {
                let name = src.slice(p, name_end);
                return Ok((Definition { args, name, branches }, at));
            },
            Err(e) => {
                return Err(e);
            },
        }
    }
}

} // verus!
