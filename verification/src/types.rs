//! Type signatures: base types chained by arrows.
use vstd::prelude::*;
use crate::ast::ValueType;
use crate::error::{ErrorKind, ParseError, agree, fail};
use crate::source::{CharClass, Source, has_pair, skip, word_at, word_end};

verus! {

/// The base type that the word `w` spells, if any.
pub open spec fn base_type_of(w: Seq<char>) -> Option<ValueType> {
    if w == "int"@ {
        Some(ValueType::Int)
    } else if w == "list"@ {
        Some(ValueType::List)
    } else if w == "matrix"@ {
        Some(ValueType::Matrix)
    } else {
        None
    }
}

/// One base type behind `pos`: a missing word is a syntax error, a word
/// that spells no base type an unknown type.
pub open spec fn spec_base_type(s: Seq<char>, pos: int) -> Result<(ValueType, int), ParseError> {
    let p = skip(s, pos);
    if word_end(s, p) == p {
        Err(fail(ErrorKind::SyntaxError, p))
    } else {
        match base_type_of(word_at(s, p)) {
            Some(t) => Ok((t, word_end(s, p))),
            None => Err(fail(ErrorKind::UnknownType, p)),
        }
    }
}

/// The base types of the chain `( "->" base )*` behind `pos`, appended to
/// `acc` in source order.
pub open spec fn spec_type_rest(s: Seq<char>, acc: Seq<ValueType>, pos: int) -> Result<
    (Seq<ValueType>, int),
    ParseError,
>
    decreases s.len() - pos,
{
    let p = skip(s, pos);
    if has_pair(s, p, '-', '>') {
        match spec_base_type(s, p + 2) {
            Ok((t, end)) => if end <= s.len() {
                spec_type_rest(s, acc.push(t), end)
            } else {
                Err(fail(ErrorKind::SyntaxError, end))
            },
            Err(e) => Err(e),
        }
    } else {
        Ok((acc, pos))
    }
}

/// A type signature behind `pos`: `base ( "->" base )*`.
pub open spec fn spec_type(s: Seq<char>, pos: int) -> Result<(Seq<ValueType>, int), ParseError> {
    match spec_base_type(s, pos) {
        Ok((t, end)) => spec_type_rest(s, seq![t], end),
        Err(e) => Err(e),
    }
}

/// Parses one base type behind `pos`.
pub fn parse_base_type(src: &Source, pos: usize) -> (out: Result<(ValueType, usize), ParseError>)
    requires
        src.wf(),
        pos <= src@.len(),
    ensures
        agree(out, spec_base_type(src@, pos as int), |t: ValueType| t),
        out matches Ok((_, end)) ==> pos <= end <= src@.len(),
        out matches Err(e) ==> e.position <= src@.len(),
{
    let p = src.skip_space(pos);
    let end = src.scan(p, CharClass::Word);
    if end == p {
        Err(ParseError { kind: ErrorKind::SyntaxError, position: p })
    } else if src.spells(p, end, "int") {
        Ok((ValueType::Int, end))
    } else if src.spells(p, end, "list") {
        Ok((ValueType::List, end))
    } else if src.spells(p, end, "matrix") {
        Ok((ValueType::Matrix, end))
    } else {
        Err(ParseError { kind: ErrorKind::UnknownType, position: p })
    }
}

/// Parses a type signature behind `pos` into its base types in source
/// order.
pub fn parse_type(src: &Source, pos: usize) -> (out: Result<(Vec<ValueType>, usize), ParseError>)
    requires
        src.wf(),
        pos <= src@.len(),
    ensures
        agree(out, spec_type(src@, pos as int), |v: Vec<ValueType>| v@),
        out matches Ok((_, end)) ==> pos <= end <= src@.len(),
        out matches Err(e) ==> e.position <= src@.len(),
{
    let mut types: Vec<ValueType> = Vec::new();
    let mut at: usize = match parse_base_type(src, pos) {
        Ok((t, end)) => {
            types.push(t);
            end
        },
        Err(e) => {
            return Err(e);
        },
    };
    assert(types@ =~= seq![spec_base_type(src@, pos as int)->Ok_0.0]);
    loop
        invariant
            src.wf(),
            pos <= at <= src@.len(),
            spec_type_rest(src@, types@, at as int) == spec_type(src@, pos as int),
        decreases src@.len() - at,
    {
        let p = src.skip_space(at);
        if !src.pair_at(p, '-', '>') {
            return Ok((types, at));
        }
        match parse_base_type(src, p + 2) {
            Ok((t, end)) => {
                types.push(t);
                at = end;
            },
            Err(e) => {
                return Err(e);
            },
        }
    }
}

} // verus!
