//! Every successful parsing step ends inside the text, and no earlier than
//! it started. The grammar's recursive definitions test this bound before
//! they go on, which is what makes them well-founded; the lemmas here show
//! that the test never fails.
use vstd::prelude::*;
use crate::ast::{BranchModel, ExprModel, PatternModel, ValueType};
use crate::definition::{spec_branch, spec_branches, spec_definition, spec_pattern, spec_patterns};
use crate::expr::{
    binary,
    spec_args,
    spec_atom,
    spec_call,
    spec_expr,
    spec_expr_rest,
    spec_term,
    spec_term_rest,
    starts_atom,
    has_expr_op,
    has_term_op,
};
use crate::source::{
    CharClass,
    Lexeme,
    has_char,
    has_pair,
    lemma_run_bounds,
    lexeme_at,
    run_end,
    skip,
    word_end,
};
use crate::types::{spec_base_type, spec_type, spec_type_rest};

verus! {

/// Whether a step from `pos` that ended at `end` stayed inside `s`.
pub open spec fn inside(s: Seq<char>, pos: int, end: int) -> bool {
    pos <= end <= s.len()
}

/// An atom is not empty and ends inside the text.
pub proof fn lemma_atom_bounds(s: Seq<char>, pos: int)
    requires
        0 <= pos <= s.len(),
    ensures
        spec_atom(s, pos) matches Ok((_, end)) ==> pos < end <= s.len(),
    decreases s.len() - pos, 0int,
{
    lemma_run_bounds(s, pos, CharClass::Space);
    let p = skip(s, pos);
    if has_char(s, p, '(') {
        lemma_expr_bounds(s, p + 1);
        if let Ok((_, end)) = spec_expr(s, p + 1) {
            lemma_run_bounds(s, end, CharClass::Space);
        }
    } else {
        lemma_run_bounds(s, p, CharClass::Word);
    }
}

/// The arguments of a call end inside the text.
pub proof fn lemma_args_bounds(s: Seq<char>, acc: Seq<ExprModel>, pos: int)
    requires
        0 <= pos <= s.len(),
    ensures
        spec_args(s, acc, pos) matches Ok((_, end)) ==> inside(s, pos, end),
    decreases s.len() - pos, 1int,
{
    lemma_run_bounds(s, pos, CharClass::Inline);
    let p = run_end(s, pos, CharClass::Inline);
    if starts_atom(s, p) && p < s.len() {
        lemma_atom_bounds(s, p);
        if let Ok((arg, end)) = spec_atom(s, p) {
            lemma_args_bounds(s, acc.push(arg), end);
        }
    }
}

/// A call is not empty and ends inside the text.
pub proof fn lemma_call_bounds(s: Seq<char>, pos: int)
    requires
        0 <= pos <= s.len(),
    ensures
        spec_call(s, pos) matches Ok((_, end)) ==> pos < end <= s.len(),
    decreases s.len() - pos, 2int,
{
    lemma_run_bounds(s, pos, CharClass::Space);
    let p = skip(s, pos);
    lemma_run_bounds(s, p, CharClass::Word);
    if lexeme_at(s, p) == Lexeme::Name {
        lemma_args_bounds(s, Seq::empty(), word_end(s, p));
    } else {
        lemma_atom_bounds(s, pos);
    }
}

/// A chain of `*` and `/` ends inside the text.
pub proof fn lemma_term_rest_bounds(s: Seq<char>, acc: ExprModel, pos: int)
    requires
        0 <= pos <= s.len(),
    ensures
        spec_term_rest(s, acc, pos) matches Ok((_, end)) ==> inside(s, pos, end),
    decreases s.len() - pos, 3int,
{
    lemma_run_bounds(s, pos, CharClass::Space);
    let p = skip(s, pos);
    if has_term_op(s, p) {
        lemma_call_bounds(s, p + 1);
        if let Ok((right, end)) = spec_call(s, p + 1) {
            lemma_term_rest_bounds(s, binary(s[p], acc, right), end);
        }
    }
}

/// A term is not empty and ends inside the text.
pub proof fn lemma_term_bounds(s: Seq<char>, pos: int)
    requires
        0 <= pos <= s.len(),
    ensures
        spec_term(s, pos) matches Ok((_, end)) ==> pos < end <= s.len(),
    decreases s.len() - pos, 4int,
{
    lemma_call_bounds(s, pos);
    if let Ok((left, end)) = spec_call(s, pos) {
        lemma_term_rest_bounds(s, left, end);
    }
}

/// A chain of `+` and `-` ends inside the text.
pub proof fn lemma_expr_rest_bounds(s: Seq<char>, acc: ExprModel, pos: int)
    requires
        0 <= pos <= s.len(),
    ensures
        spec_expr_rest(s, acc, pos) matches Ok((_, end)) ==> inside(s, pos, end),
    decreases s.len() - pos, 5int,
{
    lemma_run_bounds(s, pos, CharClass::Space);
    let p = skip(s, pos);
    if has_expr_op(s, p) {
        lemma_term_bounds(s, p + 1);
        if let Ok((right, end)) = spec_term(s, p + 1) {
            lemma_expr_rest_bounds(s, binary(s[p], acc, right), end);
        }
    }
}

/// An expression is not empty and ends inside the text.
pub proof fn lemma_expr_bounds(s: Seq<char>, pos: int)
    requires
        0 <= pos <= s.len(),
    ensures
        spec_expr(s, pos) matches Ok((_, end)) ==> pos < end <= s.len(),
    decreases s.len() - pos, 6int,
{
    lemma_term_bounds(s, pos);
    if let Ok((left, end)) = spec_term(s, pos) {
        lemma_expr_rest_bounds(s, left, end);
    }
}

/// A base type is not empty and ends inside the text.
pub proof fn lemma_base_type_bounds(s: Seq<char>, pos: int)
    requires
        0 <= pos <= s.len(),
    ensures
        spec_base_type(s, pos) matches Ok((_, end)) ==> pos < end <= s.len(),
{
    lemma_run_bounds(s, pos, CharClass::Space);
    lemma_run_bounds(s, skip(s, pos), CharClass::Word);
}

/// A chain of arrows and base types ends inside the text.
pub proof fn lemma_type_rest_bounds(s: Seq<char>, acc: Seq<ValueType>, pos: int)
    requires
        0 <= pos <= s.len(),
    ensures
        spec_type_rest(s, acc, pos) matches Ok((_, end)) ==> inside(s, pos, end),
    decreases s.len() - pos,
{
    lemma_run_bounds(s, pos, CharClass::Space);
    let p = skip(s, pos);
    if has_pair(s, p, '-', '>') {
        lemma_base_type_bounds(s, p + 2);
        if let Ok((t, end)) = spec_base_type(s, p + 2) {
            lemma_type_rest_bounds(s, acc.push(t), end);
        }
    }
}

/// A type signature is not empty and ends inside the text.
pub proof fn lemma_type_bounds(s: Seq<char>, pos: int)
    requires
        0 <= pos <= s.len(),
    ensures
        spec_type(s, pos) matches Ok((_, end)) ==> pos < end <= s.len(),
{
    lemma_base_type_bounds(s, pos);
    if let Ok((t, end)) = spec_base_type(s, pos) {
        lemma_type_rest_bounds(s, seq![t], end);
    }
}

/// A pattern element is not empty and ends inside the text.
pub proof fn lemma_pattern_bounds(s: Seq<char>, pos: int)
    requires
        0 <= pos <= s.len(),
    ensures
        spec_pattern(s, pos) matches Ok(Some((_, end))) ==> pos < end <= s.len(),
{
    lemma_run_bounds(s, pos, CharClass::Space);
    lemma_run_bounds(s, skip(s, pos), CharClass::Word);
}

/// A run of pattern elements ends inside the text.
pub proof fn lemma_patterns_bounds(s: Seq<char>, acc: Seq<PatternModel>, pos: int)
    requires
        0 <= pos <= s.len(),
    ensures
        spec_patterns(s, acc, pos) matches Ok((_, end)) ==> inside(s, pos, end),
    decreases s.len() - pos,
{
    lemma_pattern_bounds(s, pos);
    if let Ok(Some((element, end))) = spec_pattern(s, pos) {
        lemma_patterns_bounds(s, acc.push(element), end);
    }
}

/// A clause is not empty and ends inside the text.
pub proof fn lemma_branch_bounds(s: Seq<char>, pos: int)
    requires
        0 <= pos <= s.len(),
    ensures
        spec_branch(s, pos) matches Ok(Some((_, end))) ==> pos < end <= s.len(),
{
    lemma_run_bounds(s, pos, CharClass::Space);
    let p = skip(s, pos);
    lemma_run_bounds(s, p, CharClass::Word);
    if lexeme_at(s, p) == Lexeme::Name {
        lemma_patterns_bounds(s, Seq::empty(), word_end(s, p));
        if let Ok((_, end)) = spec_patterns(s, Seq::empty(), word_end(s, p)) {
            lemma_run_bounds(s, end, CharClass::Space);
            if has_char(s, skip(s, end), '=') {
                lemma_expr_bounds(s, skip(s, end) + 1);
            }
        }
    }
}

/// A run of clauses ends inside the text.
pub proof fn lemma_branches_bounds(s: Seq<char>, acc: Seq<BranchModel>, pos: int)
    requires
        0 <= pos <= s.len(),
    ensures
        spec_branches(s, acc, pos) matches Ok((_, end)) ==> inside(s, pos, end),
    decreases s.len() - pos,
{
    lemma_branch_bounds(s, pos);
    if let Ok(Some((branch, end))) = spec_branch(s, pos) {
        lemma_branches_bounds(s, acc.push(branch), end);
    }
}

/// A definition is not empty and ends inside the text.
pub proof fn lemma_definition_bounds(s: Seq<char>, pos: int)
    requires
        0 <= pos <= s.len(),
    ensures
        spec_definition(s, pos) matches Ok((_, end)) ==> pos < end <= s.len(),
{
    lemma_run_bounds(s, pos, CharClass::Space);
    let p = skip(s, pos);
    lemma_run_bounds(s, p, CharClass::Word);
    lemma_run_bounds(s, word_end(s, p), CharClass::Space);
    let q = skip(s, word_end(s, p));
    if lexeme_at(s, p) == Lexeme::Name && has_pair(s, q, ':', ':') {
        lemma_type_bounds(s, q + 2);
        if let Ok((_, end)) = spec_type(s, q + 2) {
            lemma_branch_bounds(s, end);
            if let Ok(Some((first, stop))) = spec_branch(s, end) {
                lemma_branches_bounds(s, seq![first], stop);
            }
        }
    }
}

} // verus!
