//! Properties of the grammar that hold of every input.
use vstd::prelude::*;
use crate::ast::{
    BranchModel,
    DefinitionModel,
    ExprModel,
    Literal,
    Program,
    ProgramModel,
    ValueType,
};
use crate::definition::{spec_branch, spec_definition, spec_pattern};
use crate::error::{ErrorKind, ParseError, fail};
use crate::expr::{spec_atom, spec_call, spec_expr, spec_expr_rest, spec_term, spec_term_rest};
use crate::program::{parses_to, spec_expression, spec_program};
use crate::source::{
    CharClass,
    Lexeme,
    digits_value,
    in_class,
    is_digit,
    run_end,
    has_pair,
    lexeme_at,
    skip,
    word_at,
    word_end,
};
use crate::types::{base_type_of, spec_base_type, spec_type, spec_type_rest};

verus! {

/// The empty text is a program without definitions.
pub proof fn lemma_empty_program(s: Seq<char>)
    requires
        s.len() == 0,
    ensures
        spec_program(s) == Ok::<ProgramModel, ParseError>(
            ProgramModel { definitions: Seq::empty() },
        ),
{
}

/// A text of blank space alone is a program without definitions.
pub proof fn lemma_blank_program(s: Seq<char>)
    requires
        skip(s, 0) >= s.len(),
    ensures
        spec_program(s) == Ok::<ProgramModel, ParseError>(
            ProgramModel { definitions: Seq::empty() },
        ),
{
}

/// A word of digits in atom position is the integer literal that the digits
/// write, and ends where the word ends; where that number exceeds
/// `i32::MAX`, the atom is a numeric overflow at the word.
pub proof fn lemma_integer_atom(s: Seq<char>, pos: int)
    requires
        lexeme_at(s, skip(s, pos)) == Lexeme::Number,
    ensures
        digits_value(word_at(s, skip(s, pos))) <= i32::MAX ==> spec_atom(s, pos) == Ok::<
            (ExprModel, int),
            ParseError,
        >(
            (
                ExprModel::Literal(
                    Literal::Literal(digits_value(word_at(s, skip(s, pos))) as i32),
                ),
                word_end(s, skip(s, pos)),
            ),
        ),
        digits_value(word_at(s, skip(s, pos))) > i32::MAX ==> spec_atom(s, pos) == Err::<
            (ExprModel, int),
            ParseError,
        >(fail(ErrorKind::NumericOverflow, skip(s, pos))),
{
}

/// Where every character from `pos` on belongs to `class`, the run that
/// starts at `pos` reaches the end of the text.
pub proof fn lemma_run_covers(s: Seq<char>, pos: int, class: CharClass)
    requires
        0 <= pos <= s.len(),
        forall|i: int| pos <= i < s.len() ==> in_class(#[trigger] s[i], class),
    ensures
        run_end(s, pos, class) == s.len(),
    decreases s.len() - pos,
{
    if pos < s.len() {
        lemma_run_covers(s, pos + 1, class);
    }
}

/// A text of digits alone is, as an expression, the integer literal that
/// the digits write; where that number exceeds `i32::MAX`, it is a numeric
/// overflow at the start.
pub proof fn lemma_integer_expression(s: Seq<char>)
    requires
        s.len() > 0,
        forall|i: int| 0 <= i < s.len() ==> is_digit(#[trigger] s[i]),
    ensures
        digits_value(s) <= i32::MAX ==> spec_expression(s) == Ok::<ExprModel, ParseError>(
            ExprModel::Literal(Literal::Literal(digits_value(s) as i32)),
        ),
        digits_value(s) > i32::MAX ==> spec_expression(s) == Err::<ExprModel, ParseError>(
            fail(ErrorKind::NumericOverflow, 0),
        ),
{
    let n = s.len() as int;
    assert forall|i: int| 0 <= i < s.len() implies in_class(#[trigger] s[i], CharClass::Digit) by {
        assert(is_digit(s[i]));
    }
    assert forall|i: int| 0 <= i < s.len() implies in_class(#[trigger] s[i], CharClass::Word) by {
        assert(is_digit(s[i]));
    }
    lemma_run_covers(s, 0, CharClass::Digit);
    lemma_run_covers(s, 0, CharClass::Word);
    assert(is_digit(s[0]));
    assert(skip(s, 0) == 0);
    assert(skip(s, n) == n);
    assert(word_at(s, 0) =~= s);
    assert(lexeme_at(s, 0) == Lexeme::Number);
    lemma_integer_atom(s, 0);
    let atom = spec_atom(s, 0);
    assert(spec_call(s, 0) == atom);
    if digits_value(s) <= i32::MAX {
        let e = atom->Ok_0.0;
        assert(spec_term_rest(s, e, n) == Ok::<(ExprModel, int), ParseError>((e, n)));
        assert(spec_term(s, 0) == Ok::<(ExprModel, int), ParseError>((e, n)));
        assert(spec_expr_rest(s, e, n) == Ok::<(ExprModel, int), ParseError>((e, n)));
        assert(spec_expr(s, 0) == Ok::<(ExprModel, int), ParseError>((e, n)));
    } else {
        assert(spec_term(s, 0) == atom);
        assert(spec_expr(s, 0) == atom);
    }
}

/// A literal word in pattern position is never a variable: the pattern is a
/// literal, or the word is a number out of range.
pub proof fn lemma_literal_pattern(s: Seq<char>, pos: int)
    requires
        lexeme_at(s, skip(s, pos)) == Lexeme::Number || lexeme_at(s, skip(s, pos))
            == Lexeme::NotANumber,
    ensures
        match spec_pattern(s, pos) {
            Ok(Some((element, end))) => element is Literal && end == word_end(s, skip(s, pos)),
            Ok(None) => false,
            Err(e) => e == fail(ErrorKind::NumericOverflow, skip(s, pos)),
        },
{
}

/// A signature that no clause follows is a missing branch, and a program
/// that starts with it fails in that way.
pub proof fn lemma_missing_branch(s: Seq<char>, pos: int, args: Seq<ValueType>, end: int)
    requires
        lexeme_at(s, skip(s, pos)) == Lexeme::Name,
        has_pair(s, skip(s, word_end(s, skip(s, pos))), ':', ':'),
        spec_type(s, skip(s, word_end(s, skip(s, pos))) + 2) == Ok::<
            (Seq<ValueType>, int),
            ParseError,
        >((args, end)),
        spec_branch(s, end) == Ok::<Option<(BranchModel, int)>, ParseError>(None),
    ensures
        spec_definition(s, pos) == Err::<(DefinitionModel, int), ParseError>(
            fail(ErrorKind::MissingBranch, skip(s, end)),
        ),
        pos == 0 ==> spec_program(s) == Err::<ProgramModel, ParseError>(
            fail(ErrorKind::MissingBranch, skip(s, end)),
        ),
{
}

/// A type signature whose first word spells no base type is an unknown
/// type at that word.
pub proof fn lemma_unknown_first_type(s: Seq<char>, pos: int)
    requires
        word_end(s, skip(s, pos)) != skip(s, pos),
        base_type_of(word_at(s, skip(s, pos))) is None,
    ensures
        spec_base_type(s, pos) == Err::<(ValueType, int), ParseError>(
            fail(ErrorKind::UnknownType, skip(s, pos)),
        ),
        spec_type(s, pos) == Err::<(Seq<ValueType>, int), ParseError>(
            fail(ErrorKind::UnknownType, skip(s, pos)),
        ),
{
}

/// A definition whose signature starts with a word that spells no base
/// type is an unknown type at that word, and a program that starts with it
/// fails in that way.
pub proof fn lemma_unknown_type_in_definition(s: Seq<char>, pos: int)
    requires
        lexeme_at(s, skip(s, pos)) == Lexeme::Name,
        has_pair(s, skip(s, word_end(s, skip(s, pos))), ':', ':'),
        word_end(s, skip(s, skip(s, word_end(s, skip(s, pos))) + 2)) != skip(
            s,
            skip(s, word_end(s, skip(s, pos))) + 2,
        ),
        base_type_of(word_at(s, skip(s, skip(s, word_end(s, skip(s, pos))) + 2))) is None,
    ensures
        spec_definition(s, pos) == Err::<(DefinitionModel, int), ParseError>(
            fail(ErrorKind::UnknownType, skip(s, skip(s, word_end(s, skip(s, pos))) + 2)),
        ),
        pos == 0 ==> spec_program(s) == Err::<ProgramModel, ParseError>(
            fail(ErrorKind::UnknownType, skip(s, skip(s, word_end(s, skip(s, pos))) + 2)),
        ),
{
    lemma_unknown_first_type(s, skip(s, word_end(s, skip(s, pos))) + 2);
}

/// Whatever base types came before: where an arrow is followed by a word
/// that spells no base type, the signature is an unknown type at that
/// word.
pub proof fn lemma_unknown_later_type(s: Seq<char>, acc: Seq<ValueType>, pos: int)
    requires
        has_pair(s, skip(s, pos), '-', '>'),
        word_end(s, skip(s, skip(s, pos) + 2)) != skip(s, skip(s, pos) + 2),
        base_type_of(word_at(s, skip(s, skip(s, pos) + 2))) is None,
    ensures
        spec_type_rest(s, acc, pos) == Err::<(Seq<ValueType>, int), ParseError>(
            fail(ErrorKind::UnknownType, skip(s, skip(s, pos) + 2)),
        ),
{
}

/// Two outcomes of parsing one text are the same failure, or programs
/// with the same model.
pub proof fn lemma_parse_deterministic(
    s: Seq<char>,
    a: Result<Program, ParseError>,
    b: Result<Program, ParseError>,
)
    requires
        parses_to(s, a),
        parses_to(s, b),
    ensures
        match (a, b) {
            (Ok(x), Ok(y)) => x@ == y@,
            (Err(x), Err(y)) => x == y,
            _ => false,
        },
{
}

} // verus!
