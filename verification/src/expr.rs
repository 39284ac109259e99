//! Expressions: two left-associative levels of binary operators over
//! calls and atoms.
//!
//! The grammar is written as functions from a text and an offset to a tree
//! and the offset behind it. A function that goes on behind a step first
//! tests that the step ended inside the text and past its start, which
//! makes the definitions well-founded; the module `bounds` shows that the
//! test holds of every step.
use vstd::prelude::*;
use vstd::string::StringExecFns;
use crate::ast::{Expr, ExprModel, Literal, expr_models, lemma_expr_models_push};
use crate::error::{ErrorKind, ParseError, agree, fail};
use crate::source::{
    CharClass,
    Lexeme,
    Source,
    has_char,
    lexeme_at,
    number_literal,
    run_end,
    skip,
    word_at,
    word_end,
};

verus! {

/// The name under which the operator `op` is recorded.
pub open spec fn op_name(op: char) -> Seq<char> {
    if op == '+' {
        "+"@
    } else if op == '-' {
        "-"@
    } else if op == '*' {
        "*"@
    } else {
        "/"@
    }
}

/// The application of the binary operator `op` to `left` and `right`: a call
/// of the operator's name with exactly these two arguments.
pub open spec fn binary(op: char, left: ExprModel, right: ExprModel) -> ExprModel {
    ExprModel::FunctionCall(op_name(op), seq![left, right])
}

/// Whether an atom can start at `pos`: a word or an opening parenthesis.
pub open spec fn starts_atom(s: Seq<char>, pos: int) -> bool {
    has_char(s, pos, '(') || word_end(s, pos) != pos
}

/// The atom that is a single word at `pos`: a number, the reserved word, or
/// a variable. Where no word starts, a syntax error.
pub open spec fn spec_leaf(s: Seq<char>, pos: int) -> Result<(ExprModel, int), ParseError> {
    match lexeme_at(s, pos) {
        Lexeme::Nothing => Err(fail(ErrorKind::SyntaxError, pos)),
        Lexeme::Number => match number_literal(word_at(s, pos), pos) {
            Ok(l) => Ok((ExprModel::Literal(l), word_end(s, pos))),
            Err(e) => Err(e),
        },
        Lexeme::NotANumber => Ok((ExprModel::Literal(Literal::NaN), word_end(s, pos))),
        Lexeme::Name => Ok((ExprModel::Variable(word_at(s, pos)), word_end(s, pos))),
    }
}

/// `atom := literal | name | "(" expr ")"`.
pub open spec fn spec_atom(s: Seq<char>, pos: int) -> Result<(ExprModel, int), ParseError>
    decreases s.len() - pos, 0int,
{
    let p = skip(s, pos);
    if has_char(s, p, '(') {
        match spec_expr(s, p + 1) {
            Ok((inner, end)) => if has_char(s, skip(s, end), ')') {
                Ok((inner, skip(s, end) + 1))
            } else {
                Err(fail(ErrorKind::SyntaxError, skip(s, end)))
            },
            Err(e) => Err(e),
        }
    } else {
        spec_leaf(s, p)
    }
}

/// The atoms that follow `pos` on its line, appended to `acc` in order.
pub open spec fn spec_args(s: Seq<char>, acc: Seq<ExprModel>, pos: int) -> Result<
    (Seq<ExprModel>, int),
    ParseError,
>
    decreases s.len() - pos, 1int,
{
    let p = run_end(s, pos, CharClass::Inline);
    if starts_atom(s, p) && p < s.len() {
        match spec_atom(s, p) {
            Ok((arg, end)) => if pos < end <= s.len() {
                spec_args(s, acc.push(arg), end)
            } else {
                Err(fail(ErrorKind::SyntaxError, end))
            },
            Err(e) => Err(e),
        }
    } else {
        Ok((acc, pos))
    }
}

/// `call := atom | name atom+`: a name followed on its line by atoms is a
/// call of that name; a name alone is a variable.
pub open spec fn spec_call(s: Seq<char>, pos: int) -> Result<(ExprModel, int), ParseError>
    decreases s.len() - pos, 2int,
{
    let p = skip(s, pos);
    if lexeme_at(s, p) == Lexeme::Name && word_end(s, p) <= s.len() {
        match spec_args(s, Seq::empty(), word_end(s, p)) {
            Ok((args, end)) => if args.len() == 0 {
                Ok((ExprModel::Variable(word_at(s, p)), end))
            } else {
                Ok((ExprModel::FunctionCall(word_at(s, p), args), end))
            },
            Err(e) => Err(e),
        }
    } else {
        spec_atom(s, pos)
    }
}

/// Whether `*` or `/` stands at `pos`.
pub open spec fn has_term_op(s: Seq<char>, pos: int) -> bool {
    has_char(s, pos, '*') || has_char(s, pos, '/')
}

/// Whether `+` or `-` stands at `pos`.
pub open spec fn has_expr_op(s: Seq<char>, pos: int) -> bool {
    has_char(s, pos, '+') || has_char(s, pos, '-')
}

/// The chain `( ( "*" | "/" ) call )*` behind `pos`, folded from the left
/// onto `acc`.
pub open spec fn spec_term_rest(s: Seq<char>, acc: ExprModel, pos: int) -> Result<
    (ExprModel, int),
    ParseError,
>
    decreases s.len() - pos, 3int,
{
    let p = skip(s, pos);
    if has_term_op(s, p) {
        match spec_call(s, p + 1) {
            Ok((right, end)) => if pos < end <= s.len() {
                spec_term_rest(s, binary(s[p], acc, right), end)
            } else {
                Err(fail(ErrorKind::SyntaxError, end))
            },
            Err(e) => Err(e),
        }
    } else {
        Ok((acc, pos))
    }
}

/// `term := call ( ( "*" | "/" ) call )*`, left-associative.
pub open spec fn spec_term(s: Seq<char>, pos: int) -> Result<(ExprModel, int), ParseError>
    decreases s.len() - pos, 4int,
{
    match spec_call(s, pos) {
        Ok((left, end)) => if pos <= end <= s.len() {
            spec_term_rest(s, left, end)
        } else {
            Err(fail(ErrorKind::SyntaxError, end))
        },
        Err(e) => Err(e),
    }
}

/// The chain `( ( "+" | "-" ) term )*` behind `pos`, folded from the left
/// onto `acc`.
pub open spec fn spec_expr_rest(s: Seq<char>, acc: ExprModel, pos: int) -> Result<
    (ExprModel, int),
    ParseError,
>
    decreases s.len() - pos, 5int,
{
    let p = skip(s, pos);
    if has_expr_op(s, p) {
        match spec_term(s, p + 1) {
            Ok((right, end)) => if pos < end <= s.len() {
                spec_expr_rest(s, binary(s[p], acc, right), end)
            } else {
                Err(fail(ErrorKind::SyntaxError, end))
            },
            Err(e) => Err(e),
        }
    } else {
        Ok((acc, pos))
    }
}

/// `expr := term ( ( "+" | "-" ) term )*`, left-associative.
pub open spec fn spec_expr(s: Seq<char>, pos: int) -> Result<(ExprModel, int), ParseError>
    decreases s.len() - pos, 6int,
{
    match spec_term(s, pos) {
        Ok((left, end)) => if pos <= end <= s.len() {
            spec_expr_rest(s, left, end)
        } else {
            Err(fail(ErrorKind::SyntaxError, end))
        },
        Err(e) => Err(e),
    }
}

/// Builds the call of `name` with the arguments `args`.
pub fn make_call(name: String, args: Vec<Expr>) -> (e: Expr)
    ensures
        e@ == ExprModel::FunctionCall(name@, expr_models(args@)),
{
    Expr::FunctionCall(name, args)
}

/// Builds the application of the binary operator `op` to `left` and `right`.
pub fn make_binary(op: char, left: Expr, right: Expr) -> (e: Expr)
    ensures
        e@ == binary(op, left@, right@),
{
    let name = if op == '+' {
        String::from_str("+")
    } else if op == '-' {
        String::from_str("-")
    } else if op == '*' {
        String::from_str("*")
    } else {
        String::from_str("/")
    };
    let mut args: Vec<Expr> = Vec::new();
    proof {
        lemma_expr_models_push(args@, left);
        lemma_expr_models_push(args@.push(left), right);
    }
    args.push(left);
    args.push(right);
    assert(expr_models(args@) =~= seq![left@, right@]);
    make_call(name, args)
}

/// Parses the single-word atom at `pos`.
pub fn parse_leaf(src: &Source, pos: usize) -> (out: Result<(Expr, usize), ParseError>)
    requires
        src.wf(),
        pos <= src@.len(),
    ensures
        agree(out, spec_leaf(src@, pos as int), |e: Expr| e@),
        out matches Ok((_, end)) ==> pos < end <= src@.len(),
        out matches Err(e) ==> e.position <= src@.len(),
{
    let (kind, end) = src.lexeme(pos);
    match kind {
        Lexeme::Nothing => Err(ParseError { kind: ErrorKind::SyntaxError, position: pos }),
        Lexeme::Number => match src.number(pos, end) {
            Ok(l) => Ok((Expr::Literal(l), end)),
            Err(e) => Err(e),
        },
        Lexeme::NotANumber => Ok((Expr::Literal(Literal::NaN), end)),
        Lexeme::Name => Ok((Expr::Variable(src.slice(pos, end)), end)),
    }
}

/// Parses an atom behind `pos`.
pub fn parse_atom(src: &Source, pos: usize) -> (out: Result<(Expr, usize), ParseError>)
    requires
        src.wf(),
        pos <= src@.len(),
    ensures
        agree(out, spec_atom(src@, pos as int), |e: Expr| e@),
        out matches Ok((_, end)) ==> pos < end <= src@.len(),
        out matches Err(e) ==> e.position <= src@.len(),
    decreases src@.len() - pos, 0int,
{
    let p = src.skip_space(pos);
    if src.is_at(p, '(') {
        match parse_expr(src, p + 1) {
            Ok((inner, end)) => {
                let q = src.skip_space(end);
                if src.is_at(q, ')') {
                    Ok((inner, q + 1))
                } else {
                    Err(ParseError { kind: ErrorKind::SyntaxError, position: q })
                }
            },
            Err(e) => Err(e),
        }
    } else {
        parse_leaf(src, p)
    }
}

/// Parses a call or an atom behind `pos`.
pub fn parse_call(src: &Source, pos: usize) -> (out: Result<(Expr, usize), ParseError>)
    requires
        src.wf(),
        pos <= src@.len(),
    ensures
        agree(out, spec_call(src@, pos as int), |e: Expr| e@),
        out matches Ok((_, end)) ==> pos < end <= src@.len(),
        out matches Err(e) ==> e.position <= src@.len(),
    decreases src@.len() - pos, 2int,
{
    let p = src.skip_space(pos);
    let (kind, name_end) = src.lexeme(p);
    if kind != Lexeme::Name {
        return parse_atom(src, pos);
    }
    let mut args: Vec<Expr> = Vec::new();
    let mut at: usize = name_end;
    assert(expr_models(args@) =~= Seq::empty());
    loop
        invariant
            src.wf(),
            pos <= p < name_end <= at <= src@.len(),
            p == skip(src@, pos as int),
            name_end == word_end(src@, p as int),
            lexeme_at(src@, p as int) == Lexeme::Name,
            args@.len() == 0 <==> expr_models(args@).len() == 0,
            spec_args(src@, expr_models(args@), at as int) == spec_args(
                src@,
                Seq::empty(),
                name_end as int,
            ),
        decreases src@.len() - at,
    {
        let q = src.scan(at, CharClass::Inline);
        let (next, _) = src.lexeme(q);
        if !(src.is_at(q, '(') || next != Lexeme::Nothing) {
            let name = src.slice(p, name_end);
            return if args.len() == 0 {
                Ok((Expr::Variable(name), at))
            } else {
                Ok((make_call(name, args), at))
            };
        }
        match parse_atom(src, q) {
            Ok((arg, end)) => {
                proof {
                    lemma_expr_models_push(args@, arg);
                }
                args.push(arg);
                at = end;
            },
            Err(e) => {
                return Err(e);
            },
        }
    }
}

/// Parses a term behind `pos`.
pub fn parse_term(src: &Source, pos: usize) -> (out: Result<(Expr, usize), ParseError>)
    requires
        src.wf(),
        pos <= src@.len(),
    ensures
        agree(out, spec_term(src@, pos as int), |e: Expr| e@),
        out matches Ok((_, end)) ==> pos < end <= src@.len(),
        out matches Err(e) ==> e.position <= src@.len(),
    decreases src@.len() - pos, 4int,
{
    let (mut acc, mut at) = match parse_call(src, pos) {
        Ok(found) => found,
        Err(e) => {
            return Err(e);
        },
    };
    loop
        invariant
            src.wf(),
            pos < at <= src@.len(),
            spec_term_rest(src@, acc@, at as int) == spec_term(src@, pos as int),
        decreases src@.len() - at,
    {
        let p = src.skip_space(at);
        let op = if src.is_at(p, '*') {
            '*'
        } else if src.is_at(p, '/') {
            '/'
        } else {
            return Ok((acc, at));
        };
        match parse_call(src, p + 1) {
            Ok((right, end)) => {
                acc = make_binary(op, acc, right);
                at = end;
            },
            Err(e) => {
                return Err(e);
            },
        }
    }
}

/// Parses an expression behind `pos`.
pub fn parse_expr(src: &Source, pos: usize) -> (out: Result<(Expr, usize), ParseError>)
    requires
        src.wf(),
        pos <= src@.len(),
    ensures
        agree(out, spec_expr(src@, pos as int), |e: Expr| e@),
        out matches Ok((_, end)) ==> pos < end <= src@.len(),
        out matches Err(e) ==> e.position <= src@.len(),
    decreases src@.len() - pos, 6int,
{
    let (mut acc, mut at) = match parse_term(src, pos) {
        Ok(found) => found,
        Err(e) => {
            return Err(e);
        },
    };
    loop
        invariant
            src.wf(),
            pos < at <= src@.len(),
            spec_expr_rest(src@, acc@, at as int) == spec_expr(src@, pos as int),
        decreases src@.len() - at,
    {
        let p = src.skip_space(at);
        let op = if src.is_at(p, '+') {
            '+'
        } else if src.is_at(p, '-') {
            '-'
        } else {
            return Ok((acc, at));
        };
        match parse_term(src, p + 1) {
            Ok((right, end)) => {
                acc = make_binary(op, acc, right);
                at = end;
            },
            Err(e) => {
                return Err(e);
            },
        }
    }
}

} // verus!
