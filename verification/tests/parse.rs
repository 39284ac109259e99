use graph_seek::{
    parse, parse_expression, parse_program, Branch, Definition, ErrorKind, Expr, Literal,
    ParseError, PatternElement, Program, ValueType,
};

fn lit(n: i32) -> Expr {
    Expr::Literal(Literal::Literal(n))
}

fn var(name: &str) -> Expr {
    Expr::Variable(name.to_string())
}

fn call(name: &str, args: Vec<Expr>) -> Expr {
    Expr::FunctionCall(name.to_string(), args)
}

fn err(kind: ErrorKind, position: usize) -> ParseError {
    ParseError { kind, position }
}

#[test]
fn empty_input_is_empty_program() {
    assert_eq!(parse(""), Ok(Program { definitions: vec![] }));
    assert_eq!(parse_program(""), Ok(Program { definitions: vec![] }));
}

#[test]
fn blank_input_is_empty_program() {
    assert_eq!(parse(" \n\t \r\n"), Ok(Program { definitions: vec![] }));
}

#[test]
fn integer_literal_atom() {
    assert_eq!(parse_expression("42"), Ok(lit(42)));
    assert_eq!(parse_expression("0"), Ok(lit(0)));
    assert_eq!(parse_expression("  0007 "), Ok(lit(7)));
    assert_eq!(parse_expression("2147483647"), Ok(lit(2147483647)));
}

#[test]
fn integer_literal_out_of_range() {
    assert_eq!(parse_expression("2147483648"), Err(err(ErrorKind::NumericOverflow, 0)));
    assert_eq!(
        parse_expression(" 99999999999999999999999999"),
        Err(err(ErrorKind::NumericOverflow, 1))
    );
    assert_eq!(
        parse("f :: int\nf 4294967296 = 1"),
        Err(err(ErrorKind::NumericOverflow, 11))
    );
}

#[test]
fn not_a_number_literal() {
    assert_eq!(parse_expression("NaN"), Ok(Expr::Literal(Literal::NaN)));
    assert_eq!(parse_expression("NaNs"), Ok(var("NaNs")));
    assert_eq!(parse_expression("1 + NaN"), Ok(call("+", vec![lit(1), Expr::Literal(Literal::NaN)])));
}

#[test]
fn names_may_hold_digits_and_underscores() {
    assert_eq!(parse_expression("add_1"), Ok(var("add_1")));
    assert_eq!(parse_expression("1st"), Ok(var("1st")));
    assert_eq!(parse_expression("_"), Ok(var("_")));
}

#[test]
fn multiplication_binds_tighter_than_addition() {
    let want = call("+", vec![lit(1), call("*", vec![lit(2), lit(3)])]);
    assert_eq!(parse_expression("1 + 2 * 3"), Ok(want));
    let wrong = call("*", vec![call("+", vec![lit(1), lit(2)]), lit(3)]);
    assert_ne!(parse_expression("1 + 2 * 3"), Ok(wrong));
}

#[test]
fn subtraction_is_left_associative() {
    let want = call("-", vec![call("-", vec![lit(1), lit(2)]), lit(3)]);
    assert_eq!(parse_expression("1 - 2 - 3"), Ok(want));
}

#[test]
fn division_is_left_associative() {
    let want = call("/", vec![call("/", vec![lit(8), lit(4)]), lit(2)]);
    assert_eq!(parse_expression("8/4/2"), Ok(want));
}

#[test]
fn parentheses_override_precedence() {
    let want = call("*", vec![call("+", vec![lit(1), lit(2)]), lit(3)]);
    assert_eq!(parse_expression("(1 + 2) * 3"), Ok(want));
}

#[test]
fn parentheses_may_span_lines() {
    let want = call("*", vec![call("+", vec![var("a"), var("b")]), var("c")]);
    assert_eq!(parse_expression("(\n a +\n b\n)\n * c"), Ok(want));
}

#[test]
fn call_takes_the_atoms_on_its_line() {
    assert_eq!(parse_expression("plus n 1"), Ok(call("plus", vec![var("n"), lit(1)])));
    assert_eq!(
        parse_expression("f (1 + 2) x * 2"),
        Ok(call(
            "*",
            vec![call("f", vec![call("+", vec![lit(1), lit(2)]), var("x")]), lit(2)]
        ))
    );
    assert_eq!(
        parse_expression("f x\n y"),
        Err(err(ErrorKind::UnexpectedTrailingInput, 5))
    );
}

#[test]
fn missing_operand_is_a_syntax_error() {
    assert_eq!(parse_expression(""), Err(err(ErrorKind::SyntaxError, 0)));
    assert_eq!(parse_expression("1 +"), Err(err(ErrorKind::SyntaxError, 3)));
    assert_eq!(parse_expression("1 + * 2"), Err(err(ErrorKind::SyntaxError, 4)));
}

#[test]
fn missing_closing_parenthesis_is_a_syntax_error() {
    assert_eq!(parse_expression("(1 + 2"), Err(err(ErrorKind::SyntaxError, 6)));
    assert_eq!(parse_expression("(1 + 2 ]"), Err(err(ErrorKind::SyntaxError, 7)));
}

#[test]
fn trailing_input_after_expression() {
    assert_eq!(parse_expression("1 )"), Err(err(ErrorKind::UnexpectedTrailingInput, 2)));
}

#[test]
fn literal_in_pattern_position_is_a_literal() {
    let program = parse("fact :: int -> int\nfact 0 = 1\nfact n = n * fact (n - 1)\n").unwrap();
    assert_eq!(program.definitions.len(), 1);
    let def = &program.definitions[0];
    assert_eq!(def.name, "fact");
    assert_eq!(def.args, vec![ValueType::Int, ValueType::Int]);
    assert_eq!(def.branches.len(), 2);
    assert_eq!(
        def.branches[0],
        Branch {
            pattern: vec![PatternElement::Literal(Literal::Literal(0))],
            expression: lit(1),
        }
    );
    assert_eq!(
        def.branches[1],
        Branch {
            pattern: vec![PatternElement::Variable("n".to_string())],
            expression: call(
                "*",
                vec![var("n"), call("fact", vec![call("-", vec![var("n"), lit(1)])])]
            ),
        }
    );
}

#[test]
fn not_a_number_in_pattern_position_is_a_literal() {
    let program = parse("f :: int -> int\nf NaN x 12 = x").unwrap();
    assert_eq!(
        program.definitions[0].branches[0].pattern,
        vec![
            PatternElement::Literal(Literal::NaN),
            PatternElement::Variable("x".to_string()),
            PatternElement::Literal(Literal::Literal(12)),
        ]
    );
}

#[test]
fn two_definitions_end_to_end() {
    let input = "
        add_1 :: int -> int
        add_1 n = plus n 1
        five :: int
        five = add_1 4
    ";
    let want = Program {
        definitions: vec![
            Definition {
                args: vec![ValueType::Int, ValueType::Int],
                name: "add_1".to_string(),
                branches: vec![Branch {
                    pattern: vec![PatternElement::Variable("n".to_string())],
                    expression: call("plus", vec![var("n"), lit(1)]),
                }],
            },
            Definition {
                args: vec![ValueType::Int],
                name: "five".to_string(),
                branches: vec![Branch { pattern: vec![], expression: call("add_1", vec![lit(4)]) }],
            },
        ],
    };
    assert_eq!(parse(input), Ok(want));
}

#[test]
fn end_to_end_without_indentation() {
    let input = "add_1 :: int -> int\nadd_1 n = plus n 1\nfive :: int\nfive = add_1 4\n";
    let program = parse_program(input).unwrap();
    assert_eq!(program.definitions.len(), 2);
    assert_eq!(program.definitions[0].name, "add_1");
    assert_eq!(program.definitions[0].branches.len(), 1);
    assert_eq!(program.definitions[1].name, "five");
    assert_eq!(program.definitions[1].branches[0].pattern, vec![]);
}

#[test]
fn list_and_matrix_types() {
    let program = parse("f::list->matrix->int f a b = 0").unwrap();
    assert_eq!(
        program.definitions[0].args,
        vec![ValueType::List, ValueType::Matrix, ValueType::Int]
    );
}

#[test]
fn signature_without_branch_is_missing_branch() {
    assert_eq!(parse("f :: int"), Err(err(ErrorKind::MissingBranch, 8)));
    assert_eq!(parse("f :: int\ng :: int\ng = 1"), Err(err(ErrorKind::MissingBranch, 9)));
    assert_eq!(parse("f :: int\n  f 1 2"), Err(err(ErrorKind::MissingBranch, 11)));
}

#[test]
fn unrecognized_type_is_unknown_type() {
    assert_eq!(parse("f :: bool\nf = 1"), Err(err(ErrorKind::UnknownType, 5)));
    assert_eq!(parse("f :: int -> bool\nf x = 1"), Err(err(ErrorKind::UnknownType, 12)));
    assert_eq!(parse("f :: Int\nf = 1"), Err(err(ErrorKind::UnknownType, 5)));
}

#[test]
fn missing_type_is_a_syntax_error() {
    assert_eq!(parse("f :: "), Err(err(ErrorKind::SyntaxError, 5)));
    assert_eq!(parse("f :: int -> = 1"), Err(err(ErrorKind::SyntaxError, 12)));
}

#[test]
fn missing_double_colon_is_a_syntax_error() {
    assert_eq!(parse("f = 1"), Err(err(ErrorKind::SyntaxError, 2)));
    assert_eq!(parse("f : int"), Err(err(ErrorKind::SyntaxError, 2)));
}

#[test]
fn missing_body_is_a_syntax_error() {
    assert_eq!(parse("f :: int\nf ="), Err(err(ErrorKind::SyntaxError, 12)));
}

#[test]
fn input_that_starts_no_definition_is_trailing_input() {
    assert_eq!(
        parse("f :: int\nf = 1\n) more"),
        Err(err(ErrorKind::UnexpectedTrailingInput, 15))
    );
    assert_eq!(parse("42"), Err(err(ErrorKind::UnexpectedTrailingInput, 0)));
}

#[test]
fn message_names_the_kind_and_shows_the_rest() {
    assert_eq!(
        parse_program("f :: bool\nf = 1"),
        Err("unknown type at: bool\nf = 1".to_string())
    );
    assert_eq!(
        parse_program("f :: int"),
        Err("definition without a clause at: ".to_string())
    );
    assert_eq!(
        parse_program("f :: int\nf = 1 )"),
        Err("unexpected trailing input at: )".to_string())
    );
    assert_eq!(
        parse_program("f :: int\nf = (1"),
        Err("syntax error at: ".to_string())
    );
    assert_eq!(
        parse_program("f :: int\nf = 2147483648"),
        Err("integer literal out of range at: 2147483648".to_string())
    );
}

#[test]
fn offsets_count_characters() {
    assert_eq!(parse("\u{e9} :: int"), Err(err(ErrorKind::UnexpectedTrailingInput, 0)));
    assert_eq!(parse("f :: int\nf = 1\n\u{e9}\u{e9} x"), Err(err(ErrorKind::UnexpectedTrailingInput, 15)));
}

#[test]
fn text_beyond_ascii_is_read_by_characters() {
    assert_eq!(parse("f :: int\nf = abc + \u{e9}"), Err(err(ErrorKind::SyntaxError, 19)));
    assert_eq!(
        parse_program("f :: int\nf = abc + \u{e9}t\u{e9}"),
        Err("syntax error at: \u{e9}t\u{e9}".to_string())
    );
    assert_eq!(
        parse_expression("\u{4e16} + abc"),
        Err(err(ErrorKind::SyntaxError, 0))
    );
    assert_eq!(
        parse_expression("abc \u{4e16}"),
        Err(err(ErrorKind::UnexpectedTrailingInput, 4))
    );
}

#[test]
fn operators_need_no_space() {
    let want = call("-", vec![call("+", vec![var("a"), call("*", vec![lit(2), var("b")])]), lit(1)]);
    assert_eq!(parse_expression("a+2*b-1"), Ok(want));
}

#[test]
fn nested_parentheses() {
    assert_eq!(parse_expression("((7))"), Ok(lit(7)));
    assert_eq!(
        parse_expression("2 * (3 + (4 - x))"),
        Ok(call(
            "*",
            vec![lit(2), call("+", vec![lit(3), call("-", vec![lit(4), var("x")])])]
        ))
    );
}

#[test]
fn parsing_twice_gives_the_same_tree() {
    let input = "f :: int -> int\nf 0 = 1\nf n = n * (n - 1)\nmain :: int\nmain = f 3\n";
    assert_eq!(parse(input), parse(input));
    assert_eq!(parse_program(input), parse_program(input));
    let bad = "f :: int -> what";
    assert_eq!(parse(bad), parse(bad));
}

#[test]
fn definitions_keep_source_order() {
    let program = parse("a :: int\na = 1\nb :: int\nb = 2\nc :: int\nc = 3").unwrap();
    let names: Vec<&str> = program.definitions.iter().map(|d| d.name.as_str()).collect();
    assert_eq!(names, vec!["a", "b", "c"]);
}

#[test]
fn branch_name_is_not_checked_against_definition() {
    let program = parse("f :: int\ng = 1").unwrap();
    assert_eq!(program.definitions[0].name, "f");
    assert_eq!(program.definitions[0].branches.len(), 1);
}
