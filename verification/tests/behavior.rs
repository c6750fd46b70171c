use calc::eval_str;
use calc::parse;
use calc::parse_number;
use calc::EvalError;
use calc::Expr;
use calc::ParseError;
use calc::ParseOrEvalError;

#[test]
fn simple_addition() {
    assert_eq!(eval_str("3 4 +"), Ok(7));
}

#[test]
fn chained_operators() {
    assert_eq!(eval_str("4 2 + 6 *"), Ok(36));
}

#[test]
fn unary_square() {
    assert_eq!(eval_str("4 sqr"), Ok(16));
}

#[test]
fn division_by_zero_via_text() {
    assert_eq!(
        eval_str("-1 0 /"),
        Err(ParseOrEvalError::Eval(EvalError::DivisionByZero))
    );
}

#[test]
fn empty_input_via_text() {
    assert_eq!(
        eval_str(""),
        Err(ParseOrEvalError::Parse(ParseError::EmptyInput))
    );
}

#[test]
fn whitespace_only_is_empty_input() {
    assert_eq!(parse(" \t\n\r\x0c "), Err(ParseError::EmptyInput));
}

#[test]
fn extra_whitespace_between_tokens() {
    assert_eq!(eval_str("  3 \t 4  \n +  "), Ok(7));
}

#[test]
fn operand_order_subtraction() {
    assert_eq!(eval_str("2 1 -"), Ok(1));
}

#[test]
fn operand_order_division() {
    assert_eq!(eval_str("6 3 /"), Ok(2));
}

#[test]
fn reparsing_yields_equal_trees() {
    let input = "3 sqr 4 sqr + 5 sqr -";
    let first = parse(input);
    let second = parse(input);
    assert_eq!(first, second);
    let tree = first.unwrap();
    assert_eq!(tree.eval(), tree.eval());
}

#[test]
fn square_without_operand() {
    assert_eq!(parse("sqr"), Err(ParseError::WrongArgumentsCount));
}

#[test]
fn negative_literal() {
    assert_eq!(eval_str("-5"), Ok(-5));
}

#[test]
fn plus_signed_literal() {
    assert_eq!(eval_str("+5"), Ok(5));
}

#[test]
fn lone_sign_is_an_operator_not_a_number() {
    assert_eq!(parse("-"), Err(ParseError::WrongArgumentsCount));
    assert_eq!(parse("+"), Err(ParseError::WrongArgumentsCount));
}

#[test]
fn extreme_literals() {
    assert_eq!(eval_str("9223372036854775807"), Ok(i64::MAX));
    assert_eq!(eval_str("-9223372036854775808"), Ok(i64::MIN));
}

#[test]
fn literal_out_of_range_is_invalid() {
    assert_eq!(
        parse("9223372036854775808"),
        Err(ParseError::InvalidInput(String::from(
            "9223372036854775808"
        )))
    );
    assert_eq!(
        parse("-9223372036854775809"),
        Err(ParseError::InvalidInput(String::from(
            "-9223372036854775809"
        )))
    );
}

#[test]
fn malformed_numbers_are_invalid() {
    assert_eq!(
        parse("1.5"),
        Err(ParseError::InvalidInput(String::from("1.5")))
    );
    assert_eq!(
        parse("--1"),
        Err(ParseError::InvalidInput(String::from("--1")))
    );
    assert_eq!(
        parse("2 sqrt +"),
        Err(ParseError::InvalidInput(String::from("sqrt")))
    );
}

#[test]
fn addition_wraps_on_overflow() {
    assert_eq!(eval_str("9223372036854775807 1 +"), Ok(i64::MIN));
}

#[test]
fn subtraction_wraps_on_overflow() {
    assert_eq!(eval_str("-9223372036854775808 1 -"), Ok(i64::MAX));
}

#[test]
fn multiplication_wraps_on_overflow() {
    assert_eq!(
        eval_str("4611686018427387904 2 *"),
        Ok(i64::MIN)
    );
}

#[test]
fn division_truncates_toward_zero() {
    assert_eq!(eval_str("7 2 /"), Ok(3));
    assert_eq!(eval_str("-7 2 /"), Ok(-3));
    assert_eq!(eval_str("7 -2 /"), Ok(-3));
}

#[test]
fn division_wraps_on_overflow() {
    assert_eq!(eval_str("-9223372036854775808 -1 /"), Ok(i64::MIN));
}

#[test]
fn divisor_checked_before_dividend() {
    assert_eq!(
        eval_str("1 0 / 0 /"),
        Err(ParseOrEvalError::Eval(EvalError::DivisionByZero))
    );
}

#[test]
fn parse_number_accepts_exactly_i64_literals() {
    assert_eq!(parse_number("0"), Some(0));
    assert_eq!(parse_number("-0"), Some(0));
    assert_eq!(parse_number("42"), Some(42));
    assert_eq!(parse_number("007"), Some(7));
    assert_eq!(parse_number(""), None);
    assert_eq!(parse_number("-"), None);
    assert_eq!(parse_number("+"), None);
    assert_eq!(parse_number("1x"), None);
    assert_eq!(parse_number("18446744073709551616"), None);
}

#[test]
fn error_messages() {
    assert_eq!(
        ParseError::InvalidInput(String::from("abc")).message(),
        "Invalid input: abc"
    );
    assert_eq!(ParseError::WrongArgumentsCount.message(), "Wrong arguments count");
    assert_eq!(ParseError::EmptyInput.message(), "Empty input");
    assert_eq!(ParseError::LeftArguments.message(), "Left arguments");
    assert_eq!(EvalError::DivisionByZero.message(), "Division by zero");
    assert_eq!(
        ParseOrEvalError::Parse(ParseError::EmptyInput).message(),
        "Parse error: Empty input"
    );
    assert_eq!(
        ParseOrEvalError::Eval(EvalError::DivisionByZero).message(),
        "Evaluation error: Division by zero"
    );
}

#[test]
fn parsed_tree_shape() {
    assert_eq!(
        parse("2 1 -"),
        Ok(Expr::Sub(
            Box::new(Expr::Number(2)),
            Box::new(Expr::Number(1))
        ))
    );
    assert_eq!(
        parse("4 sqr"),
        Ok(Expr::Sqr(Box::new(Expr::Number(4))))
    );
}
