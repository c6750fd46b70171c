use calc::eval_str;
use calc::parse;
use calc::EvalError;
use calc::Expr;
use calc::ParseError;
use calc::ParseOrEvalError;
use std::str::FromStr;

#[test]
fn parse_add() {
    let input = "1 1 +";
    let res_p = parse(input).unwrap();
    let res = res_p.eval().unwrap();
    assert_eq!(res, 2);
}

#[test]
fn parse_sub() {
    let input = "2 1 -";
    let res_p = parse(input).unwrap();
    let res = res_p.eval().unwrap();
    assert_eq!(res, 1);
}

#[test]
fn parse_mul() {
    let input = "2 3 *";
    let res_p = parse(input).unwrap();
    let res = res_p.eval().unwrap();
    assert_eq!(res, 6);
}

#[test]
fn parse_div() {
    let input = "4 2 /";
    let res_p = parse(input).unwrap();
    let res = res_p.eval().unwrap();
    assert_eq!(res, 2);
}

#[test]
fn parse_sqr() {
    let input = "4 sqr";
    let res_p = parse(input).unwrap();
    let res = res_p.eval().unwrap();
    assert_eq!(res, 16);
}

#[test]
fn parse_add_mul() {
    let input = "4 2 + 6 *";
    let res_p = parse(input).unwrap();
    let res = res_p.eval().unwrap();
    assert_eq!(res, 36);
}

#[test]
fn parse_add_mul_sqr() {
    let input = "4 2 + 1 * sqr";
    let res_p = parse(input).unwrap();
    let res = res_p.eval().unwrap();
    assert_eq!(res, 36);
}

#[test]
fn parse_test() {
    let input = "3 sqr 4 sqr + 5 sqr -";
    let res_p = parse(input).unwrap();
    let res = res_p.eval().unwrap();
    assert_eq!(res, 0);
}

#[test]
fn parse_simple() {
    let input = "1";
    let res_p = parse(input).unwrap();
    let res = res_p.eval().unwrap();
    assert_eq!(res, 1);
}

#[test]
fn parse_error_1() {
    let input = "";
    let res = parse(input);
    assert_eq!(res, Err(ParseError::EmptyInput));
}

#[test]
fn parse_error_2() {
    let input = "1 +";
    let res = parse(input);
    assert_eq!(res, Err(ParseError::WrongArgumentsCount));
}

#[test]
fn parse_error_3() {
    let input = "something";
    let res = parse(input);
    assert_eq!(
        res,
        Err(ParseError::InvalidInput(String::from("something")))
    );
}

#[test]
fn parse_error_4() {
    let input = "1 1";
    let res = parse(input);
    assert_eq!(res, Err(ParseError::LeftArguments));
}

#[test]
fn test_add() {
    let expr = Expr::Add(Box::new(Expr::Number(1)), Box::new(Expr::Number(2)));
    let res = expr.eval().unwrap();
    assert_eq!(res, 3)
}

#[test]
fn test_sub() {
    let expr = Expr::Sub(Box::new(Expr::Number(1)), Box::new(Expr::Number(2)));
    let res = expr.eval().unwrap();
    assert_eq!(res, -1)
}

#[test]
fn test_mul() {
    let expr = Expr::Mul(Box::new(Expr::Number(3)), Box::new(Expr::Number(2)));
    let res = expr.eval().unwrap();
    assert_eq!(res, 6)
}

#[test]
fn test_div() {
    let expr = Expr::Div(Box::new(Expr::Number(3)), Box::new(Expr::Number(2)));
    let res = expr.eval().unwrap();
    assert_eq!(res, 1)
}

#[test]
fn test_number() {
    let expr = Expr::Number(123);
    let res = expr.eval().unwrap();
    assert_eq!(res, 123)
}

#[test]
fn test_sqrt() {
    let expr = Expr::Sqr(Box::new(Expr::Number(4)));
    let res = expr.eval().unwrap();
    assert_eq!(res, 16)
}

#[test]
fn test_div_zero() {
    let expr = Expr::Div(Box::new(Expr::Number(-1)), Box::new(Expr::Number(0)));
    let res = expr.eval();
    assert_eq!(res, Err(EvalError::DivisionByZero))
}

#[test]
fn test_complicated() {
    let expr = Expr::Add(
        Box::new(Expr::Mul(
            Box::new(Expr::Number(-1)),
            Box::new(Expr::Number(2)),
        )),
        Box::new(Expr::Sqr(Box::new(Expr::Number(25)))),
    );
    let res = expr.eval().unwrap();
    assert_eq!(res, 623)
}

#[test]
fn test_from_str() {
    let expr = Expr::from_str("4 2 + 3 *").unwrap();
    let res = expr.eval().unwrap();
    assert_eq!(res, 18)
}

#[test]
fn eval_str_ok() {
    assert_eq!(eval_str("4 2 + 3 *"), Ok(18));
}

#[test]
fn eval_str_parse_error() {
    assert_eq!(
        eval_str("nonsense"),
        Err(ParseOrEvalError::Parse(ParseError::InvalidInput(
            String::from("nonsense")
        )))
    );
}

#[test]
fn eval_str_eval_error() {
    assert_eq!(
        eval_str("-1 0 /"),
        Err(ParseOrEvalError::Eval(EvalError::DivisionByZero))
    );
}
