//! A reverse-Polish-notation arithmetic calculator: `parse` turns
//! whitespace-delimited tokens such as `"3 4 +"` into an expression tree,
//! and `Expr::eval` reduces the tree to a signed integer, reporting a
//! typed error on malformed input or division by zero.

mod eval;
mod parse;

pub use eval::div_wrap;
pub use eval::eval_error_text;
pub use eval::eval_spec;
pub use eval::lemma_eval_deterministic;
pub use eval::EvalError;
pub use eval::Expr;

pub use parse::all_digits;
pub use parse::binary_node;
pub use parse::digit_value;
pub use parse::digits_value;
pub use parse::is_add_token;
pub use parse::is_ascii_digit;
pub use parse::is_div_token;
pub use parse::is_i64_literal;
pub use parse::is_mul_token;
pub use parse::is_sqr_token;
pub use parse::is_sub_token;
pub use parse::is_token_sep;
pub use parse::lemma_literal_not_op;
pub use parse::lemma_operand_order;
pub use parse::lemma_parse_deterministic;
pub use parse::literal_body;
pub use parse::literal_sign;
pub use parse::literal_value;
pub use parse::parse;
pub use parse::parse_error_text;
pub use parse::parse_number;
pub use parse::parse_result_matches;
pub use parse::parse_tokens;
pub use parse::spec_parse;
pub use parse::token_op;
pub use parse::tokenize;
pub use parse::tokenize_from;
pub use parse::BinOp;
pub use parse::OpToken;
pub use parse::ParseError;
pub use parse::SpecParseError;

use vstd::prelude::*;

verus! {

/// Either failure of the combined parse-then-evaluate entry point, keeping
/// which stage failed and the underlying error untouched.
#[derive(Debug, PartialEq)]
pub enum ParseOrEvalError {
    Parse(ParseError),
    Eval(EvalError),
}

/// The model of a `ParseOrEvalError`.
pub enum SpecParseOrEvalError {
    Parse(SpecParseError),
    Eval(EvalError),
}

impl View for ParseOrEvalError {
    type V = SpecParseOrEvalError;

    open spec fn view(&self) -> SpecParseOrEvalError {
        match self {
            ParseOrEvalError::Parse(e) => SpecParseOrEvalError::Parse(e@),
            ParseOrEvalError::Eval(e) => SpecParseOrEvalError::Eval(*e),
        }
    }
}

/// The display text of a combined error: the stage that failed, then the
/// underlying error's own text.
pub open spec fn parse_or_eval_error_text(e: SpecParseOrEvalError) -> Seq<char> {
    match e {
        SpecParseOrEvalError::Parse(p) => "Parse error: "@ + parse_error_text(p),
        SpecParseOrEvalError::Eval(v) => "Evaluation error: "@ + eval_error_text(v),
    }
}

impl ParseOrEvalError {
    /// A human-readable description of the error.
    pub fn message(&self) -> (r: String)
        ensures
            r@ == parse_or_eval_error_text(self@),
    {
        match self {
            ParseOrEvalError::Parse(e) => String::from_str("Parse error: ").concat(
                e.message().as_str(),
            ),
            ParseOrEvalError::Eval(e) => String::from_str("Evaluation error: ").concat(
                e.message().as_str(),
            ),
        }
    }
}

/// What `eval_str` returns on input text `s`: the parsed tree's value, or
/// whichever error family failed first, its payload untouched.
pub open spec fn spec_eval_str(s: Seq<char>) -> Result<i64, SpecParseOrEvalError> {
    match spec_parse(s) {
        Err(p) => Err(SpecParseOrEvalError::Parse(p)),
        Ok(e) => match eval_spec(e) {
            Ok(v) => Ok(v),
            Err(v) => Err(SpecParseOrEvalError::Eval(v)),
        },
    }
}

/// The returned value or error agrees with the model result.
pub open spec fn eval_str_result_matches(
    r: Result<i64, ParseOrEvalError>,
    m: Result<i64, SpecParseOrEvalError>,
) -> bool {
    match r {
        Ok(v) => m == Ok::<i64, SpecParseOrEvalError>(v),
        Err(err) => m == Err::<i64, SpecParseOrEvalError>(err@),
    }
}

/// Parse the text and evaluate the resulting tree in one step, failing
/// with the parse error or the evaluation error of whichever stage failed.
pub fn eval_str(s: &str) -> (r: Result<i64, ParseOrEvalError>)
    ensures
        eval_str_result_matches(r, spec_eval_str(s@)),
{
    match parse(s) {
        Err(e) => Err(ParseOrEvalError::Parse(e)),
        Ok(expr) => match expr.eval() {
            Ok(v) => Ok(v),
            Err(e) => Err(ParseOrEvalError::Eval(e)),
        },
    }
}

/// The token stream is arity-balanced when read from a stack of height
/// `h`: every operator finds the operands its arity needs, every token is
/// an operator or an `i64` literal, and exactly one expression is left at
/// the end.
pub open spec fn balanced_from(toks: Seq<Seq<char>>, h: int) -> bool
    decreases toks.len(),
{
    if toks.len() == 0 {
        h == 1
    } else {
        match token_op(toks[0]) {
            Some(OpToken::Binary(op)) => h >= 2 && balanced_from(toks.drop_first(), h - 1),
            Some(OpToken::Square) => h >= 1 && balanced_from(toks.drop_first(), h),
            None => is_i64_literal(toks[0]) && balanced_from(toks.drop_first(), h + 1),
        }
    }
}

/// Well-formed RPN text: every token is an operator or an `i64` literal,
/// and the operator arities balance to exactly one expression.
pub open spec fn well_formed_rpn(s: Seq<char>) -> bool {
    balanced_from(tokenize(s), 0)
}

proof fn lemma_balanced_parses(toks: Seq<Seq<char>>, stack: Seq<Expr>)
    requires
        balanced_from(toks, stack.len() as int),
    ensures
        parse_tokens(toks, stack) is Ok,
    decreases toks.len(),
{
    if toks.len() > 0 {
        match token_op(toks[0]) {
            Some(OpToken::Binary(op)) => {
                let next = stack.drop_last().drop_last().push(
                    binary_node(op, stack[stack.len() - 2], stack.last()),
                );
                lemma_balanced_parses(toks.drop_first(), next);
            },
            Some(OpToken::Square) => {
                let next = stack.drop_last().push(Expr::Sqr(Box::new(stack.last())));
                lemma_balanced_parses(toks.drop_first(), next);
            },
            None => {
                let next = stack.push(Expr::Number(literal_value(toks[0]) as i64));
                lemma_balanced_parses(toks.drop_first(), next);
            },
        }
    }
}

/// Law: every well-formed, arity-balanced RPN text parses successfully,
/// and evaluating the resulting tree yields either a number or the
/// division-by-zero error — evaluation has no other outcome.
pub proof fn lemma_well_formed_evaluates(s: Seq<char>)
    requires
        well_formed_rpn(s),
    ensures
        spec_parse(s) is Ok,
        eval_spec(spec_parse(s)->Ok_0) is Ok || eval_spec(spec_parse(s)->Ok_0) == Err::<
            i64,
            EvalError,
        >(EvalError::DivisionByZero),
{
    lemma_balanced_parses(tokenize(s), Seq::empty());
}

} // verus!
