use vstd::prelude::*;

verus! {

/// An arithmetic expression in tree form, as built from reverse Polish
/// notation input: signed integer leaves, four binary operators, and a
/// unary squaring operator. Every child is an exclusively owned subtree,
/// so the tree is acyclic by construction.
#[derive(Debug, PartialEq)]
pub enum Expr {
    Number(i64),
    Add(Box<Expr>, Box<Expr>),
    Sub(Box<Expr>, Box<Expr>),
    Sqr(Box<Expr>),
    Mul(Box<Expr>, Box<Expr>),
    Div(Box<Expr>, Box<Expr>),
}

/// The one arithmetic failure: a divisor that evaluates to exactly zero.
#[derive(Debug, PartialEq, Eq, Structural)]
pub enum EvalError {
    DivisionByZero,
}

/// The display text of an evaluation error.
pub open spec fn eval_error_text(e: EvalError) -> Seq<char> {
    "Division by zero"@
}

impl EvalError {
    /// A human-readable description of the error.
    pub fn message(&self) -> (r: String)
        ensures
            r@ == eval_error_text(*self),
    {
        String::from_str("Division by zero")
    }
}

/// Quotient truncated toward zero, wrapping on overflow: the one
/// overflowing case, `i64::MIN / -1`, yields `i64::MIN`.
pub open spec fn div_wrap(a: i64, b: i64) -> i64
    recommends
        b != 0,
{
    match a.checked_div(b) {
        Some(q) => q,
        None => i64::MIN,
    }
}

/// The value of an expression. Addition, subtraction, multiplication and
/// squaring wrap around on `i64` overflow; division truncates toward zero
/// and wraps on `i64::MIN / -1`; a zero divisor is the sole error, and the
/// first failure anywhere in the tree is the result.
pub open spec fn eval_spec(e: Expr) -> Result<i64, EvalError>
    decreases e,
{
    match e {
        Expr::Number(x) => Ok(x),
        Expr::Add(x, y) => match (eval_spec(*x), eval_spec(*y)) {
            (Ok(a), Ok(b)) => Ok(a.wrapping_add(b)),
            (Err(err), _) => Err(err),
            (_, Err(err)) => Err(err),
        },
        Expr::Sub(x, y) => match (eval_spec(*x), eval_spec(*y)) {
            (Ok(a), Ok(b)) => Ok(a.wrapping_sub(b)),
            (Err(err), _) => Err(err),
            (_, Err(err)) => Err(err),
        },
        Expr::Mul(x, y) => match (eval_spec(*x), eval_spec(*y)) {
            (Ok(a), Ok(b)) => Ok(a.wrapping_mul(b)),
            (Err(err), _) => Err(err),
            (_, Err(err)) => Err(err),
        },
        Expr::Div(x, y) => match eval_spec(*y) {
            Err(err) => Err(err),
            Ok(b) => if b == 0 {
                Err(EvalError::DivisionByZero)
            } else {
                match eval_spec(*x) {
                    Err(err) => Err(err),
                    Ok(a) => Ok(div_wrap(a, b)),
                }
            },
        },
        Expr::Sqr(x) => match eval_spec(*x) {
            Err(err) => Err(err),
            Ok(a) => Ok(a.wrapping_mul(a)),
        },
    }
}

impl Expr {
    /// Evaluate the tree to a number, or fail on the first division whose
    /// divisor is zero. The divisor of a division is evaluated and checked
    /// before its dividend, so a zero divisor fails even when the dividend
    /// subtree itself would also fail.
    pub fn eval(&self) -> (r: Result<i64, EvalError>)
        ensures
            r == eval_spec(*self),
        decreases *self,
    {
        match self {
            Expr::Number(x) => Ok(*x),
            Expr::Add(x, y) => match x.eval() {
                Err(err) => Err(err),
                Ok(a) => match y.eval() {
                    Err(err) => Err(err),
                    Ok(b) => Ok(a.wrapping_add(b)),
                },
            },
            Expr::Sub(x, y) => match x.eval() {
                Err(err) => Err(err),
                Ok(a) => match y.eval() {
                    Err(err) => Err(err),
                    Ok(b) => Ok(a.wrapping_sub(b)),
                },
            },
            Expr::Mul(x, y) => match x.eval() {
                Err(err) => Err(err),
                Ok(a) => match y.eval() {
                    Err(err) => Err(err),
                    Ok(b) => Ok(a.wrapping_mul(b)),
                },
            },
            Expr::Div(x, y) => match y.eval() {
                Err(err) => Err(err),
                Ok(b) => if b == 0 {
                    Err(EvalError::DivisionByZero)
                } else {
                    match x.eval() {
                        Err(err) => Err(err),
                        Ok(a) => match a.checked_div(b) {
                            Some(q) => Ok(q),
                            None => Ok(i64::MIN),
                        },
                    }
                },
            },
            Expr::Sqr(x) => match x.eval() {
                Err(err) => Err(err),
                Ok(a) => Ok(a.wrapping_mul(a)),
            },
        }
    }
}

/// Law: evaluation is deterministic. Any two results that `Expr::eval`
/// may return for the same tree are equal, errors included.
pub proof fn lemma_eval_deterministic(e: Expr, r1: Result<i64, EvalError>, r2: Result<i64, EvalError>)
    requires
        r1 == eval_spec(e),
        r2 == eval_spec(e),
    ensures
        r1 == r2,
{
}

} // verus!
