use crate::eval::eval_spec;
use crate::eval::EvalError;
use crate::eval::Expr;
use vstd::prelude::*;

verus! {

// ---------------------------------------------------------------------------
// Numeric literals
// ---------------------------------------------------------------------------

pub open spec fn is_ascii_digit(c: char) -> bool {
    '0' <= c && c <= '9'
}

pub open spec fn digit_value(c: char) -> int {
    c as int - '0' as int
}

/// The value of a string of decimal digits, most significant first.
pub open spec fn digits_value(s: Seq<char>) -> int
    decreases s.len(),
{
    if s.len() == 0 {
        0
    } else {
        10 * digits_value(s.drop_last()) + digit_value(s.last())
    }
}

pub open spec fn all_digits(s: Seq<char>) -> bool {
    forall|i: int| 0 <= i < s.len() ==> is_ascii_digit(s[i])
}

/// The digits of a literal: everything after an optional leading sign.
pub open spec fn literal_body(s: Seq<char>) -> Seq<char> {
    if s.len() > 0 && (s[0] == '+' || s[0] == '-') {
        s.drop_first()
    } else {
        s
    }
}

pub open spec fn literal_sign(s: Seq<char>) -> int {
    if s.len() > 0 && s[0] == '-' {
        -1
    } else {
        1
    }
}

/// The mathematical value a literal denotes, before any range check.
pub open spec fn literal_value(s: Seq<char>) -> int {
    literal_sign(s) * digits_value(literal_body(s))
}

/// A signed decimal `i64` literal: an optional `+` or `-` sign, then one
/// or more ASCII digits, denoting a value that fits in `i64`.
pub open spec fn is_i64_literal(s: Seq<char>) -> bool {
    &&& literal_body(s).len() > 0
    &&& all_digits(literal_body(s))
    &&& i64::MIN <= literal_value(s) <= i64::MAX
}

proof fn lemma_digits_value_nonneg(s: Seq<char>)
    requires
        all_digits(s),
    ensures
        digits_value(s) >= 0,
    decreases s.len(),
{
    if s.len() > 0 {
        assert(all_digits(s.drop_last()));
        lemma_digits_value_nonneg(s.drop_last());
    }
}

/// Appending one digit multiplies the value by ten and adds the digit.
proof fn lemma_digits_value_step(s: Seq<char>, k: int)
    requires
        0 <= k < s.len(),
    ensures
        digits_value(s.subrange(0, k + 1)) == 10 * digits_value(s.subrange(0, k)) + digit_value(
            s[k],
        ),
{
    let p = s.subrange(0, k + 1);
    assert(p.drop_last() =~= s.subrange(0, k));
    assert(p.last() == s[k]);
}

/// A digit string is worth at least any of its prefixes.
proof fn lemma_digits_value_prefix(s: Seq<char>, k: int)
    requires
        all_digits(s),
        0 <= k <= s.len(),
    ensures
        digits_value(s) >= digits_value(s.subrange(0, k)),
    decreases s.len() - k,
{
    if k == s.len() {
        assert(s.subrange(0, k) =~= s);
    } else {
        lemma_digits_value_step(s, k);
        assert(all_digits(s.subrange(0, k)));
        lemma_digits_value_nonneg(s.subrange(0, k));
        lemma_digits_value_prefix(s, k + 1);
    }
}

/// A literal whose digit prefix already exceeds `u64::MAX` denotes a value
/// outside the `i64` range whatever its sign.
proof fn lemma_too_many_digits(s: Seq<char>, start: int, k: int)
    requires
        literal_body(s) =~= s.subrange(start, s.len() as int),
        0 <= start <= k <= s.len(),
        digits_value(s.subrange(start, k)) > u64::MAX,
        all_digits(s.subrange(start, k)),
    ensures
        !is_i64_literal(s),
{
    if is_i64_literal(s) {
        let body = literal_body(s);
        lemma_digits_value_prefix(body, k - start);
        assert(body.subrange(0, k - start) =~= s.subrange(start, k));
        assert(digits_value(body) > u64::MAX);
        assert(literal_value(s) > i64::MAX || literal_value(s) < i64::MIN);
    }
}

/// Parse a token as a signed decimal `i64` literal. Returns the denoted
/// value for every token that is such a literal, and `None` for every
/// other token: an empty token, a bare sign, any non-digit character, or
/// a value outside the `i64` range.
pub fn parse_number(t: &str) -> (r: Option<i64>)
    ensures
        r is Some <==> is_i64_literal(t@),
        r matches Some(v) ==> v == literal_value(t@),
{
    let len = t.unicode_len();
    let mut start: usize = 0;
    let mut negative: bool = false;
    if len > 0 {
        let c0 = t.get_char(0);
        if c0 == '-' {
            start = 1;
            negative = true;
        } else if c0 == '+' {
            start = 1;
        }
    }
    let ghost body = literal_body(t@);
    proof {
        assert(body =~= t@.subrange(start as int, len as int));
    }
    if start == len {
        return None;
    }
    let mut mag: u64 = 0;
    let mut i: usize = start;
    while i < len
        invariant
            start <= i <= len,
            len == t@.len(),
            start < len,
            body == literal_body(t@),
            body =~= t@.subrange(start as int, len as int),
            negative <==> literal_sign(t@) == -1,
            all_digits(t@.subrange(start as int, i as int)),
            mag == digits_value(t@.subrange(start as int, i as int)),
        decreases len - i,
    {
        let c = t.get_char(i);
        let u = c as u32;
        if u < 48 || u > 57 {
            proof {
                assert(body[i - start] == t@[i as int]);
                assert(!is_ascii_digit(body[i - start]));
            }
            return None;
        }
        let d: u64 = (u - 48) as u64;
        let ghost pre = t@.subrange(start as int, i as int);
        proof {
            assert(t@.subrange(start as int, i as int + 1) =~= pre.push(t@[i as int]));
            assert(t@.subrange(start as int, i as int + 1).drop_last() =~= pre);
            assert(digits_value(t@.subrange(start as int, i as int + 1)) == 10 * mag + d);
        }
        let grown = match mag.checked_mul(10) {
            Some(m) => m.checked_add(d),
            None => None,
        };
        mag = match grown {
            Some(m) => m,
            None => {
                proof {
                    lemma_too_many_digits(t@, start as int, i as int + 1);
                }
                return None;
            },
        };
        i = i + 1;
    }
    proof {
        assert(t@.subrange(start as int, i as int) =~= body);
    }
    if negative {
        if mag <= 9223372036854775808u64 {
            let v: i64 = if mag == 9223372036854775808u64 {
                i64::MIN
            } else {
                -(mag as i64)
            };
            Some(v)
        } else {
            None
        }
    } else {
        if mag <= 9223372036854775807u64 {
            Some(mag as i64)
        } else {
            None
        }
    }
}

// ---------------------------------------------------------------------------
// Tokenization
// ---------------------------------------------------------------------------

/// ASCII whitespace, the token separators: space, horizontal tab, line
/// feed, form feed, carriage return.
pub open spec fn is_token_sep(c: char) -> bool {
    c == ' ' || c == '\t' || c == '\n' || c == '\u{c}' || c == '\r'
}

/// The tokens of `s` when the partial token `cur` has already been read.
pub open spec fn tokenize_from(s: Seq<char>, cur: Seq<char>) -> Seq<Seq<char>>
    decreases s.len(),
{
    if s.len() == 0 {
        if cur.len() == 0 {
            Seq::empty()
        } else {
            seq![cur]
        }
    } else if is_token_sep(s[0]) {
        if cur.len() == 0 {
            tokenize_from(s.drop_first(), Seq::empty())
        } else {
            seq![cur] + tokenize_from(s.drop_first(), Seq::empty())
        }
    } else {
        tokenize_from(s.drop_first(), cur.push(s[0]))
    }
}

/// The tokens of the input: its maximal runs of non-whitespace
/// characters, in order.
pub open spec fn tokenize(s: Seq<char>) -> Seq<Seq<char>> {
    tokenize_from(s, Seq::empty())
}

/// The views of a sequence of string slices.
pub open spec fn str_views(ts: Seq<&str>) -> Seq<Seq<char>> {
    ts.map_values(|t: &str| t@)
}

proof fn lemma_str_views_push(ts: Seq<&str>, t: &str)
    ensures
        str_views(ts.push(t)) =~= str_views(ts) + seq![t@],
{
}

/// Split the input into its maximal runs of non-whitespace characters.
fn split_tokens<'a>(s: &'a str) -> (r: Vec<&'a str>)
    ensures
        str_views(r@) == tokenize(s@),
{
    let len = s.unicode_len();
    let mut toks: Vec<&str> = Vec::new();
    proof {
        assert(s@.skip(0) =~= s@);
        assert(s@.subrange(0, 0) =~= Seq::<char>::empty());
        assert(str_views(toks@) + tokenize_from(s@, Seq::empty()) =~~= tokenize(s@));
    }
    let mut i: usize = 0;
    let mut a: usize = 0;
    while i < len
        invariant
            a <= i <= len,
            len == s@.len(),
            str_views(toks@) + tokenize_from(s@.skip(i as int), s@.subrange(a as int, i as int))
                == tokenize(s@),
        decreases len - i,
    {
        let ghost rest = s@.skip(i as int);
        let ghost cur = s@.subrange(a as int, i as int);
        proof {
            assert(rest[0] == s@[i as int]);
            assert(rest.drop_first() =~= s@.skip(i as int + 1));
        }
        let c = s.get_char(i);
        if c == ' ' || c == '\t' || c == '\n' || c == '\u{c}' || c == '\r' {
            if a < i {
                let tok = s.substring_char(a, i);
                proof {
                    lemma_str_views_push(toks@, tok);
                    assert(str_views(toks@) + (seq![cur] + tokenize_from(
                        rest.drop_first(),
                        Seq::empty(),
                    )) =~~= str_views(toks@.push(tok)) + tokenize_from(
                        rest.drop_first(),
                        Seq::empty(),
                    ));
                }
                toks.push(tok);
            }
            a = i + 1;
            proof {
                assert(s@.subrange(a as int, i as int + 1) =~= Seq::<char>::empty());
            }
        } else {
            proof {
                assert(cur.push(s@[i as int]) =~= s@.subrange(a as int, i as int + 1));
            }
        }
        i = i + 1;
    }
    proof {
        assert(s@.skip(len as int) =~= Seq::<char>::empty());
    }
    if a < len {
        let tok = s.substring_char(a, len);
        proof {
            let ghost cur = s@.subrange(a as int, len as int);
            lemma_str_views_push(toks@, tok);
            assert(str_views(toks@) + seq![cur] =~~= str_views(toks@.push(tok)));
        }
        toks.push(tok);
    } else {
        proof {
            assert(s@.subrange(a as int, len as int) =~= Seq::<char>::empty());
            assert(str_views(toks@) + Seq::<Seq<char>>::empty() =~~= str_views(toks@));
        }
    }
    toks
}

// ---------------------------------------------------------------------------
// Operator tokens
// ---------------------------------------------------------------------------

pub open spec fn is_add_token(t: Seq<char>) -> bool {
    t.len() == 1 && t[0] == '+'
}

pub open spec fn is_sub_token(t: Seq<char>) -> bool {
    t.len() == 1 && t[0] == '-'
}

pub open spec fn is_mul_token(t: Seq<char>) -> bool {
    t.len() == 1 && t[0] == '*'
}

pub open spec fn is_div_token(t: Seq<char>) -> bool {
    t.len() == 1 && t[0] == '/'
}

pub open spec fn is_sqr_token(t: Seq<char>) -> bool {
    t.len() == 3 && t[0] == 's' && t[1] == 'q' && t[2] == 'r'
}

/// A binary operator symbol.
pub enum BinOp {
    Add,
    Sub,
    Mul,
    Div,
}

/// An operator token: a binary operator or the unary square.
pub enum OpToken {
    Binary(BinOp),
    Square,
}

/// Which operator, if any, a token denotes.
pub open spec fn token_op(t: Seq<char>) -> Option<OpToken> {
    if is_add_token(t) {
        Some(OpToken::Binary(BinOp::Add))
    } else if is_sub_token(t) {
        Some(OpToken::Binary(BinOp::Sub))
    } else if is_mul_token(t) {
        Some(OpToken::Binary(BinOp::Mul))
    } else if is_div_token(t) {
        Some(OpToken::Binary(BinOp::Div))
    } else if is_sqr_token(t) {
        Some(OpToken::Square)
    } else {
        None
    }
}

/// The node a binary operator builds from its left and right operands.
pub open spec fn binary_node(op: BinOp, left: Expr, right: Expr) -> Expr {
    match op {
        BinOp::Add => Expr::Add(Box::new(left), Box::new(right)),
        BinOp::Sub => Expr::Sub(Box::new(left), Box::new(right)),
        BinOp::Mul => Expr::Mul(Box::new(left), Box::new(right)),
        BinOp::Div => Expr::Div(Box::new(left), Box::new(right)),
    }
}

fn classify_token(t: &str) -> (r: Option<OpToken>)
    ensures
        r == token_op(t@),
{
    let n = t.unicode_len();
    if n == 1 {
        let c = t.get_char(0);
        if c == '+' {
            Some(OpToken::Binary(BinOp::Add))
        } else if c == '-' {
            Some(OpToken::Binary(BinOp::Sub))
        } else if c == '*' {
            Some(OpToken::Binary(BinOp::Mul))
        } else if c == '/' {
            Some(OpToken::Binary(BinOp::Div))
        } else {
            None
        }
    } else if n == 3 {
        if t.get_char(0) == 's' && t.get_char(1) == 'q' && t.get_char(2) == 'r' {
            Some(OpToken::Square)
        } else {
            None
        }
    } else {
        None
    }
}

// ---------------------------------------------------------------------------
// Parsing
// ---------------------------------------------------------------------------

/// A parse failure: a token that is neither an operator nor an `i64`
/// literal (carrying the token verbatim), an operator that found fewer
/// operands on the stack than its arity needs, an input with no tokens at
/// all, or leftover operands once every token is consumed.
#[derive(Debug, PartialEq)]
pub enum ParseError {
    InvalidInput(String),
    WrongArgumentsCount,
    EmptyInput,
    LeftArguments,
}

/// The model of a `ParseError`, with the offending token as its characters.
pub enum SpecParseError {
    InvalidInput(Seq<char>),
    WrongArgumentsCount,
    EmptyInput,
    LeftArguments,
}

impl View for ParseError {
    type V = SpecParseError;

    open spec fn view(&self) -> SpecParseError {
        match self {
            ParseError::InvalidInput(t) => SpecParseError::InvalidInput(t@),
            ParseError::WrongArgumentsCount => SpecParseError::WrongArgumentsCount,
            ParseError::EmptyInput => SpecParseError::EmptyInput,
            ParseError::LeftArguments => SpecParseError::LeftArguments,
        }
    }
}

/// The display text of a parse error; an invalid-input message carries
/// the offending token verbatim.
pub open spec fn parse_error_text(e: SpecParseError) -> Seq<char> {
    match e {
        SpecParseError::InvalidInput(t) => "Invalid input: "@ + t,
        SpecParseError::WrongArgumentsCount => "Wrong arguments count"@,
        SpecParseError::EmptyInput => "Empty input"@,
        SpecParseError::LeftArguments => "Left arguments"@,
    }
}

impl ParseError {
    /// A human-readable description of the error; an invalid-input message
    /// carries the offending token verbatim.
    pub fn message(&self) -> (r: String)
        ensures
            r@ == parse_error_text(self@),
    {
        match self {
            ParseError::InvalidInput(t) => String::from_str("Invalid input: ").concat(t.as_str()),
            ParseError::WrongArgumentsCount => String::from_str("Wrong arguments count"),
            ParseError::EmptyInput => String::from_str("Empty input"),
            ParseError::LeftArguments => String::from_str("Left arguments"),
        }
    }
}

/// One left-to-right pass over the tokens, keeping a stack of already
/// built subtrees. A binary operator pops the right operand first, then
/// the left, and pushes their node; the square operator pops one operand;
/// a literal pushes a leaf; any other token fails with it verbatim. At the
/// end the stack must hold exactly one tree.
pub open spec fn parse_tokens(toks: Seq<Seq<char>>, stack: Seq<Expr>) -> Result<
    Expr,
    SpecParseError,
>
    decreases toks.len(),
{
    if toks.len() == 0 {
        if stack.len() > 1 {
            Err(SpecParseError::LeftArguments)
        } else if stack.len() == 1 {
            Ok(stack[0])
        } else {
            Err(SpecParseError::EmptyInput)
        }
    } else {
        let t = toks[0];
        match token_op(t) {
            Some(OpToken::Binary(op)) => if stack.len() < 2 {
                Err(SpecParseError::WrongArgumentsCount)
            } else {
                parse_tokens(
                    toks.drop_first(),
                    stack.drop_last().drop_last().push(
                        binary_node(op, stack[stack.len() - 2], stack.last()),
                    ),
                )
            },
            Some(OpToken::Square) => if stack.len() < 1 {
                Err(SpecParseError::WrongArgumentsCount)
            } else {
                parse_tokens(
                    toks.drop_first(),
                    stack.drop_last().push(Expr::Sqr(Box::new(stack.last()))),
                )
            },
            None => if is_i64_literal(t) {
                parse_tokens(toks.drop_first(), stack.push(Expr::Number(literal_value(t) as i64)))
            } else {
                Err(SpecParseError::InvalidInput(t))
            },
        }
    }
}

/// What `parse` returns on input text `s`.
pub open spec fn spec_parse(s: Seq<char>) -> Result<Expr, SpecParseError> {
    parse_tokens(tokenize(s), Seq::empty())
}

/// The returned tree or error agrees with the model result, the token text
/// of an invalid-input error included.
pub open spec fn parse_result_matches(
    r: Result<Expr, ParseError>,
    m: Result<Expr, SpecParseError>,
) -> bool {
    match r {
        Ok(e) => m == Ok::<Expr, SpecParseError>(e),
        Err(err) => m == Err::<Expr, SpecParseError>(err@),
    }
}

/// Pop the right operand, then the left, and push the node that `op`
/// builds from them; fail without popping past an empty stack.
fn apply_binary(stack: &mut Vec<Expr>, op: BinOp) -> (r: Result<(), ParseError>)
    ensures
        old(stack)@.len() >= 2 ==> r is Ok,
        old(stack)@.len() >= 2 ==> final(stack)@ == old(stack)@.drop_last().drop_last().push(
            binary_node(op, old(stack)@[old(stack)@.len() - 2], old(stack)@.last()),
        ),
        old(stack)@.len() < 2 ==> r == Err::<(), ParseError>(ParseError::WrongArgumentsCount),
{
    let x = match stack.pop() {
        Some(e) => e,
        None => {
            return Err(ParseError::WrongArgumentsCount);
        },
    };
    let y = match stack.pop() {
        Some(e) => e,
        None => {
            return Err(ParseError::WrongArgumentsCount);
        },
    };
    let node = match op {
        BinOp::Add => Expr::Add(Box::new(y), Box::new(x)),
        BinOp::Sub => Expr::Sub(Box::new(y), Box::new(x)),
        BinOp::Mul => Expr::Mul(Box::new(y), Box::new(x)),
        BinOp::Div => Expr::Div(Box::new(y), Box::new(x)),
    };
    stack.push(node);
    Ok(())
}

/// Parse whitespace-delimited reverse-Polish text into an expression
/// tree. Succeeds exactly when the token stream is a single complete RPN
/// expression over `i64` literals and the five operators, and otherwise
/// returns the error that `spec_parse` assigns to the input.
pub fn parse(input: &str) -> (r: Result<Expr, ParseError>)
    ensures
        parse_result_matches(r, spec_parse(input@)),
{
    let toks = split_tokens(input);
    let ghost model = tokenize(input@);
    let mut stack: Vec<Expr> = Vec::new();
    proof {
        assert(model.skip(0) =~= model);
    }
    let mut idx: usize = 0;
    while idx < toks.len()
        invariant
            idx <= toks@.len(),
            str_views(toks@) == model,
            model == tokenize(input@),
            parse_tokens(model.skip(idx as int), stack@) == spec_parse(input@),
        decreases toks@.len() - idx,
    {
        let t: &str = toks[idx];
        proof {
            assert(model.len() == toks@.len());
            assert(model[idx as int] == t@);
            assert(model.skip(idx as int)[0] == model[idx as int]);
            assert(model.skip(idx as int).drop_first() =~= model.skip(idx as int + 1));
        }
        match classify_token(t) {
            Some(OpToken::Binary(op)) => {
                match apply_binary(&mut stack, op) {
                    Ok(()) => {},
                    Err(err) => {
                        return Err(err);
                    },
                }
            },
            Some(OpToken::Square) => {
                let x = match stack.pop() {
                    Some(e) => e,
                    None => {
                        return Err(ParseError::WrongArgumentsCount);
                    },
                };
                stack.push(Expr::Sqr(Box::new(x)));
            },
            None => {
                match parse_number(t) {
                    Some(v) => {
                        stack.push(Expr::Number(v));
                    },
                    None => {
                        return Err(ParseError::InvalidInput(String::from_str(t)));
                    },
                }
            },
        }
        idx = idx + 1;
    }
    proof {
        assert(model.skip(idx as int) =~= Seq::<Seq<char>>::empty());
    }
    if stack.len() > 1 {
        return Err(ParseError::LeftArguments);
    }
    match stack.pop() {
        Some(e) => Ok(e),
        None => Err(ParseError::EmptyInput),
    }
}

/// Law: parsing is deterministic. Any two results that `parse` may return
/// for the same text agree: the same tree on success, and the same error
/// kind — offending token text included — on failure.
pub proof fn lemma_parse_deterministic(
    s: Seq<char>,
    r1: Result<Expr, ParseError>,
    r2: Result<Expr, ParseError>,
)
    requires
        parse_result_matches(r1, spec_parse(s)),
        parse_result_matches(r2, spec_parse(s)),
    ensures
        r1 matches Ok(e1) ==> (r2 matches Ok(e2) && e1 == e2),
        r1 matches Err(err1) ==> (r2 matches Err(err2) && err1@ == err2@),
{
}

/// An `i64` literal is never an operator token: a lone sign has no digits,
/// and no operator character is a digit.
pub proof fn lemma_literal_not_op(t: Seq<char>)
    requires
        is_i64_literal(t),
    ensures
        token_op(t) == None::<OpToken>,
{
    if is_sqr_token(t) {
        assert(!is_ascii_digit(literal_body(t)[0]));
    }
}

/// Law: a binary operator takes the two operands written before it in
/// writing order — the earlier one becomes the left child, the later one
/// the right child. So the token stream `a b op` parses to `op(a, b)`,
/// and with the subtraction operator it evaluates to `a - b`, not `b - a`.
pub proof fn lemma_operand_order(a: Seq<char>, b: Seq<char>, t: Seq<char>, op: BinOp)
    requires
        is_i64_literal(a),
        is_i64_literal(b),
        token_op(t) == Some(OpToken::Binary(op)),
    ensures
        parse_tokens(seq![a, b, t], Seq::empty()) == Ok::<Expr, SpecParseError>(
            binary_node(
                op,
                Expr::Number(literal_value(a) as i64),
                Expr::Number(literal_value(b) as i64),
            ),
        ),
        op == BinOp::Sub ==> eval_spec(
            binary_node(
                op,
                Expr::Number(literal_value(a) as i64),
                Expr::Number(literal_value(b) as i64),
            ),
        ) == Ok::<i64, EvalError>(
            (literal_value(a) as i64).wrapping_sub(literal_value(b) as i64),
        ),
{
    let na = Expr::Number(literal_value(a) as i64);
    let nb = Expr::Number(literal_value(b) as i64);
    assert(eval_spec(na) == Ok::<i64, EvalError>(literal_value(a) as i64));
    assert(eval_spec(nb) == Ok::<i64, EvalError>(literal_value(b) as i64));
    lemma_literal_not_op(a);
    lemma_literal_not_op(b);
    assert(seq![a, b, t].drop_first() =~= seq![b, t]);
    assert(seq![b, t].drop_first() =~= seq![t]);
    assert(seq![t].drop_first() =~= Seq::<Seq<char>>::empty());
    assert(Seq::<Expr>::empty().push(na) =~= seq![na]);
    assert(seq![na].push(nb) =~= seq![na, nb]);
    let stack2 = seq![na, nb];
    let node = binary_node(op, na, nb);
    assert(stack2[stack2.len() - 2] == na);
    assert(stack2.last() == nb);
    assert(stack2.drop_last().drop_last().push(node) =~= seq![node]);
    assert(parse_tokens(seq![a, b, t], Seq::empty()) == parse_tokens(seq![b, t], seq![na]));
    assert(parse_tokens(seq![b, t], seq![na]) == parse_tokens(seq![t], stack2));
    assert(parse_tokens(seq![t], stack2) == parse_tokens(Seq::<Seq<char>>::empty(), seq![node]));
    assert(parse_tokens(Seq::<Seq<char>>::empty(), seq![node]) == Ok::<Expr, SpecParseError>(
        node,
    ));
}

impl std::str::FromStr for Expr {
    type Err = ParseError;

    /// Parsing through `str::parse::<Expr>()` agrees with `parse` exactly.
    fn from_str(s: &str) -> (r: Result<Self, Self::Err>)
        ensures
            parse_result_matches(r, spec_parse(s@)),
    {
        parse(s)
    }
}

} // verus!
