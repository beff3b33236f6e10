//! Syntactic analysis: builds an expression tree from the token sequence
//! by recursive descent over this grammar, lowest precedence first.
//!
//! ```text
//! expression := term (( '+' | '-' ) term)*            left-associative
//! term       := factor (( '*' | '/' ) factor)*        left-associative
//! factor     := NUMBER
//!             | '(' expression ')'
//!             | unary_fn '(' expression ')'
//!             | 'pow' '(' expression ',' expression ')'
//!             | '-' factor                            right-recursive
//! ```
//!
//! where `unary_fn` is one of `cos acos sin asin tan atan sqrt`. The
//! parser walks the tokens with an explicit cursor; each level returns
//! the tree it built and the cursor position it stopped at. The whole
//! parse succeeds only when every token was consumed.

use crate::error::ParseError;
use crate::lexer::Token;
use crate::lexer::TokenV;
use vstd::prelude::*;

verus! {

/// An expression tree node. Operator nodes carry the operator's token;
/// the grammar only ever pairs an operator with its own arity (see
/// [`wf_expr`]), but the pairing is open, so the evaluator still checks
/// it.
#[derive(Debug, PartialEq)]
pub enum Expression {
    /// A numeric literal, as the exact text of its numeral.
    Number(String),
    /// A binary operation: left operand, operator, right operand.
    BinaryOp(Box<Expression>, Token, Box<Expression>),
    /// A unary operation: operator and operand.
    UnaryOp(Token, Box<Expression>),
}

/// The mathematical model of an expression tree.
pub enum ExprV {
    Number(Seq<char>),
    BinaryOp(Box<ExprV>, TokenV, Box<ExprV>),
    UnaryOp(TokenV, Box<ExprV>),
}

/// The model of a tree: the same shape over modelled tokens and text.
pub open spec fn expr_view(e: Expression) -> ExprV
    decreases e,
{
    match e {
        Expression::Number(s) => ExprV::Number(s@),
        Expression::BinaryOp(l, op, r) => ExprV::BinaryOp(
            Box::new(expr_view(*l)),
            op@,
            Box::new(expr_view(*r)),
        ),
        Expression::UnaryOp(op, x) => ExprV::UnaryOp(op@, Box::new(expr_view(*x))),
    }
}

impl View for Expression {
    type V = ExprV;

    open spec fn view(&self) -> ExprV {
        expr_view(*self)
    }
}

/// A binary operator the grammar accepts.
pub open spec fn is_binary_op(op: TokenV) -> bool {
    op is Plus || op is Minus || op is Multiply || op is Divide || op is Pow
}

/// A unary operator the grammar accepts: negation and the named functions.
pub open spec fn is_unary_op(op: TokenV) -> bool {
    op is Minus || op is Cos || op is Acos || op is Sin || op is Asin || op is Tan || op is Atan
        || op is Sqrt
}

/// The tree invariant the grammar maintains: every operator node pairs
/// its operator with the arity the grammar accepted it for.
pub open spec fn wf_expr(e: ExprV) -> bool
    decreases e,
{
    match e {
        ExprV::Number(_) => true,
        ExprV::BinaryOp(l, op, r) => is_binary_op(op) && wf_expr(*l) && wf_expr(*r),
        ExprV::UnaryOp(op, x) => is_unary_op(op) && wf_expr(*x),
    }
}

/// What parsing an `expression` at cursor `i` yields: the tree and the
/// cursor position after it, or the first syntax error.
pub open spec fn spec_parse_expression(ts: Seq<TokenV>, i: int) -> Result<(ExprV, int), ParseError>
    decreases ts.len() - i, 5int,
{
    match spec_parse_term(ts, i) {
        Ok((left, j)) => if i <= j <= ts.len() {
            spec_parse_expr_rest(ts, j, left)
        } else {
            // a parse never moves the cursor backwards nor past the end;
            // the bound carries the termination measure
            Ok((left, j))
        },
        Err(e) => Err(e),
    }
}

/// Folds further `+`/`-` terms onto `left`, producing the
/// left-associative tree.
pub open spec fn spec_parse_expr_rest(ts: Seq<TokenV>, i: int, left: ExprV) -> Result<
    (ExprV, int),
    ParseError,
>
    decreases ts.len() - i, 4int,
{
    if 0 <= i < ts.len() && (ts[i] is Plus || ts[i] is Minus) {
        match spec_parse_term(ts, i + 1) {
            Ok((right, j)) => {
                let folded = ExprV::BinaryOp(Box::new(left), ts[i], Box::new(right));
                if i < j <= ts.len() {
                    spec_parse_expr_rest(ts, j, folded)
                } else {
                    // a term consumes at least one token; the bound
                    // carries the termination measure
                    Ok((folded, j))
                }
            },
            Err(e) => Err(e),
        }
    } else {
        Ok((left, i))
    }
}

/// What parsing a `term` at cursor `i` yields.
pub open spec fn spec_parse_term(ts: Seq<TokenV>, i: int) -> Result<(ExprV, int), ParseError>
    decreases ts.len() - i, 3int,
{
    match spec_parse_factor(ts, i) {
        Ok((left, j)) => if i <= j <= ts.len() {
            spec_parse_term_rest(ts, j, left)
        } else {
            // see spec_parse_expression on the bound
            Ok((left, j))
        },
        Err(e) => Err(e),
    }
}

/// Folds further `*`/`/` factors onto `left`, producing the
/// left-associative tree.
pub open spec fn spec_parse_term_rest(ts: Seq<TokenV>, i: int, left: ExprV) -> Result<
    (ExprV, int),
    ParseError,
>
    decreases ts.len() - i, 2int,
{
    if 0 <= i < ts.len() && (ts[i] is Multiply || ts[i] is Divide) {
        match spec_parse_factor(ts, i + 1) {
            Ok((right, j)) => {
                let folded = ExprV::BinaryOp(Box::new(left), ts[i], Box::new(right));
                if i < j <= ts.len() {
                    spec_parse_term_rest(ts, j, folded)
                } else {
                    // see spec_parse_expr_rest on the bound
                    Ok((folded, j))
                }
            },
            Err(e) => Err(e),
        }
    } else {
        Ok((left, i))
    }
}

/// What parsing a `factor` at cursor `i` yields.
pub open spec fn spec_parse_factor(ts: Seq<TokenV>, i: int) -> Result<(ExprV, int), ParseError>
    decreases ts.len() - i, 1int,
{
    if !(0 <= i < ts.len()) {
        Err(ParseError::UnexpectedEndOfInput)
    } else {
        match ts[i] {
            TokenV::Number(text) => Ok((ExprV::Number(text), i + 1)),
            TokenV::Minus => match spec_parse_factor(ts, i + 1) {
                Ok((inner, j)) => Ok((ExprV::UnaryOp(TokenV::Minus, Box::new(inner)), j)),
                Err(e) => Err(e),
            },
            TokenV::LeftParen => match spec_parse_expression(ts, i + 1) {
                Ok((inner, j)) => if 0 <= j < ts.len() && ts[j] is RightParen {
                    Ok((inner, j + 1))
                } else {
                    Err(ParseError::ExpectedRightParen)
                },
                Err(e) => Err(e),
            },
            TokenV::Cos => spec_parse_unary_call(ts, i + 1, TokenV::Cos),
            TokenV::Acos => spec_parse_unary_call(ts, i + 1, TokenV::Acos),
            TokenV::Sin => spec_parse_unary_call(ts, i + 1, TokenV::Sin),
            TokenV::Asin => spec_parse_unary_call(ts, i + 1, TokenV::Asin),
            TokenV::Tan => spec_parse_unary_call(ts, i + 1, TokenV::Tan),
            TokenV::Atan => spec_parse_unary_call(ts, i + 1, TokenV::Atan),
            TokenV::Sqrt => spec_parse_unary_call(ts, i + 1, TokenV::Sqrt),
            TokenV::Pow => spec_parse_binary_call(ts, i + 1, TokenV::Pow),
            _ => Err(ParseError::UnexpectedToken),
        }
    }
}

/// What parsing a one-argument call `'(' expression ')'` for the
/// function `op` yields, with the cursor on the expected `(`.
pub open spec fn spec_parse_unary_call(ts: Seq<TokenV>, i: int, op: TokenV) -> Result<
    (ExprV, int),
    ParseError,
>
    decreases ts.len() - i, 1int,
{
    if 0 <= i < ts.len() && ts[i] is LeftParen {
        match spec_parse_expression(ts, i + 1) {
            Ok((arg, j)) => if 0 <= j < ts.len() && ts[j] is RightParen {
                Ok((ExprV::UnaryOp(op, Box::new(arg)), j + 1))
            } else {
                Err(ParseError::ExpectedRightParen)
            },
            Err(e) => Err(e),
        }
    } else {
        Err(ParseError::ExpectedLeftParen)
    }
}

/// What parsing a two-argument call `'(' expression ',' expression ')'`
/// for the function `op` yields, with the cursor on the expected `(`.
pub open spec fn spec_parse_binary_call(ts: Seq<TokenV>, i: int, op: TokenV) -> Result<
    (ExprV, int),
    ParseError,
>
    decreases ts.len() - i, 1int,
{
    if 0 <= i < ts.len() && ts[i] is LeftParen {
        match spec_parse_expression(ts, i + 1) {
            Ok((first, j)) => if i <= j < ts.len() && ts[j] is Comma {
                match spec_parse_expression(ts, j + 1) {
                    Ok((second, k)) => if 0 <= k < ts.len() && ts[k] is RightParen {
                        Ok((ExprV::BinaryOp(Box::new(first), op, Box::new(second)), k + 1))
                    } else {
                        Err(ParseError::ExpectedRightParen)
                    },
                    Err(e) => Err(e),
                }
            } else {
                Err(ParseError::ExpectedComma)
            },
            Err(e) => Err(e),
        }
    } else {
        Err(ParseError::ExpectedLeftParen)
    }
}

/// What parsing the whole token sequence yields: the expression's tree,
/// provided it consumes every token; a leftover token is an error.
pub open spec fn spec_parse(ts: Seq<TokenV>) -> Result<ExprV, ParseError> {
    match spec_parse_expression(ts, 0) {
        Ok((e, j)) => if j == ts.len() {
            Ok(e)
        } else {
            Err(ParseError::UnexpectedToken)
        },
        Err(e) => Err(e),
    }
}

/// The model of an intermediate parsing step's result.
pub open spec fn step_view(r: Result<(Expression, usize), ParseError>) -> Result<
    (ExprV, int),
    ParseError,
> {
    match r {
        Ok((e, j)) => Ok((e@, j as int)),
        Err(p) => Err(p),
    }
}

fn parse_expression(tokens: &Vec<Token>, i: usize) -> (r: Result<(Expression, usize), ParseError>)
    requires
        i <= tokens@.len(),
    ensures
        step_view(r) == spec_parse_expression(tokens.deep_view(), i as int),
        match r {
            Ok((e, j)) => i < j <= tokens@.len() && wf_expr(e@),
            Err(_) => true,
        },
    decreases tokens@.len() - i, 5int,
{
    match parse_term(tokens, i) {
        Ok((left, j)) => parse_expr_rest(tokens, j, left),
        Err(e) => Err(e),
    }
}

fn parse_expr_rest(tokens: &Vec<Token>, i: usize, left: Expression) -> (r: Result<
    (Expression, usize),
    ParseError,
>)
    requires
        i <= tokens@.len(),
        wf_expr(left@),
    ensures
        step_view(r) == spec_parse_expr_rest(tokens.deep_view(), i as int, left@),
        match r {
            Ok((e, j)) => i <= j <= tokens@.len() && wf_expr(e@),
            Err(_) => true,
        },
    decreases tokens@.len() - i, 4int,
{
    if i < tokens.len() {
        let op: Option<Token> = match &tokens[i] {
            Token::Plus => Some(Token::Plus),
            Token::Minus => Some(Token::Minus),
            _ => None,
        };
        match op {
            Some(op) => {
                match parse_term(tokens, i + 1) {
                    Ok((right, j)) => {
                        let folded = Expression::BinaryOp(Box::new(left), op, Box::new(right));
                        parse_expr_rest(tokens, j, folded)
                    },
                    Err(e) => Err(e),
                }
            },
            None => Ok((left, i)),
        }
    } else {
        Ok((left, i))
    }
}

fn parse_term(tokens: &Vec<Token>, i: usize) -> (r: Result<(Expression, usize), ParseError>)
    requires
        i <= tokens@.len(),
    ensures
        step_view(r) == spec_parse_term(tokens.deep_view(), i as int),
        match r {
            Ok((e, j)) => i < j <= tokens@.len() && wf_expr(e@),
            Err(_) => true,
        },
    decreases tokens@.len() - i, 3int,
{
    match parse_factor(tokens, i) {
        Ok((left, j)) => parse_term_rest(tokens, j, left),
        Err(e) => Err(e),
    }
}

fn parse_term_rest(tokens: &Vec<Token>, i: usize, left: Expression) -> (r: Result<
    (Expression, usize),
    ParseError,
>)
    requires
        i <= tokens@.len(),
        wf_expr(left@),
    ensures
        step_view(r) == spec_parse_term_rest(tokens.deep_view(), i as int, left@),
        match r {
            Ok((e, j)) => i <= j <= tokens@.len() && wf_expr(e@),
            Err(_) => true,
        },
    decreases tokens@.len() - i, 2int,
{
    if i < tokens.len() {
        let op: Option<Token> = match &tokens[i] {
            Token::Multiply => Some(Token::Multiply),
            Token::Divide => Some(Token::Divide),
            _ => None,
        };
        match op {
            Some(op) => {
                match parse_factor(tokens, i + 1) {
                    Ok((right, j)) => {
                        let folded = Expression::BinaryOp(Box::new(left), op, Box::new(right));
                        parse_term_rest(tokens, j, folded)
                    },
                    Err(e) => Err(e),
                }
            },
            None => Ok((left, i)),
        }
    } else {
        Ok((left, i))
    }
}

fn parse_factor(tokens: &Vec<Token>, i: usize) -> (r: Result<(Expression, usize), ParseError>)
    requires
        i <= tokens@.len(),
    ensures
        step_view(r) == spec_parse_factor(tokens.deep_view(), i as int),
        match r {
            Ok((e, j)) => i < j <= tokens@.len() && wf_expr(e@),
            Err(_) => true,
        },
    decreases tokens@.len() - i, 1int,
{
    if i >= tokens.len() {
        return Err(ParseError::UnexpectedEndOfInput);
    }
    match &tokens[i] {
        Token::Number(text) => Ok((Expression::Number(text.clone()), i + 1)),
        Token::Minus => match parse_factor(tokens, i + 1) {
            Ok((inner, j)) => Ok((Expression::UnaryOp(Token::Minus, Box::new(inner)), j)),
            Err(e) => Err(e),
        },
        Token::LeftParen => match parse_expression(tokens, i + 1) {
            Ok((inner, j)) => {
                if j < tokens.len() && matches!(&tokens[j], Token::RightParen) {
                    Ok((inner, j + 1))
                } else {
                    Err(ParseError::ExpectedRightParen)
                }
            },
            Err(e) => Err(e),
        },
        Token::Cos => parse_unary_call(tokens, i + 1, Token::Cos),
        Token::Acos => parse_unary_call(tokens, i + 1, Token::Acos),
        Token::Sin => parse_unary_call(tokens, i + 1, Token::Sin),
        Token::Asin => parse_unary_call(tokens, i + 1, Token::Asin),
        Token::Tan => parse_unary_call(tokens, i + 1, Token::Tan),
        Token::Atan => parse_unary_call(tokens, i + 1, Token::Atan),
        Token::Sqrt => parse_unary_call(tokens, i + 1, Token::Sqrt),
        Token::Pow => parse_binary_call(tokens, i + 1, Token::Pow),
        _ => Err(ParseError::UnexpectedToken),
    }
}

fn parse_unary_call(tokens: &Vec<Token>, i: usize, op: Token) -> (r: Result<
    (Expression, usize),
    ParseError,
>)
    requires
        i <= tokens@.len(),
        is_unary_op(op@),
    ensures
        step_view(r) == spec_parse_unary_call(tokens.deep_view(), i as int, op@),
        match r {
            Ok((e, j)) => i < j <= tokens@.len() && wf_expr(e@),
            Err(_) => true,
        },
    decreases tokens@.len() - i, 1int,
{
    if i < tokens.len() && matches!(&tokens[i], Token::LeftParen) {
        match parse_expression(tokens, i + 1) {
            Ok((arg, j)) => {
                if j < tokens.len() && matches!(&tokens[j], Token::RightParen) {
                    Ok((Expression::UnaryOp(op, Box::new(arg)), j + 1))
                } else {
                    Err(ParseError::ExpectedRightParen)
                }
            },
            Err(e) => Err(e),
        }
    } else {
        Err(ParseError::ExpectedLeftParen)
    }
}

fn parse_binary_call(tokens: &Vec<Token>, i: usize, op: Token) -> (r: Result<
    (Expression, usize),
    ParseError,
>)
    requires
        i <= tokens@.len(),
        is_binary_op(op@),
    ensures
        step_view(r) == spec_parse_binary_call(tokens.deep_view(), i as int, op@),
        match r {
            Ok((e, j)) => i < j <= tokens@.len() && wf_expr(e@),
            Err(_) => true,
        },
    decreases tokens@.len() - i, 1int,
{
    if i < tokens.len() && matches!(&tokens[i], Token::LeftParen) {
        match parse_expression(tokens, i + 1) {
            Ok((first, j)) => {
                if j < tokens.len() && matches!(&tokens[j], Token::Comma) {
                    match parse_expression(tokens, j + 1) {
                        Ok((second, k)) => {
                            if k < tokens.len() && matches!(&tokens[k], Token::RightParen) {
                                Ok(
                                    (
                                        Expression::BinaryOp(
                                            Box::new(first),
                                            op,
                                            Box::new(second),
                                        ),
                                        k + 1,
                                    ),
                                )
                            } else {
                                Err(ParseError::ExpectedRightParen)
                            }
                        },
                        Err(e) => Err(e),
                    }
                } else {
                    Err(ParseError::ExpectedComma)
                }
            },
            Err(e) => Err(e),
        }
    } else {
        Err(ParseError::ExpectedLeftParen)
    }
}

/// Parses the token sequence into an expression tree. The result is
/// exactly what the grammar's mathematical reading `spec_parse` says:
/// the tree for a well-formed sequence — and that tree satisfies the
/// operator/arity invariant `wf_expr` — or the first syntax error, with
/// leftover tokens rejected as unexpected.
pub fn parse(tokens: &Vec<Token>) -> (r: Result<Expression, ParseError>)
    ensures
        match r {
            Ok(e) => spec_parse(tokens.deep_view()) == Ok::<ExprV, ParseError>(e@) && wf_expr(e@),
            Err(p) => spec_parse(tokens.deep_view()) == Err::<ExprV, ParseError>(p),
        },
{
    match parse_expression(tokens, 0) {
        Ok((e, j)) => {
            if j == tokens.len() {
                Ok(e)
            } else {
                Err(ParseError::UnexpectedToken)
            }
        },
        Err(p) => Err(p),
    }
}

} // verus!
