//! Evaluation: walks the expression tree post-order and decides every
//! step of the computation, while the arithmetic itself is performed by
//! the caller.
//!
//! Numbers are handled as IEEE 754 double-precision bit patterns
//! (`u64`), which this module never interprets arithmetically; the one
//! numeric decision it takes itself — whether a divisor equals zero — is
//! a decision on two known bit patterns. A driver evaluates a tree by
//! calling [`evaluate`] with the results it has supplied so far (none at
//! first): the call either finishes, with the tree's value or an error,
//! or asks for one more operation. The driver appends that operation's
//! result bits and calls again; a tree with `n` nodes needs at most `n`
//! rounds (see [`lemma_eval_progress`]).
//!
//! The one numeric error is division by zero. Domain violations of the
//! inverse trigonometric functions and of the square root are not
//! errors: they flow through as whatever bits the driver computes —
//! not-a-number, under standard floating-point semantics.

use crate::lexer::Token;
use crate::lexer::TokenV;
use crate::parser::Expression;
use crate::parser::ExprV;
use crate::parser::is_binary_op;
use crate::parser::is_unary_op;
use crate::parser::wf_expr;
use vstd::prelude::*;

verus! {

/// An evaluation error.
#[derive(Debug, PartialEq, Eq, Structural, Clone, Copy)]
pub enum EvaluationError {
    /// A division whose right operand is exactly zero.
    DivisionByZero,
    /// An operator node whose operator does not fit its arity; a tree
    /// built by the parser never contains one.
    InvalidOperation,
}

/// How one round of evaluation ended: with the tree's value or an
/// error, or with a request for one more operation result.
#[derive(Debug, PartialEq)]
pub enum EvalStep {
    /// The tree's value, as IEEE 754 double bits.
    Value(u64),
    /// Evaluation failed; further rounds would fail the same way.
    Failed(EvaluationError),
    /// This numeral's text must be read as a number; append the
    /// number's bits to the supplied results and call again.
    NeedLiteral(String),
    /// This unary operator must be applied to this value; append the
    /// result's bits and call again.
    NeedUnary(Token, u64),
    /// This binary operator must be applied to these two values, left
    /// then right; append the result's bits and call again.
    NeedBinary(Token, u64, u64),
}

/// The mathematical model of a round's end.
pub enum EvalStepV {
    Value(u64),
    Failed(EvaluationError),
    NeedLiteral(Seq<char>),
    NeedUnary(TokenV, u64),
    NeedBinary(TokenV, u64, u64),
}

impl View for EvalStep {
    type V = EvalStepV;

    open spec fn view(&self) -> EvalStepV {
        match self {
            EvalStep::Value(b) => EvalStepV::Value(*b),
            EvalStep::Failed(e) => EvalStepV::Failed(*e),
            EvalStep::NeedLiteral(s) => EvalStepV::NeedLiteral(s@),
            EvalStep::NeedUnary(op, a) => EvalStepV::NeedUnary(op@, *a),
            EvalStep::NeedBinary(op, a, b) => EvalStepV::NeedBinary(op@, *a, *b),
        }
    }
}

/// The two bit patterns that compare equal to zero as doubles: positive
/// and negative zero. A divisor is rejected exactly when its bits are
/// one of these.
pub open spec fn is_zero_bits(b: u64) -> bool {
    b == 0u64 || b == 0x8000_0000_0000_0000u64
}

/// Evaluates the tree post-order against the stream of operation
/// results supplied so far: each node, visited children first, takes
/// the next result from the stream — unless its operator fails its
/// arity, or a division meets a zero divisor, which end the evaluation
/// — and a node that finds the stream exhausted becomes the request for
/// the one result now needed. Yields how the round ended and the
/// unconsumed rest of the stream.
pub open spec fn spec_eval(e: ExprV, rs: Seq<u64>) -> (EvalStepV, Seq<u64>)
    decreases e,
{
    match e {
        ExprV::Number(text) => {
            if rs.len() == 0 {
                (EvalStepV::NeedLiteral(text), rs)
            } else {
                (EvalStepV::Value(rs[0]), rs.skip(1))
            }
        },
        ExprV::UnaryOp(op, x) => {
            let (o, rs1) = spec_eval(*x, rs);
            match o {
                EvalStepV::Value(v) => {
                    if !is_unary_op(op) {
                        (EvalStepV::Failed(EvaluationError::InvalidOperation), rs1)
                    } else if rs1.len() == 0 {
                        (EvalStepV::NeedUnary(op, v), rs1)
                    } else {
                        (EvalStepV::Value(rs1[0]), rs1.skip(1))
                    }
                },
                _ => (o, rs1),
            }
        },
        ExprV::BinaryOp(l, op, r) => {
            let (o1, rs1) = spec_eval(*l, rs);
            match o1 {
                EvalStepV::Value(a) => {
                    let (o2, rs2) = spec_eval(*r, rs1);
                    match o2 {
                        EvalStepV::Value(b) => {
                            if !is_binary_op(op) {
                                (EvalStepV::Failed(EvaluationError::InvalidOperation), rs2)
                            } else if op is Divide && is_zero_bits(b) {
                                (EvalStepV::Failed(EvaluationError::DivisionByZero), rs2)
                            } else if rs2.len() == 0 {
                                (EvalStepV::NeedBinary(op, a, b), rs2)
                            } else {
                                (EvalStepV::Value(rs2[0]), rs2.skip(1))
                            }
                        },
                        _ => (o2, rs2),
                    }
                },
                _ => (o1, rs1),
            }
        },
    }
}

fn token_is_unary_op(op: &Token) -> (r: bool)
    ensures
        r == is_unary_op(op@),
{
    match op {
        Token::Minus | Token::Cos | Token::Acos | Token::Sin | Token::Asin | Token::Tan
            | Token::Atan | Token::Sqrt => true,
        _ => false,
    }
}

fn token_is_binary_op(op: &Token) -> (r: bool)
    ensures
        r == is_binary_op(op@),
{
    match op {
        Token::Plus | Token::Minus | Token::Multiply | Token::Divide | Token::Pow => true,
        _ => false,
    }
}

fn eval_at(e: &Expression, results: &Vec<u64>, pos: usize) -> (r: (EvalStep, usize))
    requires
        pos <= results@.len(),
    ensures
        pos <= r.1 <= results@.len(),
        (r.0@, results@.skip(r.1 as int)) == spec_eval(e@, results@.skip(pos as int)),
    decreases *e,
{
    match e {
        Expression::Number(text) => {
            if pos < results.len() {
                proof {
                    assert(results@.skip(pos as int).skip(1) =~= results@.skip(pos as int + 1));
                }
                (EvalStep::Value(results[pos]), pos + 1)
            } else {
                proof {
                    assert(results@.skip(pos as int).len() == 0);
                }
                (EvalStep::NeedLiteral(text.clone()), pos)
            }
        },
        Expression::UnaryOp(op, x) => {
            let (o, p1) = eval_at(x, results, pos);
            match o {
                EvalStep::Value(v) => {
                    if !token_is_unary_op(op) {
                        (EvalStep::Failed(EvaluationError::InvalidOperation), p1)
                    } else if p1 < results.len() {
                        proof {
                            assert(results@.skip(p1 as int).skip(1) =~= results@.skip(
                                p1 as int + 1,
                            ));
                        }
                        (EvalStep::Value(results[p1]), p1 + 1)
                    } else {
                        proof {
                            assert(results@.skip(p1 as int).len() == 0);
                        }
                        (EvalStep::NeedUnary(op.dup(), v), p1)
                    }
                },
                other => (other, p1),
            }
        },
        Expression::BinaryOp(l, op, r) => {
            let (o1, p1) = eval_at(l, results, pos);
            match o1 {
                EvalStep::Value(a) => {
                    let (o2, p2) = eval_at(r, results, p1);
                    match o2 {
                        EvalStep::Value(b) => {
                            if !token_is_binary_op(op) {
                                (EvalStep::Failed(EvaluationError::InvalidOperation), p2)
                            } else if matches!(op, Token::Divide) && (b == 0 || b
                                == 0x8000_0000_0000_0000) {
                                (EvalStep::Failed(EvaluationError::DivisionByZero), p2)
                            } else if p2 < results.len() {
                                proof {
                                    assert(results@.skip(p2 as int).skip(1) =~= results@.skip(
                                        p2 as int + 1,
                                    ));
                                }
                                (EvalStep::Value(results[p2]), p2 + 1)
                            } else {
                                proof {
                                    assert(results@.skip(p2 as int).len() == 0);
                                }
                                (EvalStep::NeedBinary(op.dup(), a, b), p2)
                            }
                        },
                        other => (other, p2),
                    }
                },
                other => (other, p1),
            }
        },
    }
}

/// One round of evaluation: a pure function of the tree and of the
/// operation results supplied so far, exactly as the mathematical
/// walk `spec_eval` reads them. Call first with no results; whenever
/// the round ends in a request, append the requested operation's result
/// bits and call again.
pub fn evaluate(ast: &Expression, op_results: &Vec<u64>) -> (r: EvalStep)
    ensures
        r@ == spec_eval(ast@, op_results@).0,
{
    proof {
        assert(op_results@.skip(0) =~= op_results@);
    }
    let (step, _) = eval_at(ast, op_results, 0);
    step
}

/// The number of nodes of a tree: an evaluation consumes at most one
/// supplied result per node.
pub open spec fn node_count(e: ExprV) -> nat
    decreases e,
{
    match e {
        ExprV::Number(_) => 1,
        ExprV::UnaryOp(_, x) => 1 + node_count(*x),
        ExprV::BinaryOp(l, _, r) => 1 + node_count(*l) + node_count(*r),
    }
}

/// Evaluation asks for another operation result only once it has
/// consumed the whole stream, and never consumes more results than the
/// tree has nodes: a driver that answers each request in turn is done
/// after at most `node_count` rounds.
pub proof fn lemma_eval_progress(e: ExprV, rs: Seq<u64>)
    ensures
        ({
            let (o, rest) = spec_eval(e, rs);
            &&& rest.len() >= rs.len() - node_count(e)
            &&& (o is NeedLiteral || o is NeedUnary || o is NeedBinary) ==> rest.len() == 0
                && rs.len() < node_count(e)
        }),
    decreases e,
{
    match e {
        ExprV::Number(_) => {},
        ExprV::UnaryOp(op, x) => {
            lemma_eval_progress(*x, rs);
        },
        ExprV::BinaryOp(l, op, r) => {
            lemma_eval_progress(*l, rs);
            let (o1, rs1) = spec_eval(*l, rs);
            lemma_eval_progress(*r, rs1);
        },
    }
}

/// The tree invariant the grammar maintains rules the arity error out:
/// evaluating a well-formed tree — in particular any tree the parser
/// built — never fails with `InvalidOperation`, whatever results the
/// driver supplies.
pub proof fn lemma_wf_no_invalid_operation(e: ExprV, rs: Seq<u64>)
    requires
        wf_expr(e),
    ensures
        spec_eval(e, rs).0 != EvalStepV::Failed(EvaluationError::InvalidOperation),
    decreases e,
{
    match e {
        ExprV::Number(_) => {},
        ExprV::UnaryOp(op, x) => {
            lemma_wf_no_invalid_operation(*x, rs);
        },
        ExprV::BinaryOp(l, op, r) => {
            lemma_wf_no_invalid_operation(*l, rs);
            let (o1, rs1) = spec_eval(*l, rs);
            lemma_wf_no_invalid_operation(*r, rs1);
        },
    }
}

} // verus!
