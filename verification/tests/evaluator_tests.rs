use calcrs::EvalStep;
use calcrs::EvaluationError;
use calcrs::Expression;
use calcrs::Token;
use calcrs::evaluate;
use calcrs::parse;
use calcrs::tokenize;

fn apply_unary(op: &Token, v: f64) -> f64 {
    match op {
        Token::Minus => -v,
        Token::Cos => v.cos(),
        Token::Acos => v.acos(),
        Token::Sin => v.sin(),
        Token::Asin => v.asin(),
        Token::Tan => v.tan(),
        Token::Atan => v.atan(),
        Token::Sqrt => v.sqrt(),
        _ => unreachable!(),
    }
}

fn apply_binary(op: &Token, a: f64, b: f64) -> f64 {
    match op {
        Token::Plus => a + b,
        Token::Minus => a - b,
        Token::Multiply => a * b,
        Token::Divide => a / b,
        Token::Pow => a.powf(b),
        _ => unreachable!(),
    }
}

/// Drives an evaluation to its end, answering each request with the
/// IEEE 754 double arithmetic it asks for.
fn eval_full(ast: &Expression) -> Result<f64, EvaluationError> {
    let mut results: Vec<u64> = Vec::new();
    loop {
        match evaluate(ast, &results) {
            EvalStep::Value(bits) => return Ok(f64::from_bits(bits)),
            EvalStep::Failed(e) => return Err(e),
            EvalStep::NeedLiteral(text) => {
                results.push(text.parse::<f64>().unwrap().to_bits());
            }
            EvalStep::NeedUnary(op, a) => {
                results.push(apply_unary(&op, f64::from_bits(a)).to_bits());
            }
            EvalStep::NeedBinary(op, a, b) => {
                results.push(apply_binary(&op, f64::from_bits(a), f64::from_bits(b)).to_bits());
            }
        }
    }
}

fn eval_str(input: &str) -> Result<f64, EvaluationError> {
    let tokens = tokenize(input).unwrap();
    let ast = parse(&tokens).unwrap();
    eval_full(&ast)
}

#[test]
fn test_evaluate_number() {
    assert_eq!(eval_str("42"), Ok(42.0));
}

#[test]
fn test_evaluate_binary_ops() {
    assert_eq!(eval_str("2 + 3 * 4 - 10 / 5"), Ok(12.0));
}

#[test]
fn test_evaluate_unary_ops() {
    assert_eq!(eval_str("sin(0)").unwrap(), 0.0);
}

#[test]
fn test_evaluate_division_by_zero() {
    assert_eq!(eval_str("1 / (2 - 2)"), Err(EvaluationError::DivisionByZero));
}

#[test]
fn test_evaluate_unary_op_minus() {
    assert_eq!(eval_str("-2.0").unwrap(), -2.0);
}

#[test]
fn test_subtraction_is_left_associative() {
    // `8 - 3 - 2` is `(8 - 3) - 2`, not `8 - (3 - 2)`.
    assert_eq!(eval_str("8 - 3 - 2"), Ok(3.0));
}

#[test]
fn test_multiplication_binds_tighter_than_addition() {
    assert_eq!(eval_str("2 + 3 * 4"), Ok(14.0));
    assert_eq!(eval_str("(2 + 3) * 4"), Ok(20.0));
}

#[test]
fn test_double_unary_minus() {
    assert_eq!(eval_str("- - 3"), Ok(3.0));
}

#[test]
fn test_sin_of_half() {
    let value = eval_str("sin(0.5)").unwrap();
    assert!((value - 0.4794255386).abs() < 1e-9);
}

#[test]
fn test_pow_two_arguments() {
    assert_eq!(eval_str("pow(2, 10)"), Ok(1024.0));
}

#[test]
fn test_division_by_negative_zero() {
    // `-0` compares equal to zero as a double, so dividing by it is the
    // same error as dividing by `0`.
    assert_eq!(eval_str("1 / -0"), Err(EvaluationError::DivisionByZero));
}

#[test]
fn test_division_by_nonzero_succeeds() {
    assert_eq!(eval_str("1 / 4"), Ok(0.25));
}

#[test]
fn test_invalid_operation_on_ill_formed_tree() {
    // A hand-built node pairing a binary-only operator with one operand
    // fails; the parser never builds such a tree.
    let ast = Expression::UnaryOp(
        Token::Plus,
        Box::new(Expression::Number("1".to_string())),
    );
    assert_eq!(eval_full(&ast), Err(EvaluationError::InvalidOperation));
}

#[test]
fn test_sqrt_evaluation() {
    assert_eq!(eval_str("sqrt(16) / 2"), Ok(2.0));
}

#[test]
fn test_evaluation_requests_come_in_post_order() {
    // Evaluating `1 + 2` asks for the literals left to right, then for
    // the addition of their values.
    let tokens = tokenize("1 + 2").unwrap();
    let ast = parse(&tokens).unwrap();
    let mut results: Vec<u64> = Vec::new();

    match evaluate(&ast, &results) {
        EvalStep::NeedLiteral(text) => assert_eq!(text, "1"),
        _ => unreachable!(),
    }
    results.push(1.0f64.to_bits());

    match evaluate(&ast, &results) {
        EvalStep::NeedLiteral(text) => assert_eq!(text, "2"),
        _ => unreachable!(),
    }
    results.push(2.0f64.to_bits());

    match evaluate(&ast, &results) {
        EvalStep::NeedBinary(op, a, b) => {
            assert_eq!(op, Token::Plus);
            assert_eq!(f64::from_bits(a), 1.0);
            assert_eq!(f64::from_bits(b), 2.0);
        }
        _ => unreachable!(),
    }
    results.push(3.0f64.to_bits());

    match evaluate(&ast, &results) {
        EvalStep::Value(bits) => assert_eq!(f64::from_bits(bits), 3.0),
        _ => unreachable!(),
    }
}
