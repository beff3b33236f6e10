use calcrs::Expression;
use calcrs::ParseError;
use calcrs::Token;
use calcrs::parse;
use calcrs::tokenize;

fn num(text: &str) -> Box<Expression> {
    Box::new(Expression::Number(text.to_string()))
}

#[test]
fn test_parse_expression() {
    let input = "1 + (2 * 3 - 10.5) / sin(0.5)";
    let tokens = tokenize(input).unwrap();
    let expected_ast = Expression::BinaryOp(
        num("1"),
        Token::Plus,
        Box::new(Expression::BinaryOp(
            Box::new(Expression::BinaryOp(
                Box::new(Expression::BinaryOp(num("2"), Token::Multiply, num("3"))),
                Token::Minus,
                num("10.5"),
            )),
            Token::Divide,
            Box::new(Expression::UnaryOp(Token::Sin, num("0.5"))),
        )),
    );

    let ast = parse(&tokens).unwrap();
    assert_eq!(ast, expected_ast);
}

#[test]
fn test_parse_unary_op() {
    let input = "sin(0.5)";
    let tokens = tokenize(input).unwrap();
    let expected_ast = Expression::UnaryOp(Token::Sin, num("0.5"));

    let ast = parse(&tokens).unwrap();
    assert_eq!(ast, expected_ast);
}

#[test]
fn test_parse_binary_op_pow() {
    let input = "pow(2, 3)";
    let tokens = tokenize(input).unwrap();
    let expected_ast = Expression::BinaryOp(num("2"), Token::Pow, num("3"));

    let ast = parse(&tokens).unwrap();
    assert_eq!(ast, expected_ast);
}

#[test]
fn test_parse_nested_expressions() {
    let input = "((1 + 2) * 3 - (4 / 2)) * (5 + 6)";
    let tokens = tokenize(input).unwrap();
    let expected_ast = Expression::BinaryOp(
        Box::new(Expression::BinaryOp(
            Box::new(Expression::BinaryOp(
                Box::new(Expression::BinaryOp(num("1"), Token::Plus, num("2"))),
                Token::Multiply,
                num("3"),
            )),
            Token::Minus,
            Box::new(Expression::BinaryOp(num("4"), Token::Divide, num("2"))),
        )),
        Token::Multiply,
        Box::new(Expression::BinaryOp(num("5"), Token::Plus, num("6"))),
    );

    let ast = parse(&tokens).unwrap();
    assert_eq!(ast, expected_ast);
}

#[test]
fn test_parse_multiple_unary_ops() {
    let input = "sin(cos(tan(0.5)))";
    let tokens = tokenize(input).unwrap();
    let expected_ast = Expression::UnaryOp(
        Token::Sin,
        Box::new(Expression::UnaryOp(
            Token::Cos,
            Box::new(Expression::UnaryOp(Token::Tan, num("0.5"))),
        )),
    );

    let ast = parse(&tokens).unwrap();
    assert_eq!(ast, expected_ast);
}

#[test]
fn test_parse_binary_op_pow_with_expressions() {
    let input = "pow(2 + 3, 4 - 1)";
    let tokens = tokenize(input).unwrap();
    let expected_ast = Expression::BinaryOp(
        Box::new(Expression::BinaryOp(num("2"), Token::Plus, num("3"))),
        Token::Pow,
        Box::new(Expression::BinaryOp(num("4"), Token::Minus, num("1"))),
    );

    let ast = parse(&tokens).unwrap();
    assert_eq!(ast, expected_ast);
}

#[test]
fn test_parse_invalid_expression() {
    let input = "1 + (2 * 3";
    let tokens = tokenize(input).unwrap();
    let result = parse(&tokens);
    assert!(result.is_err());
}

#[test]
fn test_parse_empty_input() {
    let input = "";
    let tokens = tokenize(input).unwrap();
    let result = parse(&tokens);
    assert!(result.is_err());
}

#[test]
fn test_truncated_input_reports_missing_paren() {
    let tokens = tokenize("1 + (2 * 3").unwrap();
    assert_eq!(parse(&tokens), Err(ParseError::ExpectedRightParen));
}

#[test]
fn test_empty_input_reports_end_of_input() {
    let tokens = tokenize("").unwrap();
    assert_eq!(parse(&tokens), Err(ParseError::UnexpectedEndOfInput));
}

#[test]
fn test_function_call_needs_parentheses() {
    // `sin 0.5` is a syntax error: a function name must be followed
    // immediately by an opening parenthesis.
    let tokens = tokenize("sin 0.5").unwrap();
    assert_eq!(parse(&tokens), Err(ParseError::ExpectedLeftParen));
}

#[test]
fn test_two_argument_call_needs_comma() {
    let tokens = tokenize("pow(2 3)").unwrap();
    assert_eq!(parse(&tokens), Err(ParseError::ExpectedComma));
}

#[test]
fn test_trailing_tokens_are_rejected() {
    let tokens = tokenize("1 2").unwrap();
    assert_eq!(parse(&tokens), Err(ParseError::UnexpectedToken));
}

#[test]
fn test_operator_without_operand() {
    let tokens = tokenize("1 +").unwrap();
    assert_eq!(parse(&tokens), Err(ParseError::UnexpectedEndOfInput));
}

#[test]
fn test_unary_minus_is_right_recursive() {
    let tokens = tokenize("- - 3").unwrap();
    let expected_ast = Expression::UnaryOp(
        Token::Minus,
        Box::new(Expression::UnaryOp(Token::Minus, num("3"))),
    );
    assert_eq!(parse(&tokens).unwrap(), expected_ast);
}

#[test]
fn test_left_associative_subtraction_tree() {
    // `8 - 3 - 2` parses as `(8 - 3) - 2`.
    let tokens = tokenize("8 - 3 - 2").unwrap();
    let expected_ast = Expression::BinaryOp(
        Box::new(Expression::BinaryOp(num("8"), Token::Minus, num("3"))),
        Token::Minus,
        num("2"),
    );
    assert_eq!(parse(&tokens).unwrap(), expected_ast);
}

#[test]
fn test_error_message_text() {
    assert_eq!(ParseError::ExpectedComma.message(), "Expected comma");
    assert_eq!(
        ParseError::UnexpectedEndOfInput.message(),
        "Unexpected end of input"
    );
}
