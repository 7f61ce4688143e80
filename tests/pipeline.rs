use calculator::evaluator::{calculate, BinaryOp, Calc, Evaluator, UnaryOp};
use calculator::parser::{parse, Node, Parser};
use calculator::tokenizer::{CalcError, Token, Tokenizer};

fn value(c: &Calc) -> f64 {
    match c {
        Calc::Literal(t) => t.parse::<f64>().unwrap(),
        Calc::Unary(op, a) => {
            let x = value(a);
            match op {
                UnaryOp::Negate => -x,
                UnaryOp::Sin => x.sin(),
                UnaryOp::Cos => x.cos(),
                UnaryOp::Tan => x.tan(),
                UnaryOp::Asin => x.asin(),
                UnaryOp::Acos => x.acos(),
                UnaryOp::Atan => x.atan(),
                UnaryOp::Sqrt => x.sqrt(),
                UnaryOp::Ln => x.ln(),
                UnaryOp::Log10 => x.log10(),
                UnaryOp::Abs => x.abs(),
            }
        }
        Calc::Binary(op, a, b) => {
            let (x, y) = (value(a), value(b));
            match op {
                BinaryOp::Add => x + y,
                BinaryOp::Sub => x - y,
                BinaryOp::Mul => x * y,
                BinaryOp::Div => x / y,
                BinaryOp::Pow => x.powf(y),
                BinaryOp::Root => x.powf(1.0 / y),
                BinaryOp::Log => x.log(y),
            }
        }
    }
}

fn result_of(expr: &str) -> f64 {
    value(&calculate(expr).unwrap())
}

fn close(a: f64, b: f64) -> bool {
    (a - b).abs() < 1e-9
}

fn num(t: &str) -> Node {
    Node::Number(t.to_string())
}

#[test]
fn exponentiation_groups_to_the_right() {
    assert_eq!(result_of("2^3^2"), 512.0);
    let tree = parse("2^3^2").unwrap();
    let expected = Node::Binary {
        left: Box::new(num("2")),
        right: Box::new(Node::Binary {
            left: Box::new(num("3")),
            right: Box::new(num("2")),
            operator: Token::Caret,
        }),
        operator: Token::Caret,
    };
    assert_eq!(tree, expected);
}

#[test]
fn unary_minus_wraps_exponentiation() {
    let tree = parse("-2^2").unwrap();
    let expected = Node::Unary {
        right: Box::new(Node::Binary {
            left: Box::new(num("2")),
            right: Box::new(num("2")),
            operator: Token::Caret,
        }),
        operator: Token::Minus,
    };
    assert_eq!(tree, expected);
    assert_eq!(result_of("-2^2"), -4.0);
}

#[test]
fn parentheses_and_bars() {
    assert_eq!(result_of("(1+2)*3"), 9.0);
    assert_eq!(result_of("|-5|"), 5.0);
    let tree = parse("|-5|").unwrap();
    let expected = Node::FunctionCall {
        name: "abs".to_string(),
        args: vec![Node::Unary { right: Box::new(num("5")), operator: Token::Minus }],
    };
    assert_eq!(tree, expected);
}

#[test]
fn function_dispatch() {
    assert!(close(result_of("sqrt(9)"), 3.0));
    assert!(close(result_of("log(100)"), 2.0));
    assert!(close(result_of("log(8,2)"), 3.0));
    assert!(close(result_of("root(8,3)"), 2.0));
    assert!(close(result_of("sin(0)"), 0.0));
    assert!(close(result_of("cos(0)"), 1.0));
    assert!(close(result_of("ln(1)"), 0.0));
    assert!(close(result_of("abs(0-7)"), 7.0));
}

#[test]
fn extra_arguments_are_ignored() {
    assert!(close(result_of("sin(0, 5)"), 0.0));
    assert!(close(result_of("log(8, 2, 100)"), 3.0));
}

#[test]
fn assignment_passes_value_through() {
    assert_eq!(result_of("x = 5"), 5.0);
    assert_eq!(calculate("x").unwrap_err(), CalcError::UnboundVariable);
    let tree = parse("x = 5").unwrap();
    let expected = Node::Assignment { name: "x".to_string(), value: Box::new(num("5")) };
    assert_eq!(tree, expected);
}

#[test]
fn malformed_inputs_are_rejected() {
    assert_eq!(calculate("sin()").unwrap_err(), CalcError::UnrecognizedPrimary);
    assert_eq!(calculate("(1+2").unwrap_err(), CalcError::MissingCloseParen);
    assert_eq!(calculate("1,2").unwrap_err(), CalcError::TrailingToken);
}

#[test]
fn each_error_kind_has_an_input() {
    assert_eq!(calculate("2 $").unwrap_err(), CalcError::UnexpectedCharacter);
    assert_eq!(calculate("1.2.3").unwrap_err(), CalcError::UnexpectedCharacter);
    assert_eq!(calculate("1\n").unwrap_err(), CalcError::UnexpectedCharacter);
    assert_eq!(calculate("sin(1 2)").unwrap_err(), CalcError::MissingComma);
    assert_eq!(calculate("|1").unwrap_err(), CalcError::MissingClosePipe);
    assert_eq!(calculate(")").unwrap_err(), CalcError::UnrecognizedPrimary);
    assert_eq!(calculate("1 = 2").unwrap_err(), CalcError::InvalidAssignmentTarget);
    assert_eq!(calculate("foo(1)").unwrap_err(), CalcError::UnknownFunction);
    assert_eq!(calculate("root(8)").unwrap_err(), CalcError::ArgumentCount);
    assert_eq!(calculate("log(x)").unwrap_err(), CalcError::UnboundVariable);
    let bad = Node::Binary { left: Box::new(num("1")), right: Box::new(num("2")), operator: Token::Comma };
    assert_eq!(Evaluator.evaluate(&bad).unwrap_err(), CalcError::InvalidOperator);
    let bad_unary = Node::Unary { right: Box::new(num("1")), operator: Token::Plus };
    assert_eq!(Evaluator.evaluate(&bad_unary).unwrap_err(), CalcError::InvalidOperator);
}

#[test]
fn chains_put_the_newest_operand_on_the_left() {
    assert_eq!(result_of("5-3"), -2.0);
    assert_eq!(result_of("8/2"), 0.25);
    assert_eq!(result_of("1+2*3"), 7.0);
    assert_eq!(result_of("1-2-3"), 2.0);
}

#[test]
fn tokens_are_read_one_at_a_time() {
    let mut t = Tokenizer::new(" 12.5 +\tabc(".to_string());
    assert_eq!(t.next(), Ok(Some(Token::Number("12.5".to_string()))));
    assert_eq!(t.next(), Ok(Some(Token::Plus)));
    assert_eq!(t.next(), Ok(Some(Token::Identifier("abc".to_string()))));
    assert_eq!(t.next(), Ok(Some(Token::OpenParen)));
    assert_eq!(t.next(), Ok(None));
    let mut empty = Tokenizer::new(String::new());
    assert_eq!(empty.next(), Ok(None));
    let mut two_points = Tokenizer::new("1..".to_string());
    assert_eq!(two_points.next(), Err(CalcError::UnexpectedCharacter));
    let mut digits_after_word = Tokenizer::new("ab1".to_string());
    assert_eq!(digits_after_word.next(), Ok(Some(Token::Identifier("ab".to_string()))));
    assert_eq!(digits_after_word.next(), Ok(Some(Token::Number("1".to_string()))));
}

#[test]
fn parse_expression_leaves_the_rest() {
    let mut p = Parser::new(Tokenizer::new("1,2".to_string())).unwrap();
    assert_eq!(p.parse_expression(), Ok(num("1")));
    assert_eq!(Parser::new(Tokenizer::new("#".to_string())).err(), Some(CalcError::UnexpectedCharacter));
}

#[test]
fn literal_text_is_kept() {
    match calculate("3.25").unwrap() {
        Calc::Literal(t) => assert_eq!(t, "3.25"),
        _ => panic!("a literal was expected"),
    }
    assert_eq!(result_of("1."), 1.0);
}
