//! End-to-end tests: the driver loop around the library performs the
//! IEEE 754 operations the verified code asks for.

use calco::ast::{Compile, Compiled, Node, Operator};
use calco::compiler::interpreter::{Eval, EvalError, Interpreter, Outcome};
use calco::parser::{Expected, ParseError, ParseOutcome};

fn apply(op: Operator, a: f64, b: f64) -> f64 {
    match op {
        Operator::Plus => a + b,
        Operator::Minus => a - b,
        Operator::Multiplication => a * b,
        Operator::Division => a / b,
    }
}

fn evaluate(src: &str) -> Result<Result<f64, EvalError>, ParseError> {
    let mut lits: Vec<u64> = Vec::new();
    let mut tape: Vec<u64> = Vec::new();
    loop {
        match Interpreter::from_source(src, &lits, &tape) {
            Err(e) => return Err(e),
            Ok(Compiled::NeedNumber(t)) => {
                let text = String::from_utf8(t).unwrap();
                lits.push(text.parse::<f64>().unwrap().to_bits());
            }
            Ok(Compiled::Ready(Outcome::Value(v))) => return Ok(Ok(f64::from_bits(v))),
            Ok(Compiled::Ready(Outcome::Fail(e))) => return Ok(Err(e)),
            Ok(Compiled::Ready(Outcome::NeedOp(op, a, b))) => {
                tape.push(apply(op, f64::from_bits(a), f64::from_bits(b)).to_bits());
            }
        }
    }
}

fn value_of(src: &str) -> f64 {
    evaluate(src).unwrap().unwrap()
}

#[test]
fn literal_round_trip() {
    for n in [0.0, 1.0, 7.0, 2.5, 0.1, 123456789.5, 42.0, 0.0078125] {
        assert_eq!(value_of(&format!("{n}")), n);
    }
    for n in [-1.0, -2.5, -0.1, -123456789.5] {
        assert_eq!(value_of(&format!("{n}")), n);
    }
}

#[test]
fn four_operations() {
    assert_eq!(value_of("2+3"), 5.0);
    assert_eq!(value_of("2-3"), -1.0);
    assert_eq!(value_of("2*3"), 6.0);
    assert_eq!(value_of("6/3"), 2.0);
}

#[test]
fn division_by_zero() {
    assert_eq!(evaluate("1/0"), Ok(Err(EvalError::DivisionByZero)));
    assert_eq!(evaluate("3/(2-2)"), Ok(Err(EvalError::DivisionByZero)));
}

#[test]
fn implicit_multiplication() {
    assert_eq!(value_of("2(3+4)"), 14.0);
    assert_eq!(value_of("3pi"), 3.0 * std::f64::consts::PI);
}

#[test]
fn pi_constant() {
    let v = value_of("pi");
    assert_eq!(v, std::f64::consts::PI);
    assert!((v - 3.14159265).abs() < 1e-8);
}

#[test]
fn left_associativity() {
    assert_eq!(value_of("10-2-3"), 5.0);
    assert_eq!(value_of("100/10/2"), 5.0);
}

#[test]
fn no_precedence_between_operators() {
    // Chains fold strictly left to right, whatever the operators.
    assert_eq!(value_of("2+3*4"), 20.0);
    assert_eq!(value_of("2*3+4"), 10.0);
}

#[test]
fn multi_expression_summation() {
    assert_eq!(value_of("2+3 4"), 9.0);
    assert_eq!(value_of("1 2 3"), 6.0);
    assert_eq!(value_of(""), 0.0);
    assert_eq!(value_of("   "), 0.0);
}

#[test]
fn unary_signs() {
    assert_eq!(value_of("-5"), -5.0);
    assert_eq!(value_of("+5"), 5.0);
    assert_eq!(value_of("-(2+3)"), -5.0);
    assert_eq!(value_of("--3"), 3.0);
    assert_eq!(value_of("2*-3"), -6.0);
}

#[test]
fn unknown_identifier_is_zero() {
    assert_eq!(value_of("foo"), 0.0);
    assert_eq!(value_of("2+foo"), 2.0);
}

#[test]
fn x_as_multiplication_sign() {
    assert_eq!(value_of("2x3"), 6.0);
    assert_eq!(value_of("2 x 3"), 6.0);
}

#[test]
fn whitespace_between_tokens() {
    assert_eq!(value_of(" 2 + 3 "), 5.0);
    assert_eq!(value_of("( 2 + 3 ) * 4"), 20.0);
}

#[test]
fn malformed_sources_are_rejected() {
    assert!(evaluate("2+").is_err());
    assert!(evaluate(")").is_err());
    assert!(evaluate("(2+3").is_err());
    assert!(evaluate("*5").is_err());
    assert!(evaluate("2 + + ").is_err());
}

#[test]
fn parse_reports_the_failure_position() {
    let lits = vec![2.0f64.to_bits()];
    let err = calco::parser::parse("2+", &lits).unwrap_err();
    assert_eq!(err.pos, 2);
    assert_eq!(err.expected, Expected::Term);
    let err = calco::parser::parse("(2", &lits).unwrap_err();
    assert_eq!(err.pos, 2);
    assert_eq!(err.expected, Expected::CloseParen);
}

#[test]
fn parse_asks_for_each_literal_once() {
    let mut lits: Vec<u64> = Vec::new();
    match calco::parser::parse("2+3", &lits).unwrap() {
        ParseOutcome::NeedNumber(t) => assert_eq!(t, b"2".to_vec()),
        other => panic!("expected a literal request, got {other:?}"),
    }
    lits.push(2.0f64.to_bits());
    match calco::parser::parse("2+3", &lits).unwrap() {
        ParseOutcome::NeedNumber(t) => assert_eq!(t, b"3".to_vec()),
        other => panic!("expected a literal request, got {other:?}"),
    }
    lits.push(3.0f64.to_bits());
    match calco::parser::parse("2+3", &lits).unwrap() {
        ParseOutcome::Ast(ns) => assert_eq!(ns.len(), 1),
        other => panic!("expected a program, got {other:?}"),
    }
}

#[test]
fn negative_literal_text_is_kept_whole() {
    let lits: Vec<u64> = Vec::new();
    match calco::parser::parse("2*-3.5", &lits).unwrap() {
        ParseOutcome::NeedNumber(t) => assert_eq!(t, b"2".to_vec()),
        other => panic!("expected a literal request, got {other:?}"),
    }
    let lits = vec![2.0f64.to_bits()];
    match calco::parser::parse("2*-3.5", &lits).unwrap() {
        ParseOutcome::NeedNumber(t) => assert_eq!(t, b"-3.5".to_vec()),
        other => panic!("expected a literal request, got {other:?}"),
    }
}

#[test]
fn unary_multiplication_and_division_fail() {
    let tape: Vec<u64> = Vec::new();
    let tree = Node::UnaryExpr {
        op: Operator::Multiplication,
        child: Box::new(Node::Number(1.0f64.to_bits())),
    };
    assert_eq!(
        Eval::new().eval(&tree, &tape),
        Outcome::Fail(EvalError::MultiplicationSyntax)
    );
    let tree = Node::UnaryExpr {
        op: Operator::Division,
        child: Box::new(Node::Number(1.0f64.to_bits())),
    };
    assert_eq!(
        Eval::new().eval(&tree, &tape),
        Outcome::Fail(EvalError::DivisionSyntax)
    );
}

#[test]
fn child_error_precedes_unary_operator_error() {
    // The child is evaluated before the unary operator is examined.
    let tape: Vec<u64> = Vec::new();
    let zero_div = Node::BinaryExpr {
        op: Operator::Division,
        lhs: Box::new(Node::Number(1.0f64.to_bits())),
        rhs: Box::new(Node::Number(0.0f64.to_bits())),
    };
    let tree = Node::UnaryExpr {
        op: Operator::Multiplication,
        child: Box::new(zero_div),
    };
    assert_eq!(
        Eval::new().eval(&tree, &tape),
        Outcome::Fail(EvalError::DivisionByZero)
    );
}

#[test]
fn from_ast_asks_for_each_operation() {
    // Summation of the top level reads its additions from the tape too:
    // the first request is 0 + 2 with an empty tape.
    let ast = vec![Node::Number(2.0f64.to_bits())];
    let tape: Vec<u64> = Vec::new();
    assert_eq!(
        Interpreter::from_ast(ast, &tape),
        Outcome::NeedOp(Operator::Plus, 0.0f64.to_bits(), 2.0f64.to_bits())
    );
    let ast = vec![Node::Number(2.0f64.to_bits())];
    let tape = vec![2.0f64.to_bits()];
    assert_eq!(Interpreter::from_ast(ast, &tape), Outcome::Value(2.0f64.to_bits()));
}

#[test]
fn evaluation_is_repeatable() {
    let tape = vec![5.0f64.to_bits()];
    let tree = Node::BinaryExpr {
        op: Operator::Plus,
        lhs: Box::new(Node::Number(2.0f64.to_bits())),
        rhs: Box::new(Node::Number(3.0f64.to_bits())),
    };
    let first = Eval::new().eval(&tree, &tape);
    let second = Eval::new().eval(&tree, &tape);
    assert_eq!(first, second);
    assert_eq!(first, Outcome::Value(5.0f64.to_bits()));
    assert_eq!(evaluate("2+3 4"), evaluate("2+3 4"));
}

#[test]
fn negative_zero_divisor_also_fails() {
    assert_eq!(evaluate("1/-0.0"), Ok(Err(EvalError::DivisionByZero)));
}

#[test]
fn leading_zero_prefix_keeps_a_dash_source_well_formed() {
    // a source that began with a dash arrives with a zero prefixed
    assert_eq!(value_of("0-5"), -5.0);
}

#[test]
fn juxtaposition_needs_adjacency() {
    assert_eq!(value_of("(2)(3)"), 6.0);
    // with a blank in between they are separate summed expressions
    assert_eq!(value_of("2 (3)"), 5.0);
}

#[test]
fn results_are_ieee_double_precision() {
    assert_eq!(value_of("1/3"), 1.0f64 / 3.0f64);
    assert_eq!(value_of("0.1+0.2"), 0.1f64 + 0.2f64);
}
