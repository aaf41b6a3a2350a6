use calc_eval::env::Environment;
use calc_eval::eval::{evaluate, EvalError};
use calc_eval::literal::is_number_literal;
use calc_eval::syntax::{BinaryOp, Node, UnaryOp};
use calc_eval::term::Term;

fn num(text: &str) -> Node {
    Node::Number(text.to_string())
}

fn ident(name: &str) -> Node {
    Node::Identifier(name.to_string())
}

fn bin(lhs: Node, op: BinaryOp, rhs: Node) -> Node {
    Node::Binary { lhs: Box::new(lhs), op, rhs: Box::new(rhs) }
}

fn unary(op: UnaryOp, expr: Node) -> Node {
    Node::Unary { op, expr: Box::new(expr) }
}

fn paren(expr: Node) -> Node {
    Node::Parentheses { expr: Box::new(expr) }
}

fn assign(name: &str, rhs: Node) -> Node {
    Node::Assignment { name: name.to_string(), rhs: Box::new(rhs) }
}

fn line(expr: Node) -> Node {
    Node::SourceFile(Box::new(expr))
}

fn lit(text: &str) -> Term {
    Term::Literal(text.to_string())
}

fn tbin(lhs: Term, op: BinaryOp, rhs: Term) -> Term {
    Term::Binary { lhs: Box::new(lhs), op, rhs: Box::new(rhs) }
}

/// The floating-point value of a closed term; `None` where a literal does not parse.
fn value(t: &Term) -> Option<f64> {
    match t {
        Term::Literal(text) => text.parse::<f64>().ok(),
        Term::Neg(e) => value(e).map(|v| -v),
        Term::Binary { lhs, op, rhs } => {
            let l = value(lhs)?;
            let r = value(rhs)?;
            Some(match op {
                BinaryOp::Add => l + r,
                BinaryOp::Sub => l - r,
                BinaryOp::Mul => l * r,
                BinaryOp::Div => l / r,
                BinaryOp::Pow => l.powf(r),
            })
        }
    }
}

fn eval_value(node: &Node, env: &mut Environment) -> Option<f64> {
    let t = evaluate(node, env).ok()?;
    value(&t)
}

#[test]
fn test_practice() {
    let mut ctx = Environment::default();
    // 1+2
    let t = line(bin(num("1"), BinaryOp::Add, num("2")));
    assert_eq!(eval_value(&t, &mut ctx).unwrap(), 3.0);
    // 2**3+1
    let t = line(bin(bin(num("2"), BinaryOp::Pow, num("3")), BinaryOp::Add, num("1")));
    assert_eq!(eval_value(&t, &mut ctx).unwrap(), 9.0);
    // 2**(3+1)
    let t = line(bin(num("2"), BinaryOp::Pow, paren(bin(num("3"), BinaryOp::Add, num("1")))));
    assert_eq!(eval_value(&t, &mut ctx).unwrap(), 16.0);
    // 2*4/8
    let t = line(bin(bin(num("2"), BinaryOp::Mul, num("4")), BinaryOp::Div, num("8")));
    assert_eq!(eval_value(&t, &mut ctx).unwrap(), 1.0);
    // 2/4*8
    let t = line(bin(bin(num("2"), BinaryOp::Div, num("4")), BinaryOp::Mul, num("8")));
    assert_eq!(eval_value(&t, &mut ctx).unwrap(), 4.0);
    // 2+ : the parser supplies an empty number for the missing operand
    let t = line(bin(num("2"), BinaryOp::Add, num("")));
    assert!(evaluate(&t, &mut ctx).is_err());

    // x=2**3+1
    let t = line(assign("x", bin(bin(num("2"), BinaryOp::Pow, num("3")), BinaryOp::Add, num("1"))));
    assert_eq!(eval_value(&t, &mut ctx).unwrap(), 9.0);
    // x*x
    let t = line(bin(ident("x"), BinaryOp::Mul, ident("x")));
    assert_eq!(eval_value(&t, &mut ctx).unwrap(), 81.0);
}

#[test]
fn binary_expression_keeps_operands_in_order() {
    let mut env = Environment::new();
    let t = line(bin(num("1"), BinaryOp::Sub, num("2")));
    let r = evaluate(&t, &mut env).unwrap();
    assert_eq!(r, tbin(lit("1"), BinaryOp::Sub, lit("2")));
    assert_eq!(value(&r), Some(-1.0));
}

#[test]
fn parentheses_override_precedence() {
    let mut env = Environment::new();
    // (1+2)*3 against 1+2*3
    let grouped = line(bin(paren(bin(num("1"), BinaryOp::Add, num("2"))), BinaryOp::Mul, num("3")));
    let plain = line(bin(num("1"), BinaryOp::Add, bin(num("2"), BinaryOp::Mul, num("3"))));
    assert_eq!(eval_value(&grouped, &mut env), Some(9.0));
    assert_eq!(eval_value(&plain, &mut env), Some(7.0));
}

#[test]
fn unary_minus_negates_and_plus_is_identity() {
    let mut env = Environment::new();
    let inner = || bin(num("2"), BinaryOp::Mul, num("3"));
    let neg = evaluate(&unary(UnaryOp::Minus, inner()), &mut env).unwrap();
    let pos = evaluate(&unary(UnaryOp::Plus, inner()), &mut env).unwrap();
    let alone = evaluate(&inner(), &mut env).unwrap();
    assert_eq!(neg, Term::Neg(Box::new(alone.duplicate())));
    assert_eq!(pos, alone);
    assert_eq!(value(&neg), Some(-6.0));
    assert_eq!(value(&pos), Some(6.0));
}

#[test]
fn division_by_zero_is_not_an_error() {
    let mut env = Environment::new();
    let t = line(bin(num("1"), BinaryOp::Div, num("0")));
    assert_eq!(eval_value(&t, &mut env), Some(f64::INFINITY));
    let t = line(bin(num("0"), BinaryOp::Div, num("0")));
    assert!(eval_value(&t, &mut env).unwrap().is_nan());
}

#[test]
fn power_with_fractional_and_negative_exponents() {
    let mut env = Environment::new();
    let t = line(bin(num("4"), BinaryOp::Pow, num("0.5")));
    assert_eq!(eval_value(&t, &mut env), Some(2.0));
    let t = line(bin(num("2"), BinaryOp::Pow, unary(UnaryOp::Minus, num("1"))));
    assert_eq!(eval_value(&t, &mut env), Some(0.5));
}

#[test]
fn assignment_twice_gives_same_value_and_binding() {
    let mut env = Environment::new();
    let t = line(assign("x", num("5")));
    let first = evaluate(&t, &mut env).unwrap();
    assert_eq!(first, lit("5"));
    assert_eq!(env.lookup(&"x".to_string()), Some(lit("5")));
    let second = evaluate(&t, &mut env).unwrap();
    assert_eq!(second, lit("5"));
    assert_eq!(env.lookup(&"x".to_string()), Some(lit("5")));
}

#[test]
fn read_before_assignment_fails_and_after_succeeds() {
    let mut env = Environment::new();
    let read = line(ident("y"));
    assert_eq!(
        evaluate(&read, &mut env),
        Err(EvalError::UndefinedVariable("y".to_string()))
    );
    evaluate(&line(assign("y", num("3"))), &mut env).unwrap();
    assert_eq!(evaluate(&read, &mut env), Ok(lit("3")));
    evaluate(&line(assign("y", num("4"))), &mut env).unwrap();
    assert_eq!(evaluate(&read, &mut env), Ok(lit("4")));
}

#[test]
fn reevaluation_gives_identical_results() {
    let mut env = Environment::new();
    evaluate(&line(assign("a", num("2"))), &mut env).unwrap();
    let t = line(bin(ident("a"), BinaryOp::Add, num("1")));
    let first = evaluate(&t, &mut env).unwrap();
    let second = evaluate(&t, &mut env).unwrap();
    assert_eq!(first, second);
    assert_eq!(value(&first), Some(3.0));
}

#[test]
fn assignment_before_a_failure_stays_in_effect() {
    let mut env = Environment::new();
    // (z=1)+w, with w unbound
    let t = line(bin(paren(assign("z", num("1"))), BinaryOp::Add, ident("w")));
    assert_eq!(
        evaluate(&t, &mut env),
        Err(EvalError::UndefinedVariable("w".to_string()))
    );
    assert_eq!(env.lookup(&"z".to_string()), Some(lit("1")));
}

#[test]
fn failed_right_hand_side_binds_nothing() {
    let mut env = Environment::new();
    let t = line(assign("v", ident("u")));
    assert!(evaluate(&t, &mut env).is_err());
    assert_eq!(env.lookup(&"v".to_string()), None);
}

#[test]
fn assignment_value_is_the_assigned_value() {
    let mut env = Environment::new();
    let t = line(assign("n", bin(num("6"), BinaryOp::Div, num("4"))));
    let r = evaluate(&t, &mut env).unwrap();
    assert_eq!(value(&r), Some(1.5));
    assert_eq!(env.lookup(&"n".to_string()), Some(r));
}

#[test]
fn duplicate_is_equal() {
    let t = Term::Neg(Box::new(tbin(lit("1"), BinaryOp::Pow, lit("2"))));
    assert_eq!(t.duplicate(), t);
}

#[test]
fn new_environment_is_empty() {
    let env = Environment::default();
    assert_eq!(env.lookup(&"x".to_string()), None);
}

#[test]
fn malformed_number_fails_with_its_text() {
    let mut env = Environment::new();
    let t = line(bin(num("1"), BinaryOp::Add, num("1.2.3")));
    assert_eq!(evaluate(&t, &mut env), Err(EvalError::ParseNumber("1.2.3".to_string())));
    let t = line(bin(num("2"), BinaryOp::Add, num("")));
    assert_eq!(evaluate(&t, &mut env), Err(EvalError::ParseNumber(String::new())));
}

#[test]
fn first_error_from_the_left_is_reported() {
    let mut env = Environment::new();
    let t = line(bin(num("x1"), BinaryOp::Add, ident("q")));
    assert_eq!(evaluate(&t, &mut env), Err(EvalError::ParseNumber("x1".to_string())));
    let t = line(bin(ident("q"), BinaryOp::Add, num("x1")));
    assert_eq!(evaluate(&t, &mut env), Err(EvalError::UndefinedVariable("q".to_string())));
}

#[test]
fn malformed_right_hand_side_binds_nothing() {
    let mut env = Environment::new();
    let t = line(assign("v", num("1e")));
    assert_eq!(evaluate(&t, &mut env), Err(EvalError::ParseNumber("1e".to_string())));
    assert_eq!(env.lookup(&"v".to_string()), None);
}

#[test]
fn literal_syntax_agrees_with_std() {
    let cases = [
        "0", "5", "42", "3.25", ".5", "5.", "1e3", "1E3", "1e+3", "2.5e-4", "+7", "-7",
        "inf", "INF", "-Infinity", "+nan", "NaN", "infinity", "", ".", "+", "-", "e3", "1e",
        "1e+", "1.2.3", "..1", "1..", "1 ", " 1", "x", "0x10", "1_000", "in", "infinit",
        "nana", "++1", "1e3.5", "١", "1é",
    ];
    for text in cases {
        assert_eq!(is_number_literal(text), text.parse::<f64>().is_ok(), "{:?}", text);
    }
}
