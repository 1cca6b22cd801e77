use loxy::ast::{Expr, ExprB, OpOne, OpTwo};
use loxy::base::Base;
use loxy::environment::Env;
use loxy::err::StumbleKind;
use loxy::evaluation::{apply_numbers, apply_unary, apply_values, number_value, same_values};
use loxy::walker::TreeWalker;

fn number(value: f64) -> ExprB {
    ExprB::mk_numeric(value.to_bits())
}

fn text(value: &str) -> ExprB {
    ExprB::mk_string(value.to_owned())
}

fn value_of(expr: &Expr) -> Result<ExprB, StumbleKind> {
    let (mut env, at) = Env::fresh_std_env();
    let mut base = Base::default();
    TreeWalker::eval(expr, &mut env, at, &mut base).map_err(|e| e.kind)
}

fn operands() -> Vec<f64> {
    vec![
        0.0,
        -0.0,
        1.0,
        -1.0,
        3.0,
        0.1,
        0.2,
        1e308,
        -1e308,
        5e-324,
        1.5,
        123456789.125,
        f64::INFINITY,
        f64::NEG_INFINITY,
        1.0 / 3.0,
        2.0_f64.powi(53),
    ]
}

#[test]
fn arithmetic_is_that_of_the_host() {
    for a in operands() {
        for b in operands() {
            let pairs = [
                (OpTwo::Minus, a - b),
                (OpTwo::Star, a * b),
                (OpTwo::Slash, a / b),
            ];
            for (op, host) in pairs {
                let ours = apply_numbers(op, a.to_bits(), b.to_bits());
                if host.is_nan() {
                    assert!(matches!(ours, ExprB::Numeric { n } if f64::from_bits(n).is_nan()));
                } else {
                    assert_eq!(ours, number(host), "{a} {op:?} {b}");
                }
            }
            let sum = apply_values(OpTwo::Plus, number(a), number(b)).unwrap();
            if (a + b).is_nan() {
                assert!(matches!(sum, ExprB::Numeric { n } if f64::from_bits(n).is_nan()));
            } else {
                assert_eq!(sum, number(a + b), "{a} + {b}");
            }
        }
    }
}

#[test]
fn comparisons_give_booleans() {
    assert_eq!(apply_numbers(OpTwo::Lt, 1.0_f64.to_bits(), 2.0_f64.to_bits()), ExprB::mk_bool(true));
    assert_eq!(apply_numbers(OpTwo::Lt, 2.0_f64.to_bits(), 2.0_f64.to_bits()), ExprB::mk_bool(false));
    assert_eq!(apply_numbers(OpTwo::Leq, 2.0_f64.to_bits(), 2.0_f64.to_bits()), ExprB::mk_bool(true));
    assert_eq!(apply_numbers(OpTwo::Gt, 3.0_f64.to_bits(), 2.0_f64.to_bits()), ExprB::mk_bool(true));
    assert_eq!(apply_numbers(OpTwo::Geq, 1.0_f64.to_bits(), 2.0_f64.to_bits()), ExprB::mk_bool(false));
    assert_eq!(
        apply_numbers(OpTwo::Geq, f64::NAN.to_bits(), f64::NAN.to_bits()),
        ExprB::mk_bool(false)
    );
}

#[test]
fn division_by_zero_is_no_error() {
    let by_zero = |a: f64| Expr::mk_binary(OpTwo::Slash, Expr::mk_numeric(a.to_bits()), Expr::mk_numeric(0.0_f64.to_bits()));
    assert_eq!(value_of(&by_zero(1.0)), Ok(number(f64::INFINITY)));
    assert_eq!(value_of(&by_zero(-1.0)), Ok(number(f64::NEG_INFINITY)));
    match value_of(&by_zero(0.0)) {
        Ok(ExprB::Numeric { n }) => assert!(f64::from_bits(n).is_nan()),
        other => panic!("{other:?}"),
    }
}

#[test]
fn equality_never_fails_and_never_coerces() {
    assert!(same_values(&ExprB::Nil, &ExprB::Nil));
    assert!(!same_values(&ExprB::Nil, &ExprB::mk_bool(false)));
    assert!(same_values(&ExprB::mk_bool(true), &ExprB::mk_bool(true)));
    assert!(!same_values(&ExprB::mk_bool(true), &ExprB::mk_bool(false)));
    assert!(same_values(&number(0.0), &number(-0.0)));
    assert!(!same_values(&number(f64::NAN), &number(f64::NAN)));
    assert!(same_values(&text("a"), &text("a")));
    assert!(!same_values(&text("a"), &text("b")));
    assert!(!same_values(&text("64.0"), &number(64.0)));
    assert!(!same_values(&text(""), &ExprB::Nil));
    assert_eq!(
        apply_values(OpTwo::Neq, text("1"), number(1.0)),
        Ok(ExprB::mk_bool(true))
    );
    assert_eq!(
        apply_values(OpTwo::Eq, ExprB::Nil, ExprB::Nil),
        Ok(ExprB::mk_bool(true))
    );
}

#[test]
fn plus_adds_numbers_and_joins_strings_only() {
    assert_eq!(apply_values(OpTwo::Plus, number(5.0), number(5.0)), Ok(number(10.0)));
    assert_eq!(apply_values(OpTwo::Plus, text("a"), text("b")), Ok(text("ab")));
    assert_eq!(
        apply_values(OpTwo::Plus, text("1"), number(1.0)),
        Err(StumbleKind::ConflictingSubexpression)
    );
    assert_eq!(
        apply_values(OpTwo::Plus, ExprB::Nil, ExprB::Nil),
        Err(StumbleKind::ConflictingSubexpression)
    );
    assert_eq!(
        apply_values(OpTwo::Plus, ExprB::mk_bool(true), number(1.0)),
        Err(StumbleKind::ConflictingSubexpression)
    );
}

#[test]
fn strings_are_taken_for_numbers_by_arithmetic() {
    assert_eq!(number_value(&text("64")), Some(64.0_f64.to_bits()));
    assert_eq!(number_value(&text("sixty")), None);
    assert_eq!(number_value(&ExprB::Nil), None);
    assert_eq!(number_value(&ExprB::mk_bool(true)), None);
    let product = Expr::mk_binary(
        OpTwo::Star,
        Expr::mk_string("1.5".to_owned()),
        Expr::mk_numeric(4.0_f64.to_bits()),
    );
    assert_eq!(value_of(&product), Ok(number(6.0)));
    let broken = Expr::mk_binary(
        OpTwo::Star,
        Expr::mk_string("one".to_owned()),
        Expr::mk_numeric(4.0_f64.to_bits()),
    );
    assert_eq!(value_of(&broken), Err(StumbleKind::ConflictingSubexpression));
    let compared = Expr::mk_binary(
        OpTwo::Lt,
        Expr::mk_string("2".to_owned()),
        Expr::mk_string("10".to_owned()),
    );
    assert_eq!(value_of(&compared), Ok(ExprB::mk_bool(true)));
}

#[test]
fn unary_operators() {
    assert_eq!(apply_unary(OpOne::Minus, &number(64.0)), Ok(number(-64.0)));
    assert_eq!(apply_unary(OpOne::Minus, &text("64")), Ok(number(-64.0)));
    assert_eq!(
        apply_unary(OpOne::Minus, &text("x")),
        Err(StumbleKind::ConflictingSubexpression)
    );
    assert_eq!(
        apply_unary(OpOne::Minus, &ExprB::Nil),
        Err(StumbleKind::ConflictingSubexpression)
    );
    assert_eq!(apply_unary(OpOne::Bang, &ExprB::Nil), Ok(ExprB::mk_bool(true)));
    assert_eq!(apply_unary(OpOne::Bang, &number(0.0)), Ok(ExprB::mk_bool(false)));
    assert_eq!(apply_unary(OpOne::Bang, &text("")), Ok(ExprB::mk_bool(false)));
}

#[test]
fn double_bang_is_truthiness() {
    let values = [
        ExprB::Nil,
        ExprB::mk_bool(true),
        ExprB::mk_bool(false),
        number(0.0),
        number(1.0),
        number(f64::NAN),
        text(""),
        text("false"),
    ];
    for value in values {
        let truthy = value.is_truthy();
        assert_eq!(value.is_falsey(), !truthy);
        let twice = Expr::mk_unary(
            OpOne::Bang,
            Expr::mk_unary(OpOne::Bang, Expr::Basic(value)),
        );
        assert_eq!(value_of(&twice), Ok(ExprB::mk_bool(truthy)));
    }
}

#[test]
fn double_minus_is_the_number() {
    for value in operands() {
        let twice = Expr::mk_unary(
            OpOne::Minus,
            Expr::mk_unary(OpOne::Minus, Expr::mk_numeric(value.to_bits())),
        );
        assert_eq!(value_of(&twice), Ok(number(value)));
    }
}
