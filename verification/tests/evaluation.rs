use loxy::ast::{Expr, ExprB, OpOne, OpTwo};
use loxy::base::Base;
use loxy::environment::Env;
use loxy::walker::TreeWalker;

fn number(value: f64) -> Expr {
    Expr::mk_numeric(value.to_bits())
}

fn text(value: &str) -> Expr {
    Expr::mk_string(value.to_owned())
}

fn value_of(expr: &Expr) -> Result<ExprB, loxy::err::Stumble> {
    let (mut env, at) = Env::fresh_std_env();
    let mut base = Base::default();
    TreeWalker::eval(expr, &mut env, at, &mut base)
}

#[test]
fn evaluation_basic_negation() {
    let number_negation = Expr::mk_unary(OpOne::Minus, number(64.0));

    assert_eq!(
        value_of(&number_negation),
        Ok(ExprB::mk_numeric((-64.0_f64).to_bits()))
    );

    let string_negation = Expr::mk_unary(OpOne::Minus, text("64"));

    assert_eq!(
        value_of(&string_negation),
        Ok(ExprB::mk_numeric((-64.0_f64).to_bits()))
    );
}

#[test]
fn evaluation_basic_arithmetic() {
    let a_value = 64.0_f64;
    let b_value = 32.0_f64;

    let addition = Expr::mk_binary(OpTwo::Star, number(a_value), number(b_value));

    assert_eq!(
        value_of(&addition),
        Ok(ExprB::mk_numeric((a_value * b_value).to_bits()))
    );
}

#[test]
fn evaluation_basic_string() {
    let addition = Expr::mk_binary(OpTwo::Plus, text("a "), text("string"));

    assert_eq!(
        value_of(&addition),
        Ok(ExprB::mk_string("a string".to_owned()))
    );
}

#[test]
fn evaluation_basic_comparison() {
    let a_value = 64.0;
    let b_value = 32.0;

    let gt = Expr::mk_binary(OpTwo::Gt, number(a_value), number(b_value));
    let leq = Expr::mk_binary(OpTwo::Leq, number(a_value), number(b_value));

    assert_eq!(value_of(&gt), Ok(ExprB::mk_bool(true)));
    assert_eq!(value_of(&leq), Ok(ExprB::mk_bool(false)));
}

#[test]
fn evaluation_basic_equality() {
    let a_value = 64.0;
    let b_value = 32.0;

    let eq_self = Expr::mk_binary(OpTwo::Eq, number(a_value), number(a_value));

    let eq_same = Expr::mk_binary(OpTwo::Eq, text("a"), text("a"));

    let neq = Expr::mk_binary(OpTwo::Eq, number(a_value), number(b_value));

    let neq_different_types = Expr::mk_binary(OpTwo::Eq, text("64.0"), number(64.0));

    assert_eq!(value_of(&eq_self), Ok(ExprB::mk_bool(true)));
    assert_eq!(value_of(&eq_same), Ok(ExprB::mk_bool(true)));
    assert_eq!(value_of(&neq), Ok(ExprB::mk_bool(false)));
    assert_eq!(value_of(&neq_different_types), Ok(ExprB::mk_bool(false)));
}

#[test]
fn evaluate_basic_negation() {
    let number_negation = Expr::mk_unary(OpOne::Minus, number(64.0));

    assert_eq!(
        value_of(&number_negation),
        Ok(ExprB::mk_numeric((-64.0_f64).to_bits()))
    );

    let string_negation = Expr::mk_unary(OpOne::Minus, text("64"));

    assert_eq!(
        value_of(&string_negation),
        Ok(ExprB::mk_numeric((-64.0_f64).to_bits()))
    );
}

#[test]
fn evaluate_basic_arithmetic() {
    let a_value = 64.0_f64;
    let b_value = 32.0_f64;

    let addition = Expr::mk_binary(OpTwo::Star, number(a_value), number(b_value));

    assert_eq!(
        value_of(&addition),
        Ok(ExprB::mk_numeric((a_value * b_value).to_bits()))
    );
}

#[test]
fn evaluate_basic_string() {
    let addition = Expr::mk_binary(OpTwo::Plus, text("a "), text("string"));

    assert_eq!(
        value_of(&addition),
        Ok(ExprB::mk_string("a string".to_owned()))
    );
}

#[test]
fn evaluate_basic_comparison() {
    let a_value = 64.0;
    let b_value = 32.0;

    let gt = Expr::mk_binary(OpTwo::Gt, number(a_value), number(b_value));
    let leq = Expr::mk_binary(OpTwo::Leq, number(a_value), number(b_value));

    assert_eq!(value_of(&gt), Ok(ExprB::mk_bool(true)));
    assert_eq!(value_of(&leq), Ok(ExprB::mk_bool(false)));
}

#[test]
fn evaluate_basic_equality() {
    let a_value = 64.0;
    let b_value = 32.0;

    let eq_self = Expr::mk_binary(OpTwo::Eq, number(a_value), number(a_value));

    let eq_same = Expr::mk_binary(OpTwo::Eq, text("a"), text("a"));

    let neq = Expr::mk_binary(OpTwo::Eq, number(a_value), number(b_value));

    let neq_different_types = Expr::mk_binary(OpTwo::Eq, text("64.0"), number(64.0));

    assert_eq!(value_of(&eq_self), Ok(ExprB::mk_bool(true)));
    assert_eq!(value_of(&eq_same), Ok(ExprB::mk_bool(true)));
    assert_eq!(value_of(&neq), Ok(ExprB::mk_bool(false)));
    assert_eq!(value_of(&neq_different_types), Ok(ExprB::mk_bool(false)));
}

#[test]
fn mod_simple_display() {
    let ast = Expr::mk_binary(
        OpTwo::Star,
        Expr::mk_unary(OpOne::Minus, number(123_f64)),
        Expr::mk_grouping(number(45.67)),
    );

    assert_eq!(ast.display(), "(* (- 123) (group 45.67))");
}

#[test]
fn expression_simple_display() {
    let ast = Expr::mk_binary(
        OpTwo::Star,
        Expr::mk_unary(OpOne::Minus, number(123_f64)),
        Expr::mk_grouping(number(45.67)),
    );

    assert_eq!(ast.display(), "(* (- 123) (group 45.67))");
}
