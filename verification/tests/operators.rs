// Tests of the addition, arithmetic and equality folding rules, and of the
// static coercion analysis they rest on.

use exprfold::ast::BinaryOp;
use exprfold::ast::Expr;
use exprfold::ast::ExprKind;
use exprfold::ast::Lit;
use exprfold::ast::MAX_SAFE_NUM;
use exprfold::fold::simplify;
use exprfold::value::Purity;
use exprfold::value::Value;

fn num(n: i64) -> Expr {
    Expr { span: 0, node: ExprKind::Lit(Lit::Num(n)) }
}

fn text(s: &str) -> Expr {
    Expr { span: 0, node: ExprKind::Lit(Lit::Str(s.to_string())) }
}

fn boolean(b: bool) -> Expr {
    Expr { span: 0, node: ExprKind::Lit(Lit::Bool(b)) }
}

fn null() -> Expr {
    Expr { span: 0, node: ExprKind::Lit(Lit::Null) }
}

fn ident(s: &str) -> Expr {
    Expr { span: 0, node: ExprKind::Ident(s.to_string()) }
}

fn binary(left: Expr, op: BinaryOp, right: Expr) -> Expr {
    Expr { span: 0, node: ExprKind::Binary { left: Box::new(left), op, right: Box::new(right) } }
}

#[test]
fn add_two_strings_concatenates() {
    let e = binary(text("foo"), BinaryOp::Add, text("bar"));
    assert_eq!(simplify(e), text("foobar"));
}

#[test]
fn add_string_and_number_concatenates_as_text() {
    let e = binary(text("a"), BinaryOp::Add, num(1));
    assert_eq!(simplify(e), text("a1"));
}

#[test]
fn add_negative_number_and_string_concatenates_as_text() {
    let e = binary(num(-25), BinaryOp::Add, text("x"));
    assert_eq!(simplify(e), text("-25x"));
}

#[test]
fn add_string_and_boolean_concatenates_as_text() {
    let e = binary(text("is "), BinaryOp::Add, boolean(true));
    assert_eq!(simplify(e), text("is true"));
    let e2 = binary(boolean(false), BinaryOp::Add, text("!"));
    assert_eq!(simplify(e2), text("false!"));
}

#[test]
fn add_two_numbers_folds_to_sum() {
    let e = binary(num(1), BinaryOp::Add, num(2));
    assert_eq!(simplify(e), num(3));
}

#[test]
fn add_beyond_the_safe_range_is_unchanged() {
    let e = binary(num(MAX_SAFE_NUM), BinaryOp::Add, num(1));
    let expected = binary(num(MAX_SAFE_NUM), BinaryOp::Add, num(1));
    assert_eq!(simplify(e), expected);
}

#[test]
fn add_string_and_null_is_unchanged() {
    let e = binary(text("a"), BinaryOp::Add, null());
    let expected = binary(text("a"), BinaryOp::Add, null());
    assert_eq!(simplify(e), expected);
}

#[test]
fn add_number_and_unknown_is_unchanged() {
    let e = binary(num(1), BinaryOp::Add, ident("x"));
    let expected = binary(num(1), BinaryOp::Add, ident("x"));
    assert_eq!(simplify(e), expected);
}

#[test]
fn subtraction_folds() {
    let e = binary(num(7), BinaryOp::Sub, num(2));
    assert_eq!(simplify(e), num(5));
    let e2 = binary(num(2), BinaryOp::Sub, num(7));
    assert_eq!(simplify(e2), num(-5));
}

#[test]
fn multiplication_folds() {
    let e = binary(num(3), BinaryOp::Mul, num(4));
    assert_eq!(simplify(e), num(12));
}

#[test]
fn multiplication_beyond_the_safe_range_is_unchanged() {
    let e = binary(num(MAX_SAFE_NUM), BinaryOp::Mul, num(2));
    let expected = binary(num(MAX_SAFE_NUM), BinaryOp::Mul, num(2));
    assert_eq!(simplify(e), expected);
}

#[test]
fn exact_division_folds() {
    let e = binary(num(6), BinaryOp::Div, num(3));
    assert_eq!(simplify(e), num(2));
}

#[test]
fn inexact_division_is_unchanged() {
    let e = binary(num(5), BinaryOp::Div, num(2));
    let expected = binary(num(5), BinaryOp::Div, num(2));
    assert_eq!(simplify(e), expected);
}

#[test]
fn division_by_zero_is_unchanged() {
    let e = binary(num(1), BinaryOp::Div, num(0));
    let expected = binary(num(1), BinaryOp::Div, num(0));
    assert_eq!(simplify(e), expected);
}

#[test]
fn remainder_folds() {
    let e = binary(num(7), BinaryOp::Mod, num(3));
    assert_eq!(simplify(e), num(1));
}

#[test]
fn remainder_of_negative_dividend_is_unchanged() {
    let e = binary(num(-7), BinaryOp::Mod, num(3));
    let expected = binary(num(-7), BinaryOp::Mod, num(3));
    assert_eq!(simplify(e), expected);
}

#[test]
fn instanceof_is_never_folded() {
    let e = binary(num(1), BinaryOp::InstanceOf, ident("Number"));
    let expected = binary(num(1), BinaryOp::InstanceOf, ident("Number"));
    assert_eq!(simplify(e), expected);
}

#[test]
fn strict_equality_of_equal_numbers_folds_to_true() {
    let e = binary(num(1), BinaryOp::EqEqEq, num(1));
    assert_eq!(simplify(e), boolean(true));
}

#[test]
fn strict_inequality_of_equal_numbers_folds_to_false() {
    let e = binary(num(1), BinaryOp::NotEqEqEq, num(1));
    assert_eq!(simplify(e), boolean(false));
}

#[test]
fn strict_equality_across_kinds_folds_to_false() {
    let e = binary(num(1), BinaryOp::EqEqEq, boolean(true));
    assert_eq!(simplify(e), boolean(false));
    let e2 = binary(text("1"), BinaryOp::EqEqEq, num(1));
    assert_eq!(simplify(e2), boolean(false));
}

#[test]
fn nan_is_strictly_equal_to_nothing() {
    let e = binary(ident("NaN"), BinaryOp::EqEqEq, ident("NaN"));
    assert_eq!(simplify(e), boolean(false));
}

#[test]
fn undefined_is_strictly_equal_to_itself() {
    let e = binary(ident("undefined"), BinaryOp::EqEqEq, ident("undefined"));
    assert_eq!(simplify(e), boolean(true));
}

#[test]
fn abstract_equality_of_null_and_undefined_folds_to_true() {
    let e = binary(null(), BinaryOp::EqEq, ident("undefined"));
    assert_eq!(simplify(e), boolean(true));
    let e2 = binary(ident("undefined"), BinaryOp::EqEq, null());
    assert_eq!(simplify(e2), boolean(true));
}

#[test]
fn abstract_equality_coerces_boolean_to_number() {
    let e = binary(num(1), BinaryOp::EqEq, boolean(true));
    assert_eq!(simplify(e), boolean(true));
    let e2 = binary(boolean(false), BinaryOp::EqEq, num(0));
    assert_eq!(simplify(e2), boolean(true));
}

#[test]
fn abstract_equality_of_string_and_number_is_unchanged() {
    let e = binary(text("1"), BinaryOp::EqEq, num(1));
    let expected = binary(text("1"), BinaryOp::EqEq, num(1));
    assert_eq!(simplify(e), expected);
}

#[test]
fn abstract_equality_of_null_and_number_folds_to_false() {
    let e = binary(null(), BinaryOp::EqEq, num(0));
    assert_eq!(simplify(e), boolean(false));
}

#[test]
fn equality_of_unknown_operands_is_unchanged() {
    let e = binary(ident("x"), BinaryOp::EqEqEq, ident("x"));
    let expected = binary(ident("x"), BinaryOp::EqEqEq, ident("x"));
    assert_eq!(simplify(e), expected);
}

#[test]
fn comparison_operators_are_unchanged() {
    let e = binary(num(1), BinaryOp::Lt, num(2));
    let expected = binary(num(1), BinaryOp::Lt, num(2));
    assert_eq!(simplify(e), expected);
}

#[test]
fn as_bool_classifies_literals() {
    assert!(matches!(num(0).as_bool(), (Purity::Pure, Value::Known(false))));
    assert!(matches!(num(3).as_bool(), (Purity::Pure, Value::Known(true))));
    assert!(matches!(text("").as_bool(), (Purity::Pure, Value::Known(false))));
    assert!(matches!(text("a").as_bool(), (Purity::Pure, Value::Known(true))));
    assert!(matches!(null().as_bool(), (Purity::Pure, Value::Known(false))));
    assert!(matches!(ident("undefined").as_bool(), (Purity::Pure, Value::Known(false))));
    assert!(matches!(ident("NaN").as_bool(), (Purity::Pure, Value::Known(false))));
    assert!(matches!(ident("Infinity").as_bool(), (Purity::Pure, Value::Unknown)));
    assert!(matches!(ident("x").as_bool(), (Purity::MaybeImpure, Value::Unknown)));
}

#[test]
fn as_number_knows_only_numeric_literals() {
    assert!(matches!(num(7).as_number(), Value::Known(7)));
    assert!(matches!(text("7").as_number(), Value::Unknown));
    assert!(matches!(ident("x").as_number(), Value::Unknown));
}

#[test]
fn deep_trees_fold_bottom_up() {
    // (1 && (true ? 2 : x)) + 3 folds to 5
    let inner = Expr {
        span: 0,
        node: ExprKind::Cond {
            test: Box::new(boolean(true)),
            cons: Box::new(num(2)),
            alt: Box::new(ident("x")),
        },
    };
    let left = binary(num(1), BinaryOp::And, inner);
    let e = binary(left, BinaryOp::Add, num(3));
    assert_eq!(simplify(e), num(5));
}

#[test]
fn abstract_inequality_folds() {
    let e = binary(num(1), BinaryOp::NotEq, boolean(true));
    assert_eq!(simplify(e), boolean(false));
    let e2 = binary(num(2), BinaryOp::NotEq, num(3));
    assert_eq!(simplify(e2), boolean(true));
}

#[test]
fn add_multi_digit_number_and_string() {
    let e = binary(text("a"), BinaryOp::Add, num(120));
    assert_eq!(simplify(e), text("a120"));
    let e2 = binary(num(0), BinaryOp::Add, text("!"));
    assert_eq!(simplify(e2), text("0!"));
}

#[test]
fn subtraction_within_a_larger_tree() {
    // typeof (7 - 7) folds to "number"; !(7 - 7) folds to true
    let diff = binary(num(7), BinaryOp::Sub, num(7));
    let e = Expr {
        span: 0,
        node: ExprKind::Unary {
            prefix: true,
            op: exprfold::ast::UnaryOp::Bang,
            arg: Box::new(diff),
        },
    };
    assert_eq!(simplify(e), boolean(true));
}
