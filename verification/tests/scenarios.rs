// End-to-end scenarios for the constant-folding pass: conditionals,
// logical operators, typeof, negation, and sequence expressions.

use exprfold::ast::BinaryOp;
use exprfold::ast::Expr;
use exprfold::ast::ExprKind;
use exprfold::ast::Lit;
use exprfold::ast::UnaryOp;
use exprfold::fold::simplify;
use exprfold::fold::simplify_checked;

fn num(n: i64) -> Expr {
    Expr { span: 0, node: ExprKind::Lit(Lit::Num(n)) }
}

fn text(s: &str) -> Expr {
    Expr { span: 0, node: ExprKind::Lit(Lit::Str(s.to_string())) }
}

fn boolean(b: bool) -> Expr {
    Expr { span: 0, node: ExprKind::Lit(Lit::Bool(b)) }
}

fn ident(s: &str) -> Expr {
    Expr { span: 0, node: ExprKind::Ident(s.to_string()) }
}

fn unary(op: UnaryOp, arg: Expr) -> Expr {
    Expr { span: 0, node: ExprKind::Unary { prefix: true, op, arg: Box::new(arg) } }
}

fn binary(left: Expr, op: BinaryOp, right: Expr) -> Expr {
    Expr { span: 0, node: ExprKind::Binary { left: Box::new(left), op, right: Box::new(right) } }
}

fn cond(test: Expr, cons: Expr, alt: Expr) -> Expr {
    Expr {
        span: 0,
        node: ExprKind::Cond {
            test: Box::new(test),
            cons: Box::new(cons),
            alt: Box::new(alt),
        },
    }
}

fn seqx(exprs: Vec<Expr>) -> Expr {
    Expr { span: 0, node: ExprKind::SeqExpr { exprs } }
}

// an opaque node the analysis knows nothing about, like a call
fn side_effect() -> Expr {
    Expr { span: 0, node: ExprKind::Other(7) }
}

#[test]
fn cond_known_pure_test_picks_consequent() {
    let e = cond(boolean(true), ident("a"), ident("b"));
    assert_eq!(simplify(e), ident("a"));
}

#[test]
fn cond_known_pure_false_test_picks_alternate() {
    let e = cond(num(0), ident("a"), ident("b"));
    assert_eq!(simplify(e), ident("b"));
}

#[test]
fn cond_impure_test_is_unchanged() {
    let e = cond(side_effect(), ident("a"), ident("b"));
    let expected = cond(side_effect(), ident("a"), ident("b"));
    assert_eq!(simplify(e), expected);
}

#[test]
fn cond_impure_known_test_keeps_test_in_sequence() {
    // an object literal coerces to true but may carry effects
    let obj = Expr { span: 3, node: ExprKind::Object(1) };
    let e = cond(obj, ident("a"), ident("b"));
    let expected = seqx(vec![
        Expr { span: 3, node: ExprKind::Object(1) },
        ident("a"),
    ]);
    assert_eq!(simplify(e), expected);
}

#[test]
fn and_with_known_true_left_folds_to_right() {
    let e = binary(num(1), BinaryOp::And, ident("x"));
    assert_eq!(simplify(e), ident("x"));
}

#[test]
fn and_with_known_false_left_folds_to_false() {
    let e = binary(num(0), BinaryOp::And, ident("x"));
    assert_eq!(simplify(e), boolean(false));
}

#[test]
fn or_with_known_false_left_folds_to_right() {
    let e = binary(num(0), BinaryOp::Or, ident("x"));
    assert_eq!(simplify(e), ident("x"));
}

#[test]
fn or_with_known_true_left_folds_to_left() {
    let e = binary(num(1), BinaryOp::Or, ident("x"));
    assert_eq!(simplify(e), num(1));
}

#[test]
fn and_with_impure_left_is_unchanged() {
    let e = binary(side_effect(), BinaryOp::And, ident("x"));
    let expected = binary(side_effect(), BinaryOp::And, ident("x"));
    assert_eq!(simplify(e), expected);
}

#[test]
fn typeof_number_literal() {
    let e = unary(UnaryOp::TypeOf, num(5));
    assert_eq!(simplify(e), text("number"));
}

#[test]
fn typeof_undefined_ident() {
    let e = unary(UnaryOp::TypeOf, ident("undefined"));
    assert_eq!(simplify(e), text("undefined"));
}

#[test]
fn typeof_string_boolean_object_function() {
    assert_eq!(simplify(unary(UnaryOp::TypeOf, text("s"))), text("string"));
    assert_eq!(simplify(unary(UnaryOp::TypeOf, boolean(true))), text("boolean"));
    let null = Expr { span: 0, node: ExprKind::Lit(Lit::Null) };
    assert_eq!(simplify(unary(UnaryOp::TypeOf, null)), text("object"));
    let arr = Expr { span: 0, node: ExprKind::Array(2) };
    assert_eq!(simplify(unary(UnaryOp::TypeOf, arr)), text("object"));
    let f = Expr { span: 0, node: ExprKind::Function(4) };
    assert_eq!(simplify(unary(UnaryOp::TypeOf, f)), text("function"));
}

#[test]
fn typeof_void_folds_to_undefined() {
    let e = unary(UnaryOp::TypeOf, unary(UnaryOp::Void, num(0)));
    assert_eq!(simplify(e), text("undefined"));
}

#[test]
fn typeof_unknown_ident_is_unchanged() {
    let e = unary(UnaryOp::TypeOf, ident("x"));
    let expected = unary(UnaryOp::TypeOf, ident("x"));
    assert_eq!(simplify(e), expected);
}

#[test]
fn not_zero_folds_to_true() {
    let e = unary(UnaryOp::Bang, num(0));
    assert_eq!(simplify(e), boolean(true));
}

#[test]
fn not_empty_string_folds_to_true() {
    let e = unary(UnaryOp::Bang, text(""));
    assert_eq!(simplify(e), boolean(true));
}

#[test]
fn not_impure_unknown_is_unchanged() {
    let e = unary(UnaryOp::Bang, side_effect());
    let expected = unary(UnaryOp::Bang, side_effect());
    assert_eq!(simplify(e), expected);
}

#[test]
fn not_impure_known_keeps_operand_in_sequence() {
    // an array literal coerces to true but may carry effects
    let arr = Expr { span: 5, node: ExprKind::Array(9) };
    let e = unary(UnaryOp::Bang, arr);
    let expected = seqx(vec![
        Expr { span: 5, node: ExprKind::Array(9) },
        Expr { span: 5, node: ExprKind::Lit(Lit::Bool(false)) },
    ]);
    assert_eq!(simplify(e), expected);
}

#[test]
fn double_negation_of_five_folds_back_to_five() {
    let e = unary(UnaryOp::Minus, unary(UnaryOp::Minus, num(5)));
    assert_eq!(simplify(e), num(5));
}

#[test]
fn minus_literal_folds_to_negated_literal() {
    let e = unary(UnaryOp::Minus, num(5));
    assert_eq!(simplify(e), num(-5));
}

#[test]
fn minus_nan_folds_to_nan() {
    let e = unary(UnaryOp::Minus, ident("NaN"));
    assert_eq!(simplify(e), ident("NaN"));
}

#[test]
fn minus_infinity_is_unchanged() {
    let e = unary(UnaryOp::Minus, ident("Infinity"));
    let expected = unary(UnaryOp::Minus, ident("Infinity"));
    assert_eq!(simplify(e), expected);
}

#[test]
fn unary_plus_is_unchanged() {
    let e = unary(UnaryOp::Plus, num(5));
    let expected = unary(UnaryOp::Plus, num(5));
    assert_eq!(simplify(e), expected);
}

#[test]
fn two_element_sequence_is_unchanged() {
    let e = seqx(vec![ident("a"), ident("b")]);
    let expected = seqx(vec![ident("a"), ident("b")]);
    assert_eq!(simplify(e), expected);
}

#[test]
fn single_element_sequence_folds_to_element() {
    let e = seqx(vec![ident("a")]);
    assert_eq!(simplify(e), ident("a"));
}

#[test]
fn empty_sequence_is_flagged() {
    let e = seqx(vec![]);
    assert_eq!(simplify_checked(e), None);
}

#[test]
fn nested_empty_sequence_is_flagged() {
    let e = unary(UnaryOp::Bang, seqx(vec![]));
    assert_eq!(simplify_checked(e), None);
}

#[test]
fn well_formed_input_is_accepted() {
    let e = unary(UnaryOp::Bang, num(0));
    assert_eq!(simplify_checked(e), Some(boolean(true)));
}

#[test]
fn simplify_is_idempotent_on_samples() {
    let samples = || {
        vec![
            cond(boolean(true), ident("a"), ident("b")),
            unary(UnaryOp::Bang, Expr { span: 5, node: ExprKind::Array(9) }),
            binary(num(1), BinaryOp::And, ident("x")),
            seqx(vec![ident("a")]),
            unary(UnaryOp::Minus, unary(UnaryOp::Minus, num(5))),
        ]
    };
    let once: Vec<Expr> = samples().into_iter().map(simplify).collect();
    let twice: Vec<Expr> = samples()
        .into_iter()
        .map(simplify)
        .map(simplify)
        .collect();
    assert_eq!(once, twice);
}

#[test]
fn span_of_the_rewritten_node_is_kept() {
    let e = Expr {
        span: 42,
        node: ExprKind::Cond {
            test: Box::new(boolean(true)),
            cons: Box::new(Expr { span: 17, node: ExprKind::Ident("a".to_string()) }),
            alt: Box::new(ident("b")),
        },
    };
    // the chosen branch's kind replaces the conditional under its span
    assert_eq!(simplify(e), Expr { span: 42, node: ExprKind::Ident("a".to_string()) });
}
