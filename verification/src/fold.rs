//! The folding rules themselves: one dispatch over an already-folded node,
//! plus the recursive entry point that folds a whole expression bottom-up.
//!
//! Every rule is conservative: a node is rewritten only when the rewrite is
//! provably equivalent, and a sub-expression that may carry a side effect
//! is never discarded — it is kept, in its original position, inside a
//! sequence expression placed before the folded value.

use vstd::prelude::*;

use crate::ast::Expr;
use crate::ast::ExprKind;
use crate::ast::ExprKindV;
use crate::ast::ExprV;
use crate::ast::Lit;
use crate::ast::LitV;
use crate::ast::UnaryOp;
use crate::ast::BinaryOp;
use crate::ast::MAX_SAFE_NUM;
use crate::ast::view_expr;
use crate::ast::wf_v;
use crate::ast::wf_kind_v;
use crate::ast::wf_seq_v;
use crate::ast::view_kind;
use crate::ast::view_expr_seq;
use crate::numstr::num_str;
use crate::numstr::bool_str;
use crate::numstr::num_to_string;
use crate::numstr::bool_to_string;
use crate::value::Purity;
use crate::value::Value;
use crate::value::is_reserved_name;
use crate::value::purity_of;
use crate::value::bool_value_of;
use crate::value::num_value_of;

verus! {

/// Whether an integer lies in the range where it is represented exactly by
/// the language's double-precision numbers.
pub open spec fn in_safe_range(n: int) -> bool {
    -(MAX_SAFE_NUM as int) <= n && n <= MAX_SAFE_NUM as int
}

/// The text `typeof` yields for a node whose kind is statically known:
/// functions, literals, object and array expressions, `void` expressions
/// and the identifier `undefined`. `None` for every other shape.
pub open spec fn typeof_text_v(k: ExprKindV) -> Option<Seq<char>> {
    match k {
        ExprKindV::Function(_) => Option::Some("function"@),
        ExprKindV::Lit(LitV::Str(_)) => Option::Some("string"@),
        ExprKindV::Lit(LitV::Num(_)) => Option::Some("number"@),
        ExprKindV::Lit(LitV::Bool(_)) => Option::Some("boolean"@),
        ExprKindV::Lit(LitV::Null) => Option::Some("object"@),
        ExprKindV::Object(_) => Option::Some("object"@),
        ExprKindV::Array(_) => Option::Some("object"@),
        ExprKindV::Unary { prefix, op, arg } => if prefix && op == UnaryOp::Void {
            Option::Some("undefined"@)
        } else {
            Option::None
        },
        ExprKindV::Ident(s) => if s == "undefined"@ {
            Option::Some("undefined"@)
        } else {
            Option::None
        },
        _ => Option::None,
    }
}

/// What the unary simplifier returns for an already-folded operand.
pub open spec fn simp_unary_v(prefix: bool, op: UnaryOp, arg: ExprV) -> ExprKindV {
    match op {
        UnaryOp::TypeOf => match typeof_text_v(arg.node) {
            Option::Some(t) => ExprKindV::Lit(LitV::Str(t)),
            Option::None => ExprKindV::Unary {
                prefix: true,
                op: UnaryOp::TypeOf,
                arg: Box::new(arg),
            },
        },
        UnaryOp::Bang => match bool_value_of(arg.node) {
            Value::Known(val) => if purity_of(arg.node) == Purity::Pure {
                ExprKindV::Lit(LitV::Bool(!val))
            } else {
                ExprKindV::SeqExpr {
                    exprs: seq![
                        arg,
                        ExprV { span: arg.span, node: ExprKindV::Lit(LitV::Bool(!val)) },
                    ],
                }
            },
            Value::Unknown => ExprKindV::Unary { prefix: true, op: UnaryOp::Bang, arg: Box::new(arg) },
        },
        UnaryOp::Minus => match arg.node {
            ExprKindV::Ident(s) => if s == "NaN"@ {
                arg.node
            } else {
                ExprKindV::Unary { prefix, op, arg: Box::new(arg) }
            },
            ExprKindV::Lit(LitV::Num(n)) => if in_safe_range(n) {
                ExprKindV::Lit(LitV::Num(-n))
            } else {
                ExprKindV::Unary { prefix, op, arg: Box::new(arg) }
            },
            _ => ExprKindV::Unary { prefix, op, arg: Box::new(arg) },
        },
        _ => ExprKindV::Unary { prefix, op, arg: Box::new(arg) },
    }
}

/// Strict equality (`===`) of two already-folded operands, as far as it is
/// statically known. Literals compare by kind and value with no coercion;
/// the reserved identifiers compare by their known values (`NaN` equals
/// nothing, itself included). Everything else is `Unknown`.
pub open spec fn strict_eq_v(l: ExprKindV, r: ExprKindV) -> Value<bool> {
    match (l, r) {
        (ExprKindV::Lit(a), ExprKindV::Lit(b)) => match (a, b) {
            (LitV::Str(x), LitV::Str(y)) => Value::Known(x == y),
            (LitV::Num(x), LitV::Num(y)) => Value::Known(x == y),
            (LitV::Bool(x), LitV::Bool(y)) => Value::Known(x == y),
            (LitV::Null, LitV::Null) => Value::Known(true),
            _ => Value::Known(false),
        },
        (ExprKindV::Ident(x), ExprKindV::Ident(y)) => if is_reserved_name(x) && is_reserved_name(y) {
            if x == "NaN"@ || y == "NaN"@ {
                Value::Known(false)
            } else {
                Value::Known(x == y)
            }
        } else {
            Value::Unknown
        },
        (ExprKindV::Ident(x), ExprKindV::Lit(_)) => if is_reserved_name(x) {
            Value::Known(false)
        } else {
            Value::Unknown
        },
        (ExprKindV::Lit(_), ExprKindV::Ident(y)) => if is_reserved_name(y) {
            Value::Known(false)
        } else {
            Value::Unknown
        },
        _ => Value::Unknown,
    }
}

/// Abstract equality (`==`) of two already-folded operands, as far as it
/// is statically known. Same-kind literals compare as strict equality;
/// booleans coerce to numbers against numeric literals; `null` equals only
/// `undefined` among the shapes known here. String-to-number coercion is
/// never attempted, so string-against-number comparisons stay `Unknown`.
pub open spec fn abstract_eq_v(l: ExprKindV, r: ExprKindV) -> Value<bool> {
    match (l, r) {
        (ExprKindV::Lit(a), ExprKindV::Lit(b)) => match (a, b) {
            (LitV::Str(x), LitV::Str(y)) => Value::Known(x == y),
            (LitV::Num(x), LitV::Num(y)) => Value::Known(x == y),
            (LitV::Bool(x), LitV::Bool(y)) => Value::Known(x == y),
            (LitV::Null, LitV::Null) => Value::Known(true),
            (LitV::Num(x), LitV::Bool(y)) => Value::Known(x == if y { 1int } else { 0int }),
            (LitV::Bool(x), LitV::Num(y)) => Value::Known(y == if x { 1int } else { 0int }),
            (LitV::Null, _) => Value::Known(false),
            (_, LitV::Null) => Value::Known(false),
            _ => Value::Unknown,
        },
        (ExprKindV::Ident(x), ExprKindV::Ident(y)) => if is_reserved_name(x) && is_reserved_name(y) {
            if x == "NaN"@ || y == "NaN"@ {
                Value::Known(false)
            } else {
                Value::Known(x == y)
            }
        } else {
            Value::Unknown
        },
        (ExprKindV::Ident(x), ExprKindV::Lit(b)) => abstract_eq_ident_lit_v(x, b),
        (ExprKindV::Lit(a), ExprKindV::Ident(y)) => abstract_eq_ident_lit_v(y, a),
        _ => Value::Unknown,
    }
}

/// Abstract equality of a reserved identifier against a literal (in either
/// order; the relation is symmetric on these shapes).
pub open spec fn abstract_eq_ident_lit_v(x: Seq<char>, b: LitV) -> Value<bool> {
    if x == "NaN"@ {
        Value::Known(false)
    } else if x == "undefined"@ {
        Value::Known(b is Null)
    } else if x == "Infinity"@ {
        match b {
            LitV::Str(_) => Value::Unknown,
            _ => Value::Known(false),
        }
    } else {
        Value::Unknown
    }
}

/// What the arithmetic folder returns: a numeric literal when both
/// operands are numeric literals in the safe range and the exact result is
/// again in the safe range (so double-precision evaluation is exact and
/// the result is representable); otherwise the node unchanged. Division
/// and remainder fold only for non-negative dividends and positive
/// divisors, where the integer result equals the language's.
pub open spec fn simp_arith_v(op: BinaryOp, left: ExprV, right: ExprV) -> ExprKindV {
    let unchanged = ExprKindV::Binary { left: Box::new(left), op, right: Box::new(right) };
    match (num_value_of(left.node), num_value_of(right.node)) {
        (Value::Known(a), Value::Known(b)) => if !in_safe_range(a) || !in_safe_range(b) {
            unchanged
        } else {
            match op {
                BinaryOp::Sub => if in_safe_range(a - b) {
                    ExprKindV::Lit(LitV::Num(a - b))
                } else {
                    unchanged
                },
                BinaryOp::Mul => if in_safe_range(a * b) {
                    ExprKindV::Lit(LitV::Num(a * b))
                } else {
                    unchanged
                },
                BinaryOp::Div => if a >= 0 && b > 0 && a % b == 0 {
                    ExprKindV::Lit(LitV::Num(a / b))
                } else {
                    unchanged
                },
                BinaryOp::Mod => if a >= 0 && b > 0 {
                    ExprKindV::Lit(LitV::Num(a % b))
                } else {
                    unchanged
                },
                _ => unchanged,
            }
        },
        _ => unchanged,
    }
}

/// What the addition folder returns. If either operand is a string
/// literal, the result is the concatenation when the other operand is a
/// string, numeric or boolean literal (converted to text by the language's
/// `ToString` rules for literals); if both are numeric literals, the exact
/// sum when it stays in the safe range. Anything else is unchanged, since
/// `+` on unknown shapes can route through observable conversions.
pub open spec fn simp_add_v(left: ExprV, right: ExprV) -> ExprKindV {
    let unchanged = ExprKindV::Binary {
        left: Box::new(left),
        op: BinaryOp::Add,
        right: Box::new(right),
    };
    match (left.node, right.node) {
        (ExprKindV::Lit(LitV::Str(a)), ExprKindV::Lit(LitV::Str(b))) => ExprKindV::Lit(
            LitV::Str(a + b),
        ),
        (ExprKindV::Lit(LitV::Str(a)), ExprKindV::Lit(LitV::Num(n))) => if in_safe_range(n) {
            ExprKindV::Lit(LitV::Str(a + num_str(n)))
        } else {
            unchanged
        },
        (ExprKindV::Lit(LitV::Num(n)), ExprKindV::Lit(LitV::Str(b))) => if in_safe_range(n) {
            ExprKindV::Lit(LitV::Str(num_str(n) + b))
        } else {
            unchanged
        },
        (ExprKindV::Lit(LitV::Str(a)), ExprKindV::Lit(LitV::Bool(v))) => ExprKindV::Lit(
            LitV::Str(a + bool_str(v)),
        ),
        (ExprKindV::Lit(LitV::Bool(v)), ExprKindV::Lit(LitV::Str(b))) => ExprKindV::Lit(
            LitV::Str(bool_str(v) + b),
        ),
        (ExprKindV::Lit(LitV::Num(a)), ExprKindV::Lit(LitV::Num(b))) => if in_safe_range(a)
            && in_safe_range(b) && in_safe_range(a + b) {
            ExprKindV::Lit(LitV::Num(a + b))
        } else {
            unchanged
        },
        _ => unchanged,
    }
}

/// What an equality operator folds to, given the comparison's result: a
/// boolean literal (negated for the `!=` forms) when the comparison is
/// known, with both operands kept ahead of it in a sequence unless both
/// are pure; the node unchanged when the comparison is unknown.
pub open spec fn simp_eq_v(
    left: ExprV,
    op: BinaryOp,
    right: ExprV,
    cmp: Value<bool>,
    negate: bool,
) -> ExprKindV {
    match cmp {
        Value::Known(v) => {
            let value = if negate { !v } else { v };
            if purity_of(left.node) == Purity::Pure && purity_of(right.node) == Purity::Pure {
                ExprKindV::Lit(LitV::Bool(value))
            } else {
                ExprKindV::SeqExpr {
                    exprs: seq![
                        left,
                        right,
                        ExprV { span: right.span, node: ExprKindV::Lit(LitV::Bool(value)) },
                    ],
                }
            }
        },
        Value::Unknown => ExprKindV::Binary { left: Box::new(left), op, right: Box::new(right) },
    }
}

/// What the binary simplifier returns for already-folded operands.
pub open spec fn simp_bin_v(left: ExprV, op: BinaryOp, right: ExprV) -> ExprKindV {
    match op {
        BinaryOp::Add => simp_add_v(left, right),
        BinaryOp::And | BinaryOp::Or => {
            if purity_of(left.node) == Purity::Pure && bool_value_of(left.node) is Known {
                let val = bool_value_of(left.node)->Known_0;
                if op == BinaryOp::And {
                    if val {
                        right.node
                    } else {
                        ExprKindV::Lit(LitV::Bool(false))
                    }
                } else {
                    if val {
                        left.node
                    } else {
                        right.node
                    }
                }
            } else {
                ExprKindV::Binary { left: Box::new(left), op, right: Box::new(right) }
            }
        },
        BinaryOp::Sub | BinaryOp::Mul | BinaryOp::Div | BinaryOp::Mod => simp_arith_v(
            op,
            left,
            right,
        ),
        BinaryOp::EqEq | BinaryOp::NotEq => simp_eq_v(
            left,
            op,
            right,
            abstract_eq_v(left.node, right.node),
            op == BinaryOp::NotEq,
        ),
        BinaryOp::EqEqEq | BinaryOp::NotEqEqEq => simp_eq_v(
            left,
            op,
            right,
            strict_eq_v(left.node, right.node),
            op == BinaryOp::NotEqEqEq,
        ),
        _ => ExprKindV::Binary { left: Box::new(left), op, right: Box::new(right) },
    }
}

/// Simplify a unary expression whose operand is already folded.
///
/// `typeof` folds to a string literal when the operand's kind is statically
/// known (relying on the host language rejecting a redefinition of the
/// global `undefined` binding). `!` folds to a boolean literal when the
/// operand's boolean coercion is known, keeping a maybe-impure operand in a
/// sequence ahead of the literal. Unary `-` folds a numeric literal and
/// `NaN` (whose negation is itself); `Infinity` and every other shape pass
/// through unchanged, as does unary `+` (numeric coercion of an unknown
/// operand could itself be observable).
pub fn fold_unary(prefix: bool, op: UnaryOp, arg: Box<Expr>) -> (r: ExprKind)
    ensures
        view_kind(r) == simp_unary_v(prefix, op, view_expr(*arg)),
{
    let span = arg.span;

    match op {
        UnaryOp::TypeOf => {
            let val = match &arg.node {
                ExprKind::Function(_) => "function",
                ExprKind::Lit(Lit::Str(_)) => "string",
                ExprKind::Lit(Lit::Num(_)) => "number",
                ExprKind::Lit(Lit::Bool(_)) => "boolean",
                ExprKind::Lit(Lit::Null) => "object",
                ExprKind::Object(_) => "object",
                ExprKind::Array(_) => "object",
                ExprKind::Unary { prefix: p, op: o, arg: _ } if *p && *o == UnaryOp::Void => {
                    "undefined"
                },
                ExprKind::Ident(s) if crate::value::ident_is(s, "undefined") => "undefined",
                _ => {
                    return ExprKind::Unary { prefix: true, op: UnaryOp::TypeOf, arg };
                },
            };
            ExprKind::Lit(Lit::Str(String::from_str(val)))
        },
        UnaryOp::Bang => match arg.as_bool() {
            (p, Value::Known(val)) => {
                if p.is_pure() {
                    ExprKind::Lit(Lit::Bool(!val))
                } else {
                    let mut exprs: Vec<Expr> = Vec::new();
                    let ghost argv = view_expr(*arg);
                    exprs.push(*arg);
                    exprs.push(Expr { span, node: ExprKind::Lit(Lit::Bool(!val)) });
                    proof {
                        crate::ast::lemma_view_expr_seq_props(exprs@);
                        assert(view_expr_seq(exprs@) =~= seq![
                            argv,
                            ExprV { span: argv.span, node: ExprKindV::Lit(LitV::Bool(!val)) },
                        ]);
                    }
                    ExprKind::SeqExpr { exprs }
                }
            },
            (_, Value::Unknown) => ExprKind::Unary { op, arg, prefix: true },
        },
        UnaryOp::Minus => match &arg.node {
            ExprKind::Ident(s) => {
                if crate::value::ident_is(s, "NaN") {
                    // the negation of NaN is NaN itself
                    let unboxed = *arg;
                    unboxed.node
                } else {
                    ExprKind::Unary { prefix, op, arg }
                }
            },
            ExprKind::Lit(Lit::Num(n)) => {
                let n = *n;
                if -MAX_SAFE_NUM <= n && n <= MAX_SAFE_NUM {
                    ExprKind::Lit(Lit::Num(-n))
                } else {
                    ExprKind::Unary { prefix, op, arg }
                }
            },
            _ => ExprKind::Unary { prefix, op, arg },
        },
        _ => ExprKind::Unary { prefix, op, arg },
    }
}

/// What one dispatch step returns for a node whose children are already
/// folded: literals are fixed points; unary, binary, conditional and
/// sequence nodes go to their rules; every other kind is unchanged.
pub open spec fn simp_node_v(k: ExprKindV) -> ExprKindV {
    match k {
        ExprKindV::Unary { prefix, op, arg } => simp_unary_v(prefix, op, *arg),
        ExprKindV::Binary { left, op, right } => simp_bin_v(*left, op, *right),
        ExprKindV::Cond { test, cons, alt } => match bool_value_of(test.node) {
            Value::Known(val) => {
                let chosen = if val {
                    *cons
                } else {
                    *alt
                };
                if purity_of(test.node) == Purity::Pure {
                    chosen.node
                } else {
                    ExprKindV::SeqExpr { exprs: seq![*test, chosen] }
                }
            },
            Value::Unknown => k,
        },
        ExprKindV::SeqExpr { exprs } => if exprs.len() == 1 {
            exprs[0].node
        } else {
            k
        },
        _ => k,
    }
}

/// The whole pass on one expression: fold the children bottom-up, then
/// dispatch on the node itself, keeping its source-location tag.
pub open spec fn simp(e: ExprV) -> ExprV
    decreases e,
{
    ExprV { span: e.span, node: simp_node_v(simp_children(e.node)) }
}

/// The whole pass on one expression kind.
pub open spec fn simp_kind(k: ExprKindV) -> ExprKindV {
    simp_node_v(simp_children(k))
}

/// Fold every child of a node, leaving the node's own shape alone.
pub open spec fn simp_children(k: ExprKindV) -> ExprKindV
    decreases k,
{
    match k {
        ExprKindV::Unary { prefix, op, arg } => ExprKindV::Unary {
            prefix,
            op,
            arg: Box::new(simp(*arg)),
        },
        ExprKindV::Binary { left, op, right } => ExprKindV::Binary {
            left: Box::new(simp(*left)),
            op,
            right: Box::new(simp(*right)),
        },
        ExprKindV::Cond { test, cons, alt } => ExprKindV::Cond {
            test: Box::new(simp(*test)),
            cons: Box::new(simp(*cons)),
            alt: Box::new(simp(*alt)),
        },
        ExprKindV::SeqExpr { exprs } => ExprKindV::SeqExpr { exprs: simp_seq(exprs) },
        _ => k,
    }
}

/// Fold every expression of a sequence.
pub open spec fn simp_seq(s: Seq<ExprV>) -> Seq<ExprV>
    decreases s,
{
    if s.len() == 0 {
        Seq::empty()
    } else {
        seq![simp(s[0])] + simp_seq(s.subrange(1, s.len() as int))
    }
}

/// Folding a sequence folds each element in place.
pub proof fn lemma_simp_seq_props(s: Seq<ExprV>)
    ensures
        simp_seq(s).len() == s.len(),
        forall|i: int| 0 <= i < s.len() ==> simp_seq(s)[i] == simp(s[i]),
    decreases s.len(),
{
    if s.len() > 0 {
        lemma_simp_seq_props(s.subrange(1, s.len() as int));
    }
}

/// Strict equality comparison of two already-folded operands, when it is
/// statically known.
pub fn perform_strict_eq_cmp(left: &Expr, right: &Expr) -> (r: Value<bool>)
    ensures
        r == strict_eq_v(left@.node, right@.node),
{
    match (&left.node, &right.node) {
        (ExprKind::Lit(a), ExprKind::Lit(b)) => match (a, b) {
            (Lit::Str(x), Lit::Str(y)) => Value::Known(*x == *y),
            (Lit::Num(x), Lit::Num(y)) => Value::Known(*x == *y),
            (Lit::Bool(x), Lit::Bool(y)) => Value::Known(*x == *y),
            (Lit::Null, Lit::Null) => Value::Known(true),
            _ => Value::Known(false),
        },
        (ExprKind::Ident(x), ExprKind::Ident(y)) => {
            if is_reserved(x) && is_reserved(y) {
                if crate::value::ident_is(x, "NaN") || crate::value::ident_is(y, "NaN") {
                    Value::Known(false)
                } else {
                    Value::Known(*x == *y)
                }
            } else {
                Value::Unknown
            }
        },
        (ExprKind::Ident(x), ExprKind::Lit(_)) => {
            if is_reserved(x) {
                Value::Known(false)
            } else {
                Value::Unknown
            }
        },
        (ExprKind::Lit(_), ExprKind::Ident(y)) => {
            if is_reserved(y) {
                Value::Known(false)
            } else {
                Value::Unknown
            }
        },
        _ => Value::Unknown,
    }
}

/// Whether an identifier's name is one of the reserved names.
fn is_reserved(s: &String) -> (r: bool)
    ensures
        r == is_reserved_name(s@),
{
    crate::value::ident_is(s, "undefined") || crate::value::ident_is(s, "NaN")
        || crate::value::ident_is(s, "Infinity")
}

/// Abstract equality of a reserved identifier against a literal.
fn abstract_eq_ident_lit(x: &String, b: &Lit) -> (r: Value<bool>)
    ensures
        r == abstract_eq_ident_lit_v(x@, b@),
{
    if crate::value::ident_is(x, "NaN") {
        Value::Known(false)
    } else if crate::value::ident_is(x, "undefined") {
        match b {
            Lit::Null => Value::Known(true),
            _ => Value::Known(false),
        }
    } else if crate::value::ident_is(x, "Infinity") {
        match b {
            Lit::Str(_) => Value::Unknown,
            _ => Value::Known(false),
        }
    } else {
        Value::Unknown
    }
}

/// Abstract equality comparison of two already-folded operands, when it is
/// statically known.
pub fn perform_abstract_eq_cmp(left: &Expr, right: &Expr) -> (r: Value<bool>)
    ensures
        r == abstract_eq_v(left@.node, right@.node),
{
    match (&left.node, &right.node) {
        (ExprKind::Lit(a), ExprKind::Lit(b)) => match (a, b) {
            (Lit::Str(x), Lit::Str(y)) => Value::Known(*x == *y),
            (Lit::Num(x), Lit::Num(y)) => Value::Known(*x == *y),
            (Lit::Bool(x), Lit::Bool(y)) => Value::Known(*x == *y),
            (Lit::Null, Lit::Null) => Value::Known(true),
            (Lit::Num(x), Lit::Bool(y)) => Value::Known(*x == if *y { 1i64 } else { 0i64 }),
            (Lit::Bool(x), Lit::Num(y)) => Value::Known(*y == if *x { 1i64 } else { 0i64 }),
            (Lit::Null, _) => Value::Known(false),
            (_, Lit::Null) => Value::Known(false),
            _ => Value::Unknown,
        },
        (ExprKind::Ident(x), ExprKind::Ident(y)) => {
            if is_reserved(x) && is_reserved(y) {
                if crate::value::ident_is(x, "NaN") || crate::value::ident_is(y, "NaN") {
                    Value::Known(false)
                } else {
                    Value::Known(*x == *y)
                }
            } else {
                Value::Unknown
            }
        },
        (ExprKind::Ident(x), ExprKind::Lit(b)) => abstract_eq_ident_lit(x, b),
        (ExprKind::Lit(a), ExprKind::Ident(y)) => abstract_eq_ident_lit(y, a),
        _ => Value::Unknown,
    }
}

/// Exact products of integers in the safe range stay well inside `i128`.
proof fn lemma_mul_bounds(a: int, b: int, m: int)
    requires
        0 <= m,
        -m <= a <= m,
        -m <= b <= m,
    ensures
        -(m * m) <= a * b <= m * m,
{
    assert(-(m * m) <= a * b <= m * m) by (nonlinear_arith)
        requires
            0 <= m,
            -m <= a <= m,
            -m <= b <= m,
    ;
}

/// Try to fold a pure-arithmetic binary operator on two already-folded
/// operands: both must be numeric literals in the safe range, and the
/// exact result must be representable, else the node is unchanged.
pub fn perform_arithmetic_op(op: BinaryOp, left: Box<Expr>, right: Box<Expr>) -> (r: ExprKind)
    ensures
        view_kind(r) == simp_arith_v(op, view_expr(*left), view_expr(*right)),
{
    let lv = left.as_number();
    let rv = right.as_number();

    if let (Value::Known(a), Value::Known(b)) = (lv, rv) {
        if -MAX_SAFE_NUM <= a && a <= MAX_SAFE_NUM && -MAX_SAFE_NUM <= b && b <= MAX_SAFE_NUM {
            match op {
                BinaryOp::Sub => {
                    let s = a - b;
                    if -MAX_SAFE_NUM <= s && s <= MAX_SAFE_NUM {
                        return ExprKind::Lit(Lit::Num(s));
                    }
                },
                BinaryOp::Mul => {
                    proof {
                        lemma_mul_bounds(a as int, b as int, MAX_SAFE_NUM as int);
                    }
                    let p = (a as i128) * (b as i128);
                    if -(MAX_SAFE_NUM as i128) <= p && p <= MAX_SAFE_NUM as i128 {
                        return ExprKind::Lit(Lit::Num(p as i64));
                    }
                },
                BinaryOp::Div => {
                    if a >= 0 && b > 0 && a % b == 0 {
                        return ExprKind::Lit(Lit::Num(a / b));
                    }
                },
                BinaryOp::Mod => {
                    if a >= 0 && b > 0 {
                        return ExprKind::Lit(Lit::Num(a % b));
                    }
                },
                _ => {},
            }
        }
    }
    ExprKind::Binary { left, op, right }
}

/// Fold `+` on two already-folded operands, per the language's addition
/// semantics: string concatenation when either operand is a string literal
/// and the other is a known literal, exact numeric addition when both are
/// numeric literals, and no rewrite at all otherwise.
pub fn fold_add(left: Box<Expr>, right: Box<Expr>) -> (r: ExprKind)
    ensures
        view_kind(r) == simp_add_v(view_expr(*left), view_expr(*right)),
{
    let l = *left;
    let r = *right;
    let lspan = l.span;
    let rspan = r.span;
    match (l.node, r.node) {
        (ExprKind::Lit(Lit::Str(a)), ExprKind::Lit(Lit::Str(b))) => {
            ExprKind::Lit(Lit::Str(a.concat(b.as_str())))
        },
        (ExprKind::Lit(Lit::Str(a)), ExprKind::Lit(Lit::Num(n))) => {
            if -MAX_SAFE_NUM <= n && n <= MAX_SAFE_NUM {
                ExprKind::Lit(Lit::Str(a.concat(num_to_string(n).as_str())))
            } else {
                rebuild_add(lspan, ExprKind::Lit(Lit::Str(a)), rspan, ExprKind::Lit(Lit::Num(n)))
            }
        },
        (ExprKind::Lit(Lit::Num(n)), ExprKind::Lit(Lit::Str(b))) => {
            if -MAX_SAFE_NUM <= n && n <= MAX_SAFE_NUM {
                ExprKind::Lit(Lit::Str(num_to_string(n).concat(b.as_str())))
            } else {
                rebuild_add(lspan, ExprKind::Lit(Lit::Num(n)), rspan, ExprKind::Lit(Lit::Str(b)))
            }
        },
        (ExprKind::Lit(Lit::Str(a)), ExprKind::Lit(Lit::Bool(v))) => {
            ExprKind::Lit(Lit::Str(a.concat(bool_to_string(v).as_str())))
        },
        (ExprKind::Lit(Lit::Bool(v)), ExprKind::Lit(Lit::Str(b))) => {
            ExprKind::Lit(Lit::Str(bool_to_string(v).concat(b.as_str())))
        },
        (ExprKind::Lit(Lit::Num(a)), ExprKind::Lit(Lit::Num(b))) => {
            if -MAX_SAFE_NUM <= a && a <= MAX_SAFE_NUM && -MAX_SAFE_NUM <= b && b <= MAX_SAFE_NUM {
                let s = a + b;
                if -MAX_SAFE_NUM <= s && s <= MAX_SAFE_NUM {
                    ExprKind::Lit(Lit::Num(s))
                } else {
                    rebuild_add(
                        lspan,
                        ExprKind::Lit(Lit::Num(a)),
                        rspan,
                        ExprKind::Lit(Lit::Num(b)),
                    )
                }
            } else {
                rebuild_add(lspan, ExprKind::Lit(Lit::Num(a)), rspan, ExprKind::Lit(Lit::Num(b)))
            }
        },
        (lk, rk) => rebuild_add(lspan, lk, rspan, rk),
    }
}

/// Rebuild an unchanged `+` node from its parts.
fn rebuild_add(lspan: u64, lk: ExprKind, rspan: u64, rk: ExprKind) -> (r: ExprKind)
    ensures
        view_kind(r) == (ExprKindV::Binary {
            left: Box::new(ExprV { span: lspan, node: view_kind(lk) }),
            op: BinaryOp::Add,
            right: Box::new(ExprV { span: rspan, node: view_kind(rk) }),
        }),
{
    ExprKind::Binary {
        left: Box::new(Expr { span: lspan, node: lk }),
        op: BinaryOp::Add,
        right: Box::new(Expr { span: rspan, node: rk }),
    }
}

/// Fold an equality operator, given its comparison's result: a boolean
/// literal when known, with maybe-impure operands kept ahead of it in a
/// sequence; unchanged when unknown.
fn fold_eq(left: Box<Expr>, op: BinaryOp, right: Box<Expr>, cmp: Value<bool>, negate: bool) -> (r:
    ExprKind)
    ensures
        view_kind(r) == simp_eq_v(view_expr(*left), op, view_expr(*right), cmp, negate),
{
    match cmp {
        Value::Known(v) => {
            let value = if negate { !v } else { v };
            let (lp, _) = left.as_bool();
            let (rp, _) = right.as_bool();
            if lp.is_pure() && rp.is_pure() {
                ExprKind::Lit(Lit::Bool(value))
            } else {
                let span = right.span;
                let ghost lv = view_expr(*left);
                let ghost rv = view_expr(*right);
                let mut exprs: Vec<Expr> = Vec::new();
                exprs.push(*left);
                exprs.push(*right);
                exprs.push(Expr { span, node: ExprKind::Lit(Lit::Bool(value)) });
                proof {
                    crate::ast::lemma_view_expr_seq_props(exprs@);
                    assert(view_expr_seq(exprs@) =~= seq![
                        lv,
                        rv,
                        ExprV { span: rv.span, node: ExprKindV::Lit(LitV::Bool(value)) },
                    ]);
                }
                ExprKind::SeqExpr { exprs }
            }
        },
        Value::Unknown => ExprKind::Binary { left, op, right },
    }
}

/// Simplify a binary expression whose operands are already folded.
///
/// `&&` and `||` short-circuit only when the left operand is pure with a
/// known boolean value, since a maybe-impure left operand must always
/// execute. `+` dispatches to the addition rule, the pure-arithmetic
/// operators to the arithmetic rule, and the equality operators to the
/// comparison rules. `instanceof` can trigger user-defined behavior and is
/// never folded; every other operator passes through unchanged.
pub fn fold_bin(left: Box<Expr>, op: BinaryOp, right: Box<Expr>) -> (r: ExprKind)
    ensures
        view_kind(r) == simp_bin_v(view_expr(*left), op, view_expr(*right)),
{
    match op {
        BinaryOp::Add => fold_add(left, right),
        BinaryOp::And | BinaryOp::Or => {
            let (p, v) = left.as_bool();
            if let Value::Known(val) = v {
                if p.is_pure() {
                    if op == BinaryOp::And {
                        if val {
                            let r = *right;
                            return r.node;
                        } else {
                            return ExprKind::Lit(Lit::Bool(false));
                        }
                    } else {
                        if val {
                            let l = *left;
                            return l.node;
                        } else {
                            let r = *right;
                            return r.node;
                        }
                    }
                }
            }
            ExprKind::Binary { left, op, right }
        },
        BinaryOp::InstanceOf => ExprKind::Binary { left, op, right },
        BinaryOp::Sub | BinaryOp::Mul | BinaryOp::Div | BinaryOp::Mod => {
            perform_arithmetic_op(op, left, right)
        },
        BinaryOp::EqEq | BinaryOp::NotEq => {
            let cmp = perform_abstract_eq_cmp(&left, &right);
            let negate = op == BinaryOp::NotEq;
            fold_eq(left, op, right, cmp, negate)
        },
        BinaryOp::EqEqEq | BinaryOp::NotEqEqEq => {
            let cmp = perform_strict_eq_cmp(&left, &right);
            let negate = op == BinaryOp::NotEqEqEq;
            fold_eq(left, op, right, cmp, negate)
        },
        _ => ExprKind::Binary { left, op, right },
    }
}

/// One dispatch step on a node whose children are already folded.
pub fn fold_node(k: ExprKind) -> (r: ExprKind)
    requires
        match view_kind(k) {
            ExprKindV::SeqExpr { exprs } => exprs.len() >= 1,
            _ => true,
        },
    ensures
        view_kind(r) == simp_node_v(view_kind(k)),
{
    match k {
        ExprKind::Unary { prefix, op, arg } => fold_unary(prefix, op, arg),
        ExprKind::Binary { left, op, right } => fold_bin(left, op, right),
        ExprKind::Cond { test, cons, alt } => {
            let (p, v) = test.as_bool();
            match v {
                Value::Known(val) => {
                    let chosen = if val {
                        cons
                    } else {
                        alt
                    };
                    if p.is_pure() {
                        let c = *chosen;
                        c.node
                    } else {
                        let ghost tv = view_expr(*test);
                        let ghost cv = view_expr(*chosen);
                        let mut exprs: Vec<Expr> = Vec::new();
                        exprs.push(*test);
                        exprs.push(*chosen);
                        proof {
                            crate::ast::lemma_view_expr_seq_props(exprs@);
                            assert(view_expr_seq(exprs@) =~= seq![tv, cv]);
                        }
                        ExprKind::SeqExpr { exprs }
                    }
                },
                Value::Unknown => ExprKind::Cond { test, cons, alt },
            }
        },
        ExprKind::SeqExpr { exprs } => {
            proof {
                crate::ast::lemma_view_expr_seq_props(exprs@);
            }
            if exprs.len() == 1 {
                let mut exprs = exprs;
                let first = exprs.remove(0);
                first.node
            } else {
                ExprKind::SeqExpr { exprs }
            }
        },
        _ => k,
    }
}


/// Fold every child of a node bottom-up, leaving the node's own shape
/// alone. `None` flags a malformed node: an empty sequence expression
/// somewhere in the tree.
pub fn fold_children(k: ExprKind) -> (r: Option<ExprKind>)
    ensures
        match r {
            Option::Some(k2) => wf_kind_v(view_kind(k)) && view_kind(k2) == simp_children(
                view_kind(k),
            ),
            Option::None => !wf_kind_v(view_kind(k)),
        },
    decreases k, 0int,
{
    match k {
        ExprKind::Unary { prefix, op, arg } => match simplify_checked(*arg) {
            Option::Some(a) => Option::Some(ExprKind::Unary { prefix, op, arg: Box::new(a) }),
            Option::None => Option::None,
        },
        ExprKind::Binary { left, op, right } => match simplify_checked(*left) {
            Option::Some(l) => match simplify_checked(*right) {
                Option::Some(r) => Option::Some(
                    ExprKind::Binary { left: Box::new(l), op, right: Box::new(r) },
                ),
                Option::None => Option::None,
            },
            Option::None => Option::None,
        },
        ExprKind::Cond { test, cons, alt } => match simplify_checked(*test) {
            Option::Some(t) => match simplify_checked(*cons) {
                Option::Some(c) => match simplify_checked(*alt) {
                    Option::Some(a) => Option::Some(
                        ExprKind::Cond {
                            test: Box::new(t),
                            cons: Box::new(c),
                            alt: Box::new(a),
                        },
                    ),
                    Option::None => Option::None,
                },
                Option::None => Option::None,
            },
            Option::None => Option::None,
        },
        ExprKind::SeqExpr { exprs } => {
            if exprs.len() == 0 {
                proof {
                    assert(view_expr_seq(exprs@) =~= Seq::<ExprV>::empty());
                }
                return Option::None;
            }
            proof {
                crate::ast::lemma_view_expr_seq_props(exprs@);
            }
            match simplify_vec(exprs) {
                Option::Some(folded) => Option::Some(ExprKind::SeqExpr { exprs: folded }),
                Option::None => Option::None,
            }
        },
        _ => Option::Some(k),
    }
}

/// Fold every expression of a sequence, in order. `None` flags a
/// malformed element.
fn simplify_vec(v: Vec<Expr>) -> (r: Option<Vec<Expr>>)
    ensures
        match r {
            Option::Some(v2) => wf_seq_v(view_expr_seq(v@)) && view_expr_seq(v2@) == simp_seq(
                view_expr_seq(v@),
            ),
            Option::None => !wf_seq_v(view_expr_seq(v@)),
        },
    decreases v@, 0int,
{
    let ghost ov = v@;
    proof {
        crate::ast::lemma_view_expr_seq_props(ov);
    }
    let mut v = v;
    if v.len() == 0 {
        proof {
            assert(view_expr_seq(v@) =~= Seq::<ExprV>::empty());
            assert(simp_seq(view_expr_seq(v@)) =~= Seq::<ExprV>::empty());
        }
        return Option::Some(v);
    }
    let first = v.remove(0);
    let ghost tail = ov.subrange(1, ov.len() as int);
    proof {
        assert(v@ =~= tail);
        crate::ast::lemma_view_expr_seq_props(tail);
        assert(view_expr_seq(tail) =~= view_expr_seq(ov).subrange(1, ov.len() as int));
    }
    let first_s = match simplify_checked(first) {
        Option::Some(f) => f,
        Option::None => {
            return Option::None;
        },
    };
    let mut rest = match simplify_vec(v) {
        Option::Some(rs) => rs,
        Option::None => {
            return Option::None;
        },
    };
    let ghost rest_before = rest@;
    let mut out: Vec<Expr> = Vec::new();
    out.push(first_s);
    out.append(&mut rest);
    proof {
        crate::ast::lemma_view_expr_seq_props(out@);
        crate::ast::lemma_view_expr_seq_props(rest_before);
        lemma_simp_seq_props(view_expr_seq(ov));
        lemma_simp_seq_props(view_expr_seq(tail));
        assert(out@ =~= seq![first_s] + rest_before);
        assert forall|i: int| 0 <= i < ov.len() implies view_expr_seq(out@)[i] == simp_seq(
            view_expr_seq(ov),
        )[i] by {
            if i == 0 {
                assert(out@[0] == first_s);
            } else {
                assert(out@[i] == rest_before[i - 1]);
                assert(view_expr_seq(rest_before)[i - 1] == simp_seq(view_expr_seq(tail))[i - 1]);
                assert(view_expr_seq(tail)[i - 1] == view_expr_seq(ov)[i]);
            }
        }
        assert(view_expr_seq(out@) =~= simp_seq(view_expr_seq(ov)));
    }
    Option::Some(out)
}

/// Fold a whole expression bottom-up, checking well-formedness on the
/// way: `None` flags a malformed input (an empty sequence expression),
/// `Some` carries the simplified replacement.
pub fn simplify_checked(e: Expr) -> (r: Option<Expr>)
    ensures
        match r {
            Option::Some(s) => wf_v(view_expr(e)) && view_expr(s) == simp(view_expr(e)),
            Option::None => !wf_v(view_expr(e)),
        },
    decreases e, 1int,
{
    let span = e.span;
    let ghost kv = view_kind(e.node);
    match fold_children(e.node) {
        Option::Some(folded) => {
            proof {
                if let ExprKindV::SeqExpr { exprs } = kv {
                    lemma_simp_seq_props(exprs);
                }
            }
            let node = fold_node(folded);
            Option::Some(Expr { span, node })
        },
        Option::None => Option::None,
    }
}

/// The single entry point of the pass: fold a whole, well-formed
/// expression bottom-up and return the simplified replacement. On input
/// that might be malformed (an empty sequence expression), use
/// `simplify_checked`, which flags the violation instead of requiring its
/// absence.
pub fn simplify(e: Expr) -> (r: Expr)
    requires
        wf_v(view_expr(e)),
    ensures
        view_expr(r) == simp(view_expr(e)),
{
    match simplify_checked(e) {
        Option::Some(r) => r,
        Option::None => vstd::pervasive::unreached(),
    }
}

/// The folding pass itself, as the traversal engine sees it: a stateless
/// visitor whose `fold` is invoked once per node, after the node's
/// children have been folded.
pub struct Simplify;

impl Simplify {
    /// Fold the children of a node bottom-up, then simplify the node
    /// itself.
    pub fn fold(&mut self, expr: ExprKind) -> (r: ExprKind)
        requires
            wf_kind_v(view_kind(expr)),
        ensures
            view_kind(r) == simp_kind(view_kind(expr)),
    {
        let ghost kv = view_kind(expr);
        match fold_children(expr) {
            Option::Some(folded) => {
                proof {
                    if let ExprKindV::SeqExpr { exprs } = kv {
                        lemma_simp_seq_props(exprs);
                    }
                }
                fold_node(folded)
            },
            Option::None => vstd::pervasive::unreached(),
        }
    }
}

} // verus!
