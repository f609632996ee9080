//! An evaluation model of the host language, as far as this pass reasons
//! about it, and the equivalence law: folding does not change what an
//! expression evaluates to, nor the order of its side effects.
//!
//! The model threads an abstract machine state through evaluation and
//! consults an arbitrary oracle for everything the pass treats as unknown
//! (identifier reads, unrecognized operators, coercions the pass never
//! attempts). The equivalence law quantifies over every oracle, so it holds
//! whatever those unknowns do. Two shapes are modeled as effect-free
//! because their contents are opaque to this AST: function, object and
//! array expressions evaluate to an object of the matching kind without
//! touching the state.

use vstd::prelude::*;

use crate::ast::ExprV;
use crate::ast::ExprKindV;
use crate::ast::LitV;
use crate::ast::UnaryOp;
use crate::ast::BinaryOp;
use crate::numstr::num_str;
use crate::numstr::bool_str;
use crate::value::Purity;
use crate::value::Value;
use crate::value::purity_of;
use crate::value::bool_value_of;
use crate::fold::simp;
use crate::fold::simp_seq;
use crate::fold::simp_children;
use crate::fold::strict_eq_v;
use crate::fold::abstract_eq_v;
use crate::fold::typeof_text_v;
use crate::fold::lemma_simp_seq_props;

verus! {

/// What kind of object an opaque expression constructs.
pub enum ObjKind {
    Fun,
    Obj,
    Arr,
}

/// A runtime value, as far as the model tells values apart. Numbers are
/// exact integers (`VNum`), not-a-number (`VNaN`) or an infinity
/// (`VInf`, true for the negative one); every number the pass folds is a
/// `VNum`. `VOpaque` stands for any value the model does not inspect,
/// carrying only its truthiness, its `typeof` text and an identity.
pub enum JsVal {
    VStr(Seq<char>),
    VNum(int),
    VBool(bool),
    VNull,
    VUndef,
    VNaN,
    VInf(bool),
    VObj(ObjKind, int),
    VOpaque(bool, Seq<char>, int),
}

/// One question to the oracle: an identifier read, an unknown node, or an
/// operator applied to values the model does not decide on.
pub enum OCall {
    OIdent(Seq<char>),
    OOther(u64),
    OUnary(UnaryOp, JsVal),
    OBinary(BinaryOp, JsVal, JsVal),
}

/// The language's `ToBoolean` on a model value.
pub open spec fn to_bool(v: JsVal) -> bool {
    match v {
        JsVal::VStr(s) => s.len() > 0,
        JsVal::VNum(n) => n != 0,
        JsVal::VBool(b) => b,
        JsVal::VNull => false,
        JsVal::VUndef => false,
        JsVal::VNaN => false,
        JsVal::VInf(_) => true,
        JsVal::VObj(_, _) => true,
        JsVal::VOpaque(t, _, _) => t,
    }
}

/// The text `typeof` yields for a model value.
pub open spec fn typeof_text_val(v: JsVal) -> Seq<char> {
    match v {
        JsVal::VStr(_) => "string"@,
        JsVal::VNum(_) => "number"@,
        JsVal::VBool(_) => "boolean"@,
        JsVal::VNull => "object"@,
        JsVal::VUndef => "undefined"@,
        JsVal::VNaN => "number"@,
        JsVal::VInf(_) => "number"@,
        JsVal::VObj(ObjKind::Fun, _) => "function"@,
        JsVal::VObj(_, _) => "object"@,
        JsVal::VOpaque(_, t, _) => t,
    }
}

/// The language's `ToString` on a primitive model value; `None` where the
/// conversion could run user code.
pub open spec fn to_text(v: JsVal) -> Option<Seq<char>> {
    match v {
        JsVal::VStr(s) => Option::Some(s),
        JsVal::VNum(n) => Option::Some(num_str(n)),
        JsVal::VBool(b) => Option::Some(bool_str(b)),
        JsVal::VNull => Option::Some("null"@),
        JsVal::VUndef => Option::Some("undefined"@),
        JsVal::VNaN => Option::Some("NaN"@),
        JsVal::VInf(neg) => if neg {
            Option::Some("-Infinity"@)
        } else {
            Option::Some("Infinity"@)
        },
        _ => Option::None,
    }
}

/// The value of a literal.
pub open spec fn lit_val(l: LitV) -> JsVal {
    match l {
        LitV::Str(s) => JsVal::VStr(s),
        LitV::Num(n) => JsVal::VNum(n),
        LitV::Bool(b) => JsVal::VBool(b),
        LitV::Null => JsVal::VNull,
    }
}

/// Strict equality on model values, where the model decides it; `None`
/// where object identity or an opaque value is involved.
pub open spec fn strict_eq_val(l: JsVal, r: JsVal) -> Option<bool> {
    match (l, r) {
        (JsVal::VObj(_, _), _) => Option::None,
        (_, JsVal::VObj(_, _)) => Option::None,
        (JsVal::VOpaque(_, _, _), _) => Option::None,
        (_, JsVal::VOpaque(_, _, _)) => Option::None,
        (JsVal::VNaN, _) => Option::Some(false),
        (_, JsVal::VNaN) => Option::Some(false),
        (JsVal::VStr(a), JsVal::VStr(b)) => Option::Some(a == b),
        (JsVal::VNum(a), JsVal::VNum(b)) => Option::Some(a == b),
        (JsVal::VInf(a), JsVal::VInf(b)) => Option::Some(a == b),
        (JsVal::VNum(_), JsVal::VInf(_)) => Option::Some(false),
        (JsVal::VInf(_), JsVal::VNum(_)) => Option::Some(false),
        (JsVal::VBool(a), JsVal::VBool(b)) => Option::Some(a == b),
        (JsVal::VNull, JsVal::VNull) => Option::Some(true),
        (JsVal::VUndef, JsVal::VUndef) => Option::Some(true),
        _ => Option::Some(false),
    }
}

/// Abstract equality on model values, where the model decides it; `None`
/// where a coercion the pass never attempts (string to number, object to
/// primitive) would be needed.
pub open spec fn abstract_eq_val(l: JsVal, r: JsVal) -> Option<bool> {
    match (l, r) {
        (JsVal::VObj(_, _), _) => Option::None,
        (_, JsVal::VObj(_, _)) => Option::None,
        (JsVal::VOpaque(_, _, _), _) => Option::None,
        (_, JsVal::VOpaque(_, _, _)) => Option::None,
        (JsVal::VNull, JsVal::VNull) => Option::Some(true),
        (JsVal::VUndef, JsVal::VUndef) => Option::Some(true),
        (JsVal::VNull, JsVal::VUndef) => Option::Some(true),
        (JsVal::VUndef, JsVal::VNull) => Option::Some(true),
        (JsVal::VNull, _) => Option::Some(false),
        (_, JsVal::VNull) => Option::Some(false),
        (JsVal::VUndef, _) => Option::Some(false),
        (_, JsVal::VUndef) => Option::Some(false),
        (JsVal::VNaN, _) => Option::Some(false),
        (_, JsVal::VNaN) => Option::Some(false),
        (JsVal::VStr(a), JsVal::VStr(b)) => Option::Some(a == b),
        (JsVal::VNum(a), JsVal::VNum(b)) => Option::Some(a == b),
        (JsVal::VInf(a), JsVal::VInf(b)) => Option::Some(a == b),
        (JsVal::VNum(_), JsVal::VInf(_)) => Option::Some(false),
        (JsVal::VInf(_), JsVal::VNum(_)) => Option::Some(false),
        (JsVal::VBool(a), JsVal::VBool(b)) => Option::Some(a == b),
        (JsVal::VNum(a), JsVal::VBool(b)) => Option::Some(a == if b { 1int } else { 0int }),
        (JsVal::VBool(a), JsVal::VNum(b)) => Option::Some(b == if a { 1int } else { 0int }),
        (JsVal::VInf(_), JsVal::VBool(_)) => Option::Some(false),
        (JsVal::VBool(_), JsVal::VInf(_)) => Option::Some(false),
        _ => Option::None,
    }
}

/// One unary operator applied to a value: exact where the model decides
/// it, the oracle otherwise.
pub open spec fn eval_unary(
    f: spec_fn(int, OCall) -> (int, JsVal),
    st: int,
    op: UnaryOp,
    v: JsVal,
) -> (int, JsVal) {
    match op {
        UnaryOp::TypeOf => (st, JsVal::VStr(typeof_text_val(v))),
        UnaryOp::Bang => (st, JsVal::VBool(!to_bool(v))),
        UnaryOp::Void => (st, JsVal::VUndef),
        UnaryOp::Minus => match v {
            JsVal::VNum(n) => (st, JsVal::VNum(-n)),
            JsVal::VNaN => (st, JsVal::VNaN),
            JsVal::VInf(b) => (st, JsVal::VInf(!b)),
            _ => f(st, OCall::OUnary(UnaryOp::Minus, v)),
        },
        _ => f(st, OCall::OUnary(op, v)),
    }
}

/// One binary operator (other than the short-circuiting ones) applied to
/// two values: exact where the model decides it, the oracle otherwise.
pub open spec fn eval_binop(
    f: spec_fn(int, OCall) -> (int, JsVal),
    st: int,
    op: BinaryOp,
    lv: JsVal,
    rv: JsVal,
) -> (int, JsVal) {
    match op {
        BinaryOp::Add => if lv is VStr || rv is VStr {
            match (to_text(lv), to_text(rv)) {
                (Option::Some(a), Option::Some(b)) => (st, JsVal::VStr(a + b)),
                _ => f(st, OCall::OBinary(op, lv, rv)),
            }
        } else {
            match (lv, rv) {
                (JsVal::VNum(a), JsVal::VNum(b)) => (st, JsVal::VNum(a + b)),
                _ => f(st, OCall::OBinary(op, lv, rv)),
            }
        },
        BinaryOp::Sub => match (lv, rv) {
            (JsVal::VNum(a), JsVal::VNum(b)) => (st, JsVal::VNum(a - b)),
            _ => f(st, OCall::OBinary(op, lv, rv)),
        },
        BinaryOp::Mul => match (lv, rv) {
            (JsVal::VNum(a), JsVal::VNum(b)) => (st, JsVal::VNum(a * b)),
            _ => f(st, OCall::OBinary(op, lv, rv)),
        },
        BinaryOp::Div => match (lv, rv) {
            (JsVal::VNum(a), JsVal::VNum(b)) => if a >= 0 && b > 0 && a % b == 0 {
                (st, JsVal::VNum(a / b))
            } else {
                f(st, OCall::OBinary(op, lv, rv))
            },
            _ => f(st, OCall::OBinary(op, lv, rv)),
        },
        BinaryOp::Mod => match (lv, rv) {
            (JsVal::VNum(a), JsVal::VNum(b)) => if a >= 0 && b > 0 {
                (st, JsVal::VNum(a % b))
            } else {
                f(st, OCall::OBinary(op, lv, rv))
            },
            _ => f(st, OCall::OBinary(op, lv, rv)),
        },
        BinaryOp::EqEq | BinaryOp::NotEq => match abstract_eq_val(lv, rv) {
            Option::Some(b) => (
                st,
                JsVal::VBool(if op == BinaryOp::NotEq { !b } else { b }),
            ),
            Option::None => f(st, OCall::OBinary(op, lv, rv)),
        },
        BinaryOp::EqEqEq | BinaryOp::NotEqEqEq => match strict_eq_val(lv, rv) {
            Option::Some(b) => (
                st,
                JsVal::VBool(if op == BinaryOp::NotEqEqEq { !b } else { b }),
            ),
            Option::None => f(st, OCall::OBinary(op, lv, rv)),
        },
        _ => f(st, OCall::OBinary(op, lv, rv)),
    }
}

/// Evaluation of an expression: the state after it and its value.
pub open spec fn eval(f: spec_fn(int, OCall) -> (int, JsVal), st: int, e: ExprV) -> (int, JsVal)
    decreases e,
{
    match e.node {
        ExprKindV::Lit(l) => (st, lit_val(l)),
        ExprKindV::Ident(s) => if s == "undefined"@ {
            (st, JsVal::VUndef)
        } else if s == "NaN"@ {
            (st, JsVal::VNaN)
        } else if s == "Infinity"@ {
            (st, JsVal::VInf(false))
        } else {
            f(st, OCall::OIdent(s))
        },
        ExprKindV::Unary { prefix, op, arg } => {
            let (st1, v) = eval(f, st, *arg);
            eval_unary(f, st1, op, v)
        },
        ExprKindV::Binary { left, op, right } => match op {
            BinaryOp::And => {
                let (st1, lv) = eval(f, st, *left);
                if to_bool(lv) {
                    eval(f, st1, *right)
                } else {
                    (st1, lv)
                }
            },
            BinaryOp::Or => {
                let (st1, lv) = eval(f, st, *left);
                if to_bool(lv) {
                    (st1, lv)
                } else {
                    eval(f, st1, *right)
                }
            },
            _ => {
                let (st1, lv) = eval(f, st, *left);
                let (st2, rv) = eval(f, st1, *right);
                eval_binop(f, st2, op, lv, rv)
            },
        },
        ExprKindV::Cond { test, cons, alt } => {
            let (st1, tv) = eval(f, st, *test);
            if to_bool(tv) {
                eval(f, st1, *cons)
            } else {
                eval(f, st1, *alt)
            }
        },
        ExprKindV::SeqExpr { exprs } => eval_seq(f, st, exprs),
        ExprKindV::Function(t) => (st, JsVal::VObj(ObjKind::Fun, t as int)),
        ExprKindV::Object(t) => (st, JsVal::VObj(ObjKind::Obj, t as int)),
        ExprKindV::Array(t) => (st, JsVal::VObj(ObjKind::Arr, t as int)),
        ExprKindV::Other(t) => f(st, OCall::OOther(t)),
    }
}

/// Evaluation of a sequence of expressions, left to right; its value is
/// the last element's. (An empty sequence never arises in well-formed
/// input; the model gives it `undefined`.)
pub open spec fn eval_seq(
    f: spec_fn(int, OCall) -> (int, JsVal),
    st: int,
    s: Seq<ExprV>,
) -> (int, JsVal)
    decreases s,
{
    if s.len() == 0 {
        (st, JsVal::VUndef)
    } else if s.len() == 1 {
        eval(f, st, s[0])
    } else {
        let (st1, _) = eval(f, st, s[0]);
        eval_seq(f, st1, s.subrange(1, s.len() as int))
    }
}

/// Whether evaluating an expression can never move the state, whatever the
/// oracle and the starting state.
pub open spec fn state_free(e: ExprV) -> bool {
    forall|f: spec_fn(int, OCall) -> (int, JsVal), st: int| (#[trigger] eval(f, st, e)).0 == st
}

/// Whether the typeof rule may discard this (already folded) operand: a
/// `void` operand's own operand must be effect-free, since the rule drops
/// it. Every other discarded shape is effect-free in the model already.
pub open spec fn typeof_arg_ok(arg: ExprV) -> bool {
    match arg.node {
        ExprKindV::Unary { prefix, op, arg: varg } => !(prefix && op == UnaryOp::Void)
            || state_free(*varg),
        _ => true,
    }
}

/// Whether the `&&` rule is exact on this (already folded) left operand:
/// a pure operand with known-false boolean coercion must be the literal
/// `false` itself, because the rule replaces the whole expression with
/// that literal while the language returns the operand's own value.
pub open spec fn and_left_ok(l: ExprV) -> bool {
    !(purity_of(l.node) == Purity::Pure && bool_value_of(l.node) == Value::<bool>::Known(false))
        || l.node == ExprKindV::Lit(LitV::Bool(false))
}

/// The inputs on which the pass is exactly behavior-preserving in this
/// model: everywhere in the tree, a `typeof` that folds away a `void`
/// operand drops only effect-free work, and a `&&` whose left operand
/// folds to known-false has the literal `false` there (on other falsy
/// operands the rule replaces the operand's value, `0`, `""`, `null`,
/// `NaN` or `undefined`, with the literal `false`).
pub open spec fn sem_clean(e: ExprV) -> bool
    decreases e,
{
    sem_clean_kind(e.node)
}

/// Cleanliness of one expression kind.
pub open spec fn sem_clean_kind(k: ExprKindV) -> bool
    decreases k,
{
    match k {
        ExprKindV::Unary { prefix, op, arg } => sem_clean(*arg) && (op != UnaryOp::TypeOf
            || typeof_arg_ok(simp(*arg))),
        ExprKindV::Binary { left, op, right } => sem_clean(*left) && sem_clean(*right) && (op
            != BinaryOp::And || and_left_ok(simp(*left))),
        ExprKindV::Cond { test, cons, alt } => sem_clean(*test) && sem_clean(*cons) && sem_clean(
            *alt,
        ),
        ExprKindV::SeqExpr { exprs } => sem_clean_seq(exprs),
        _ => true,
    }
}

/// Cleanliness of every element of a sequence.
pub open spec fn sem_clean_seq(s: Seq<ExprV>) -> bool
    decreases s,
{
    s.len() == 0 || (sem_clean(s[0]) && sem_clean_seq(s.subrange(1, s.len() as int)))
}

/// Evaluation depends only on a node's kind, never on its source tag.
proof fn lemma_eval_node_only(f: spec_fn(int, OCall) -> (int, JsVal), st: int, a: ExprV, b: ExprV)
    requires
        a.node == b.node,
    ensures
        eval(f, st, a) == eval(f, st, b),
    decreases a,
{
    match a.node {
        ExprKindV::Binary { left, op, right } => {},
        ExprKindV::Cond { test, cons, alt } => {},
        _ => {},
    }
}

/// A node whose boolean coercion is statically known evaluates, without
/// moving the state, to a value that coerces to that boolean.
proof fn lemma_known_bool(f: spec_fn(int, OCall) -> (int, JsVal), st: int, e: ExprV, b: bool)
    requires
        bool_value_of(e.node) == Value::<bool>::Known(b),
    ensures
        eval(f, st, e).0 == st,
        to_bool(eval(f, st, e).1) == b,
{
    reveal_strlit("undefined");
    reveal_strlit("NaN");
    reveal_strlit("Infinity");
}

/// A pure node (a literal or a reserved identifier) evaluates without
/// moving the state.
proof fn lemma_pure_state_free(f: spec_fn(int, OCall) -> (int, JsVal), st: int, e: ExprV)
    requires
        purity_of(e.node) == Purity::Pure,
    ensures
        eval(f, st, e).0 == st,
{
    reveal_strlit("undefined");
    reveal_strlit("NaN");
    reveal_strlit("Infinity");
}

/// When the static strict-equality comparison is known, both operands are
/// pure, evaluate without moving the state, and their values compare in
/// the model exactly as predicted.
proof fn lemma_strict_eq_sound(
    f: spec_fn(int, OCall) -> (int, JsVal),
    st1: int,
    st2: int,
    l: ExprV,
    r: ExprV,
    b: bool,
)
    requires
        strict_eq_v(l.node, r.node) == Value::<bool>::Known(b),
    ensures
        purity_of(l.node) == Purity::Pure,
        purity_of(r.node) == Purity::Pure,
        eval(f, st1, l).0 == st1,
        eval(f, st2, r).0 == st2,
        strict_eq_val(eval(f, st1, l).1, eval(f, st2, r).1) == Option::Some(b),
{
    reveal_strlit("undefined");
    reveal_strlit("NaN");
    reveal_strlit("Infinity");
    match (l.node, r.node) {
        (ExprKindV::Lit(a), ExprKindV::Lit(c)) => {
            assert(eval(f, st1, l) == (st1, lit_val(a)));
            assert(eval(f, st2, r) == (st2, lit_val(c)));
            match (a, c) {
                (LitV::Str(_), LitV::Str(_)) => {},
                (LitV::Num(_), LitV::Num(_)) => {},
                (LitV::Bool(_), LitV::Bool(_)) => {},
                _ => {},
            }
        },
        (ExprKindV::Ident(x), ExprKindV::Ident(y)) => {
            assert(x == "undefined"@ || x == "NaN"@ || x == "Infinity"@);
            assert(y == "undefined"@ || y == "NaN"@ || y == "Infinity"@);
            if x == "undefined"@ {
                assert(eval(f, st1, l) == (st1, JsVal::VUndef));
            } else if x == "NaN"@ {
                assert(eval(f, st1, l) == (st1, JsVal::VNaN));
            } else {
                assert(eval(f, st1, l) == (st1, JsVal::VInf(false)));
            }
            if y == "undefined"@ {
                assert(eval(f, st2, r) == (st2, JsVal::VUndef));
            } else if y == "NaN"@ {
                assert(eval(f, st2, r) == (st2, JsVal::VNaN));
            } else {
                assert(eval(f, st2, r) == (st2, JsVal::VInf(false)));
            }
        },
        (ExprKindV::Ident(x), ExprKindV::Lit(c)) => {
            assert(eval(f, st2, r) == (st2, lit_val(c)));
            if x == "undefined"@ {
                assert(eval(f, st1, l) == (st1, JsVal::VUndef));
            } else if x == "NaN"@ {
                assert(eval(f, st1, l) == (st1, JsVal::VNaN));
            } else {
                assert(eval(f, st1, l) == (st1, JsVal::VInf(false)));
            }
            match c {
                LitV::Str(_) => {},
                LitV::Num(_) => {},
                LitV::Bool(_) => {},
                LitV::Null => {},
            }
        },
        (ExprKindV::Lit(a), ExprKindV::Ident(y)) => {
            assert(eval(f, st1, l) == (st1, lit_val(a)));
            if y == "undefined"@ {
                assert(eval(f, st2, r) == (st2, JsVal::VUndef));
            } else if y == "NaN"@ {
                assert(eval(f, st2, r) == (st2, JsVal::VNaN));
            } else {
                assert(eval(f, st2, r) == (st2, JsVal::VInf(false)));
            }
            match a {
                LitV::Str(_) => {},
                LitV::Num(_) => {},
                LitV::Bool(_) => {},
                LitV::Null => {},
            }
        },
        _ => {},
    }
    assert(strict_eq_val(eval(f, st1, l).1, eval(f, st2, r).1) =~= Option::Some(b));
}

/// When the static abstract-equality comparison is known, both operands
/// are pure, evaluate without moving the state, and their values compare
/// in the model exactly as predicted.
proof fn lemma_abstract_eq_sound(
    f: spec_fn(int, OCall) -> (int, JsVal),
    st1: int,
    st2: int,
    l: ExprV,
    r: ExprV,
    b: bool,
)
    requires
        abstract_eq_v(l.node, r.node) == Value::<bool>::Known(b),
    ensures
        purity_of(l.node) == Purity::Pure,
        purity_of(r.node) == Purity::Pure,
        eval(f, st1, l).0 == st1,
        eval(f, st2, r).0 == st2,
        abstract_eq_val(eval(f, st1, l).1, eval(f, st2, r).1) == Option::Some(b),
{
    reveal_strlit("undefined");
    reveal_strlit("NaN");
    reveal_strlit("Infinity");
    match (l.node, r.node) {
        (ExprKindV::Lit(a), ExprKindV::Lit(c)) => {
            assert(eval(f, st1, l) == (st1, lit_val(a)));
            assert(eval(f, st2, r) == (st2, lit_val(c)));
            match (a, c) {
                (LitV::Str(_), LitV::Str(_)) => {},
                (LitV::Num(_), LitV::Num(_)) => {},
                (LitV::Bool(_), LitV::Bool(_)) => {},
                _ => {},
            }
            assert(abstract_eq_val(eval(f, st1, l).1, eval(f, st2, r).1) =~= Option::Some(b));
        },
        (ExprKindV::Ident(x), ExprKindV::Ident(y)) => {
            assert(x == "undefined"@ || x == "NaN"@ || x == "Infinity"@);
            assert(y == "undefined"@ || y == "NaN"@ || y == "Infinity"@);
            if x == "undefined"@ {
                assert(eval(f, st1, l) == (st1, JsVal::VUndef));
            } else if x == "NaN"@ {
                assert(eval(f, st1, l) == (st1, JsVal::VNaN));
            } else {
                assert(eval(f, st1, l) == (st1, JsVal::VInf(false)));
            }
            if y == "undefined"@ {
                assert(eval(f, st2, r) == (st2, JsVal::VUndef));
            } else if y == "NaN"@ {
                assert(eval(f, st2, r) == (st2, JsVal::VNaN));
            } else {
                assert(eval(f, st2, r) == (st2, JsVal::VInf(false)));
            }
            assert(abstract_eq_val(eval(f, st1, l).1, eval(f, st2, r).1) =~= Option::Some(b));
        },
        (ExprKindV::Ident(x), ExprKindV::Lit(c)) => {
            assert(eval(f, st2, r) == (st2, lit_val(c)));
            if x == "undefined"@ {
                assert(eval(f, st1, l) == (st1, JsVal::VUndef));
            } else if x == "NaN"@ {
                assert(eval(f, st1, l) == (st1, JsVal::VNaN));
            } else {
                assert(eval(f, st1, l) == (st1, JsVal::VInf(false)));
            }
            match c {
                LitV::Str(_) => {},
                LitV::Num(_) => {},
                LitV::Bool(_) => {},
                LitV::Null => {},
            }
            assert(abstract_eq_val(eval(f, st1, l).1, eval(f, st2, r).1) =~= Option::Some(b));
        },
        (ExprKindV::Lit(a), ExprKindV::Ident(y)) => {
            assert(eval(f, st1, l) == (st1, lit_val(a)));
            if y == "undefined"@ {
                assert(eval(f, st2, r) == (st2, JsVal::VUndef));
            } else if y == "NaN"@ {
                assert(eval(f, st2, r) == (st2, JsVal::VNaN));
            } else {
                assert(eval(f, st2, r) == (st2, JsVal::VInf(false)));
            }
            match a {
                LitV::Str(_) => {},
                LitV::Num(_) => {},
                LitV::Bool(_) => {},
                LitV::Null => {},
            }
            assert(abstract_eq_val(eval(f, st1, l).1, eval(f, st2, r).1) =~= Option::Some(b));
        },
        _ => {},
    }
    assert(abstract_eq_val(eval(f, st1, l).1, eval(f, st2, r).1) =~= Option::Some(b));
}

/// Semantic equivalence: on clean input (see `sem_clean`), replacing an
/// expression with its simplification changes neither the machine state
/// threaded through evaluation — so every side effect still happens, in
/// the same order — nor the resulting value, whatever the oracle says
/// about the parts the pass does not know.
#[verifier::rlimit(80)]
pub proof fn lemma_simp_preserves_eval(f: spec_fn(int, OCall) -> (int, JsVal), st: int, e: ExprV)
    requires
        sem_clean(e),
    ensures
        eval(f, st, simp(e)) == eval(f, st, e),
    decreases e,
{
    let k = e.node;
    match k {
        ExprKindV::Unary { prefix, op, arg } => {
            lemma_simp_preserves_eval(f, st, *arg);
            let sa = simp(*arg);
            let av = eval(f, st, *arg);
            if op == UnaryOp::TypeOf {
                match typeof_text_v(sa.node) {
                    Option::Some(t) => {
                        reveal_strlit("undefined");
                        reveal_strlit("NaN");
                        reveal_strlit("Infinity");
                        if let ExprKindV::Unary { prefix: vp, op: vo, arg: varg } = sa.node {
                            assert(state_free(*varg));
                            assert(eval(f, st, *varg).0 == st);
                        }
                        assert(eval(f, st, simp(e)) == eval(f, st, e));
                    },
                    Option::None => {},
                }
            } else if op == UnaryOp::Bang {
                match bool_value_of(sa.node) {
                    Value::Known(val) => {
                        lemma_known_bool(f, st, sa, val);
                        if purity_of(sa.node) == Purity::Pure {
                            assert(eval(f, st, simp(e)) == eval(f, st, e));
                        } else {
                            let lit = ExprV {
                                span: sa.span,
                                node: ExprKindV::Lit(LitV::Bool(!val)),
                            };
                            let two = seq![sa, lit];
                            assert(two.len() == 2);
                            assert(two[0] == sa);
                            assert(two.subrange(1, 2) =~= seq![lit]);
                            assert(eval(f, st, two[0]) == av);
                            assert(eval_seq(f, st, two) == eval_seq(f, av.0, two.subrange(1, 2)));
                            assert(eval_seq(f, av.0, seq![lit]) == eval(f, av.0, lit));
                            assert(eval(f, st, simp(e)) == eval(f, st, e));
                        }
                    },
                    Value::Unknown => {
                        assert(eval(f, st, simp(e)) == eval(f, st, e));
                    },
                }
            } else if op == UnaryOp::Minus {
                reveal_strlit("undefined");
                reveal_strlit("NaN");
                reveal_strlit("Infinity");
                assert("NaN"@.len() == 3);
                assert("undefined"@.len() == 9);
                assert("Infinity"@.len() == 8);
                match sa.node {
                    ExprKindV::Ident(s) => {
                        if s == "NaN"@ {
                            lemma_eval_node_only(
                                f,
                                st,
                                ExprV { span: e.span, node: sa.node },
                                sa,
                            );
                            assert(eval(f, st, sa) == (st, JsVal::VNaN));
                            assert(eval(f, st, e) == (st, JsVal::VNaN));
                            assert(simp(e) == ExprV { span: e.span, node: sa.node });
                            assert(eval(f, st, simp(e)) == (st, JsVal::VNaN));
                        } else {
                            assert(eval(f, st, simp(e)) == eval(f, st, e));
                        }
                    },
                    ExprKindV::Lit(li) => {
                        assert(eval(f, st, simp(e)) == eval(f, st, e));
                    },
                    _ => {
                        assert(eval(f, st, simp(e)) == eval(f, st, e));
                    },
                }
            } else {
                assert(eval(f, st, simp(e)) == eval(f, st, e));
            }
        },
        ExprKindV::Binary { left, op, right } => {
            lemma_simp_preserves_eval(f, st, *left);
            let sl = simp(*left);
            let sr = simp(*right);
            let lv = eval(f, st, *left);
            lemma_simp_preserves_eval(f, lv.0, *right);
            if op == BinaryOp::And || op == BinaryOp::Or {
                if purity_of(sl.node) == Purity::Pure && bool_value_of(sl.node) is Known {
                    let val = bool_value_of(sl.node)->Known_0;
                    lemma_known_bool(f, st, sl, val);
                    if op == BinaryOp::And {
                        if val {
                            lemma_simp_preserves_eval(f, st, *right);
                            lemma_eval_node_only(
                                f,
                                st,
                                ExprV { span: e.span, node: sr.node },
                                sr,
                            );
                        } else {
                            assert(and_left_ok(sl));
                            assert(sl.node == ExprKindV::Lit(LitV::Bool(false)));
                        }
                    } else {
                        if val {
                            lemma_eval_node_only(
                                f,
                                st,
                                ExprV { span: e.span, node: sl.node },
                                sl,
                            );
                        } else {
                            lemma_simp_preserves_eval(f, st, *right);
                            lemma_eval_node_only(
                                f,
                                st,
                                ExprV { span: e.span, node: sr.node },
                                sr,
                            );
                        }
                    }
                } else {
                }
            } else if op == BinaryOp::EqEq || op == BinaryOp::NotEq {
                match abstract_eq_v(sl.node, sr.node) {
                    Value::Known(b) => {
                        lemma_abstract_eq_sound(f, st, lv.0, sl, sr, b);
                    },
                    Value::Unknown => {},
                }
            } else if op == BinaryOp::EqEqEq || op == BinaryOp::NotEqEqEq {
                match strict_eq_v(sl.node, sr.node) {
                    Value::Known(b) => {
                        lemma_strict_eq_sound(f, st, lv.0, sl, sr, b);
                    },
                    Value::Unknown => {},
                }
            } else {
            }
        },
        ExprKindV::Cond { test, cons, alt } => {
            lemma_simp_preserves_eval(f, st, *test);
            let stest = simp(*test);
            let tv = eval(f, st, *test);
            lemma_simp_preserves_eval(f, tv.0, *cons);
            lemma_simp_preserves_eval(f, tv.0, *alt);
            match bool_value_of(stest.node) {
                Value::Known(val) => {
                    lemma_known_bool(f, st, stest, val);
                    let chosen = if val {
                        simp(*cons)
                    } else {
                        simp(*alt)
                    };
                    if purity_of(stest.node) == Purity::Pure {
                        lemma_eval_node_only(
                            f,
                            st,
                            ExprV { span: e.span, node: chosen.node },
                            chosen,
                        );
                    } else {
                        let two = seq![stest, chosen];
                        assert(two.len() == 2);
                        assert(two[0] == stest);
                        assert(two.subrange(1, 2) =~= seq![chosen]);
                        assert(eval(f, st, two[0]) == tv);
                        assert(eval_seq(f, st, two) == eval_seq(f, tv.0, two.subrange(1, 2)));
                        assert(eval_seq(f, tv.0, seq![chosen]) == eval(f, tv.0, chosen));
                    }
                },
                Value::Unknown => {},
            }
        },
        ExprKindV::SeqExpr { exprs } => {
            lemma_simp_preserves_eval_seq(f, st, exprs);
            lemma_simp_seq_props(exprs);
            if exprs.len() == 1 {
                lemma_eval_node_only(
                    f,
                    st,
                    ExprV { span: e.span, node: simp_seq(exprs)[0].node },
                    simp_seq(exprs)[0],
                );
                assert(eval_seq(f, st, exprs) == eval(f, st, exprs[0]));
                assert(eval_seq(f, st, simp_seq(exprs)) == eval(f, st, simp_seq(exprs)[0]));
            }
        },
        _ => {},
    }
}

/// Semantic equivalence for a sequence of expressions, element by element
/// and left to right.
pub proof fn lemma_simp_preserves_eval_seq(
    f: spec_fn(int, OCall) -> (int, JsVal),
    st: int,
    s: Seq<ExprV>,
)
    requires
        sem_clean_seq(s),
    ensures
        eval_seq(f, st, simp_seq(s)) == eval_seq(f, st, s),
    decreases s,
{
    lemma_simp_seq_props(s);
    if s.len() == 0 {
    } else if s.len() == 1 {
        lemma_simp_preserves_eval(f, st, s[0]);
        assert(simp_seq(s)[0] == simp(s[0]));
        assert(eval_seq(f, st, simp_seq(s)) == eval(f, st, simp(s[0])));
    } else {
        let tail = s.subrange(1, s.len() as int);
        lemma_simp_preserves_eval(f, st, s[0]);
        let st1 = eval(f, st, s[0]).0;
        lemma_simp_preserves_eval_seq(f, st1, tail);
        assert(simp_seq(s).subrange(1, simp_seq(s).len() as int) =~= simp_seq(tail));
        assert(simp_seq(s)[0] == simp(s[0]));
    }
}

} // verus!
