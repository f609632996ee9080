//! The pass-wide laws: idempotence of `simp`, preservation of the
//! well-formedness invariant, and the guarantees that no maybe-impure
//! sub-expression is discarded by a folding rule.

use vstd::prelude::*;

use crate::ast::ExprV;
use crate::ast::ExprKindV;
use crate::ast::LitV;
use crate::ast::UnaryOp;
use crate::ast::BinaryOp;
use crate::ast::wf_v;
use crate::ast::wf_kind_v;
use crate::ast::wf_seq_v;
use crate::ast::lemma_wf_seq_props;
use crate::fold::simp;
use crate::fold::simp_kind;
use crate::fold::simp_children;
use crate::fold::simp_seq;
use crate::fold::simp_node_v;
use crate::fold::simp_unary_v;
use crate::fold::simp_eq_v;
use crate::fold::lemma_simp_seq_props;
use crate::value::Purity;
use crate::value::Value;
use crate::value::purity_of;
use crate::value::bool_value_of;

verus! {

/// An expression is stable when every node in it is a fixed point of the
/// dispatch step: folding it again changes nothing.
pub open spec fn stable(e: ExprV) -> bool
    decreases e,
{
    stable_kind(e.node)
}

/// Stability of one expression kind: its children are stable and the
/// dispatch step leaves it unchanged.
pub open spec fn stable_kind(k: ExprKindV) -> bool
    decreases k,
{
    &&& match k {
        ExprKindV::Unary { prefix, op, arg } => stable(*arg),
        ExprKindV::Binary { left, op, right } => stable(*left) && stable(*right),
        ExprKindV::Cond { test, cons, alt } => stable(*test) && stable(*cons) && stable(*alt),
        ExprKindV::SeqExpr { exprs } => stable_seq(exprs),
        _ => true,
    }
    &&& simp_node_v(k) == k
}

/// Stability of every element of a sequence.
pub open spec fn stable_seq(s: Seq<ExprV>) -> bool
    decreases s,
{
    s.len() == 0 || (stable(s[0]) && stable_seq(s.subrange(1, s.len() as int)))
}

/// A sequence is stable exactly when each of its elements is.
pub proof fn lemma_stable_seq_props(s: Seq<ExprV>)
    ensures
        stable_seq(s) <==> (forall|i: int| 0 <= i < s.len() ==> stable(s[i])),
    decreases s.len(),
{
    if s.len() > 0 {
        let tail = s.subrange(1, s.len() as int);
        lemma_stable_seq_props(tail);
        if stable(s[0]) && stable_seq(tail) {
            assert forall|i: int| 0 <= i < s.len() implies stable(s[i]) by {
                if i > 0 {
                    assert(s[i] == tail[i - 1]);
                }
            }
        }
        if forall|i: int| 0 <= i < s.len() ==> stable(s[i]) {
            assert forall|i: int| 0 <= i < tail.len() implies stable(tail[i]) by {
                assert(tail[i] == s[i + 1]);
            }
        }
    }
}

/// A stable expression is a fixed point of the whole pass.
pub proof fn lemma_stable_is_fixed(e: ExprV)
    requires
        stable(e),
    ensures
        simp(e) == e,
    decreases e,
{
    match e.node {
        ExprKindV::Unary { prefix, op, arg } => {
            lemma_stable_is_fixed(*arg);
        },
        ExprKindV::Binary { left, op, right } => {
            lemma_stable_is_fixed(*left);
            lemma_stable_is_fixed(*right);
        },
        ExprKindV::Cond { test, cons, alt } => {
            lemma_stable_is_fixed(*test);
            lemma_stable_is_fixed(*cons);
            lemma_stable_is_fixed(*alt);
        },
        ExprKindV::SeqExpr { exprs } => {
            lemma_stable_seq_is_fixed(exprs);
            assert(simp_children(e.node) == e.node);
        },
        _ => {},
    }
}

/// A stable sequence is a fixed point of element-wise folding.
pub proof fn lemma_stable_seq_is_fixed(s: Seq<ExprV>)
    requires
        stable_seq(s),
    ensures
        simp_seq(s) == s,
    decreases s,
{
    if s.len() == 0 {
        assert(simp_seq(s) =~= s);
    } else {
        lemma_stable_is_fixed(s[0]);
        lemma_stable_seq_is_fixed(s.subrange(1, s.len() as int));
        assert(simp_seq(s) =~= s);
    }
}

/// The output of the pass is stable: every node it returns is a fixed
/// point of the dispatch step.
pub proof fn lemma_simp_stable(e: ExprV)
    ensures
        stable(simp(e)),
    decreases e,
{
    let k = e.node;
    match k {
        ExprKindV::Unary { prefix, op, arg } => {
            lemma_simp_stable(*arg);
        },
        ExprKindV::Binary { left, op, right } => {
            lemma_simp_stable(*left);
            lemma_simp_stable(*right);
        },
        ExprKindV::Cond { test, cons, alt } => {
            lemma_simp_stable(*test);
            lemma_simp_stable(*cons);
            lemma_simp_stable(*alt);
        },
        ExprKindV::SeqExpr { exprs } => {
            lemma_simp_stable_seq(exprs);
            lemma_simp_seq_props(exprs);
            lemma_stable_seq_props(simp_seq(exprs));
        },
        _ => {},
    }
    let kc = simp_children(k);
    lemma_dispatch_stable(kc);
}

/// The output of element-wise folding is element-wise stable.
pub proof fn lemma_simp_stable_seq(s: Seq<ExprV>)
    ensures
        stable_seq(simp_seq(s)),
    decreases s,
{
    if s.len() > 0 {
        let tail = s.subrange(1, s.len() as int);
        lemma_simp_stable(s[0]);
        lemma_simp_stable_seq(tail);
        lemma_simp_seq_props(s);
        lemma_simp_seq_props(tail);
        lemma_stable_seq_props(simp_seq(s));
        lemma_stable_seq_props(simp_seq(tail));
        assert forall|i: int| 0 <= i < simp_seq(s).len() implies stable(simp_seq(s)[i]) by {
            if i > 0 {
                assert(simp_seq(tail)[i - 1] == simp(tail[i - 1]));
                assert(tail[i - 1] == s[i]);
            }
        }
    }
}

/// A node whose children are stable dispatches to a stable node.
pub proof fn lemma_dispatch_stable(k: ExprKindV)
    requires
        match k {
            ExprKindV::Unary { prefix, op, arg } => stable(*arg),
            ExprKindV::Binary { left, op, right } => stable(*left) && stable(*right),
            ExprKindV::Cond { test, cons, alt } => stable(*test) && stable(*cons) && stable(
                *alt,
            ),
            ExprKindV::SeqExpr { exprs } => stable_seq(exprs),
            _ => true,
        },
    ensures
        stable_kind(simp_node_v(k)),
{
    let r = simp_node_v(k);
    match k {
        ExprKindV::Unary { prefix, op, arg } => {
            lemma_two_elem_stable(*arg);
        },
        ExprKindV::Binary { left, op, right } => {
            lemma_three_elem_stable(*left, *right);
        },
        ExprKindV::Cond { test, cons, alt } => {
            if bool_value_of(test.node) is Known {
                let val = bool_value_of(test.node)->Known_0;
                let chosen = if val {
                    *cons
                } else {
                    *alt
                };
                lemma_pair_stable(*test, chosen);
            }
        },
        ExprKindV::SeqExpr { exprs } => {
            lemma_stable_seq_props(exprs);
        },
        _ => {},
    }
}

/// The two-element sequence built by the `!` rule is stable when the
/// operand is.
proof fn lemma_two_elem_stable(arg: ExprV)
    requires
        stable(arg),
    ensures
        forall|b: bool|
            stable_seq(
                #[trigger] seq![arg, ExprV { span: arg.span, node: ExprKindV::Lit(LitV::Bool(b)) }],
            ),
{
    assert forall|b: bool|
        stable_seq(
            #[trigger] seq![arg, ExprV { span: arg.span, node: ExprKindV::Lit(LitV::Bool(b)) }],
        ) by {
        let lit = ExprV { span: arg.span, node: ExprKindV::Lit(LitV::Bool(b)) };
        let s = seq![arg, lit];
        lemma_stable_seq_props(s);
        assert(s[0] == arg);
        assert(s[1] == lit);
        assert(stable(lit));
    }
}

/// The sequence built by a conditional with a known, maybe-impure test is
/// stable when the test and the chosen branch are.
proof fn lemma_pair_stable(a: ExprV, b: ExprV)
    requires
        stable(a),
        stable(b),
    ensures
        stable_seq(seq![a, b]),
{
    let s = seq![a, b];
    lemma_stable_seq_props(s);
    assert(s[0] == a);
    assert(s[1] == b);
}

/// The three-element sequence built by an equality fold is stable when the
/// operands are.
proof fn lemma_three_elem_stable(left: ExprV, right: ExprV)
    requires
        stable(left),
        stable(right),
    ensures
        forall|b: bool|
            stable_seq(
                #[trigger] seq![
                    left,
                    right,
                    ExprV { span: right.span, node: ExprKindV::Lit(LitV::Bool(b)) },
                ],
            ),
{
    assert forall|b: bool|
        stable_seq(
            #[trigger] seq![
                left,
                right,
                ExprV { span: right.span, node: ExprKindV::Lit(LitV::Bool(b)) },
            ],
        ) by {
        let lit = ExprV { span: right.span, node: ExprKindV::Lit(LitV::Bool(b)) };
        let s = seq![left, right, lit];
        lemma_stable_seq_props(s);
        assert(s[0] == left);
        assert(s[1] == right);
        assert(s[2] == lit);
        assert(stable(lit));
    }
}

/// A node whose children are well-formed dispatches to a well-formed node:
/// in particular, no rule ever builds an empty sequence expression.
pub proof fn lemma_dispatch_wf(k: ExprKindV)
    requires
        wf_kind_v(k),
    ensures
        wf_kind_v(simp_node_v(k)),
{
    let r = simp_node_v(k);
    match k {
        ExprKindV::Unary { prefix, op, arg } => {
            if let ExprKindV::SeqExpr { exprs } = r {
                lemma_wf_seq_props(exprs);
            }
        },
        ExprKindV::Binary { left, op, right } => {
            if let ExprKindV::SeqExpr { exprs } = r {
                lemma_wf_seq_props(exprs);
            }
        },
        ExprKindV::Cond { test, cons, alt } => {
            if let ExprKindV::SeqExpr { exprs } = r {
                lemma_wf_seq_props(exprs);
            }
        },
        ExprKindV::SeqExpr { exprs } => {
            lemma_wf_seq_props(exprs);
        },
        _ => {},
    }
}

/// The pass preserves well-formedness: on a well-formed input it never
/// produces (anywhere in its output) a zero-element sequence expression.
pub proof fn lemma_simp_preserves_wf(e: ExprV)
    requires
        wf_v(e),
    ensures
        wf_v(simp(e)),
    decreases e,
{
    let k = e.node;
    match k {
        ExprKindV::Unary { prefix, op, arg } => {
            lemma_simp_preserves_wf(*arg);
        },
        ExprKindV::Binary { left, op, right } => {
            lemma_simp_preserves_wf(*left);
            lemma_simp_preserves_wf(*right);
        },
        ExprKindV::Cond { test, cons, alt } => {
            lemma_simp_preserves_wf(*test);
            lemma_simp_preserves_wf(*cons);
            lemma_simp_preserves_wf(*alt);
        },
        ExprKindV::SeqExpr { exprs } => {
            lemma_simp_preserves_wf_seq(exprs);
            lemma_simp_seq_props(exprs);
        },
        _ => {},
    }
    lemma_dispatch_wf(simp_children(k));
}

/// Element-wise folding preserves well-formedness of every element.
pub proof fn lemma_simp_preserves_wf_seq(s: Seq<ExprV>)
    requires
        wf_seq_v(s),
    ensures
        wf_seq_v(simp_seq(s)),
    decreases s,
{
    if s.len() > 0 {
        let tail = s.subrange(1, s.len() as int);
        lemma_simp_preserves_wf(s[0]);
        lemma_simp_preserves_wf_seq(tail);
        lemma_simp_seq_props(s);
        lemma_simp_seq_props(tail);
        lemma_wf_seq_props(simp_seq(s));
        lemma_wf_seq_props(simp_seq(tail));
        assert forall|i: int| 0 <= i < simp_seq(s).len() implies wf_v(simp_seq(s)[i]) by {
            if i > 0 {
                assert(simp_seq(tail)[i - 1] == simp(tail[i - 1]));
                assert(tail[i - 1] == s[i]);
            }
        }
    }
}

/// Side-effect preservation at the `!` rule: when the operand's boolean
/// value is known but the operand may be impure, the fold does not discard
/// it — the result is a sequence that evaluates the operand first and
/// yields the boolean literal after it.
pub proof fn lemma_bang_keeps_impure_operand(prefix: bool, arg: ExprV)
    requires
        bool_value_of(arg.node) is Known,
        purity_of(arg.node) != Purity::Pure,
    ensures
        simp_unary_v(prefix, UnaryOp::Bang, arg) == (ExprKindV::SeqExpr {
            exprs: seq![
                arg,
                ExprV {
                    span: arg.span,
                    node: ExprKindV::Lit(LitV::Bool(!bool_value_of(arg.node)->Known_0)),
                },
            ],
        }),
{
}

/// Side-effect preservation at the conditional rule: when the test's
/// boolean value is known but the test may be impure, the fold keeps the
/// test, evaluated first, ahead of the chosen branch; only the branch that
/// could never have run is dropped.
pub proof fn lemma_cond_keeps_impure_test(test: ExprV, cons: ExprV, alt: ExprV)
    requires
        bool_value_of(test.node) is Known,
        purity_of(test.node) != Purity::Pure,
    ensures
        simp_node_v(
            ExprKindV::Cond { test: Box::new(test), cons: Box::new(cons), alt: Box::new(alt) },
        ) == (ExprKindV::SeqExpr {
            exprs: seq![
                test,
                if bool_value_of(test.node)->Known_0 {
                    cons
                } else {
                    alt
                },
            ],
        }),
{
}

/// Side-effect preservation at the equality rules: when the comparison is
/// known but either operand may be impure, the fold keeps both operands,
/// in their original order, ahead of the boolean literal.
pub proof fn lemma_eq_keeps_impure_operands(
    left: ExprV,
    op: BinaryOp,
    right: ExprV,
    cmp: Value<bool>,
    negate: bool,
)
    requires
        cmp is Known,
        !(purity_of(left.node) == Purity::Pure && purity_of(right.node) == Purity::Pure),
    ensures
        simp_eq_v(left, op, right, cmp, negate) == (ExprKindV::SeqExpr {
            exprs: seq![
                left,
                right,
                ExprV {
                    span: right.span,
                    node: ExprKindV::Lit(
                        LitV::Bool(if negate { !cmp->Known_0 } else { cmp->Known_0 }),
                    ),
                },
            ],
        }),
{
}

/// Side-effect preservation at the short-circuit rule: `&&` and `||` fold
/// only when the left operand is pure — a maybe-impure left operand is
/// never short-circuited away.
pub proof fn lemma_logical_keeps_impure_left(left: ExprV, op: BinaryOp, right: ExprV)
    requires
        op == BinaryOp::And || op == BinaryOp::Or,
        purity_of(left.node) != Purity::Pure,
    ensures
        crate::fold::simp_bin_v(left, op, right) == (ExprKindV::Binary {
            left: Box::new(left),
            op,
            right: Box::new(right),
        }),
{
}

/// Idempotence: folding a second time changes nothing — the pass's output
/// is structurally equal to its own simplification.
pub proof fn lemma_simplify_idempotent(e: ExprV)
    ensures
        simp(simp(e)) == simp(e),
{
    lemma_simp_stable(e);
    lemma_stable_is_fixed(simp(e));
}

} // verus!
