//! The expression AST that the folding pass rewrites, together with its
//! mathematical view (`ExprV`) and well-formedness invariants.

use vstd::prelude::*;

verus! {

/// Largest magnitude a numeric literal may carry. Inside this range every
/// integer is represented exactly by an IEEE-754 double, so integer
/// arithmetic on literals agrees with the language's number semantics.
pub const MAX_SAFE_NUM: i64 = 9007199254740991;

/// A literal value as it appears in source text. Numeric literals are
/// restricted to integer values in the safe range, where folding is exact.
#[derive(Debug, Clone, PartialEq, Eq)]
pub enum Lit {
    Str(String),
    Num(i64),
    Bool(bool),
    Null,
}

/// Unary operators. Only `typeof`, `!` and `-` are ever folded; the rest
/// are carried through unchanged.
#[derive(Debug, Clone, Copy, PartialEq, Eq, Structural)]
pub enum UnaryOp {
    TypeOf,
    Void,
    Bang,
    Plus,
    Minus,
    Tilde,
    Delete,
}

/// Binary operators. `+`, `-`, `/`, `%`, `&&`, `||` and the four equality
/// operators have folding rules; the rest are carried through unchanged.
#[derive(Debug, Clone, Copy, PartialEq, Eq, Structural)]
pub enum BinaryOp {
    Add,
    Sub,
    Mul,
    Div,
    Mod,
    And,
    Or,
    InstanceOf,
    In,
    EqEq,
    NotEq,
    EqEqEq,
    NotEqEqEq,
    Lt,
    LtEq,
    Gt,
    GtEq,
}

/// One expression node: a kind plus an opaque source-location tag that the
/// pass propagates unchanged.
#[derive(Debug, PartialEq, Eq)]
pub struct Expr {
    pub span: u64,
    pub node: ExprKind,
}

/// The kinds of expression the pass can meet. `Function`, `Object`, `Array`
/// and `Other` carry an opaque tag: their contents are never inspected or
/// rewritten, only their kind matters (for `typeof` and truthiness).
#[derive(Debug, PartialEq, Eq)]
pub enum ExprKind {
    Lit(Lit),
    Ident(String),
    Unary { prefix: bool, op: UnaryOp, arg: Box<Expr> },
    Binary { left: Box<Expr>, op: BinaryOp, right: Box<Expr> },
    Cond { test: Box<Expr>, cons: Box<Expr>, alt: Box<Expr> },
    SeqExpr { exprs: Vec<Expr> },
    Function(u64),
    Object(u64),
    Array(u64),
    Other(u64),
}

/// Mathematical model of a literal.
pub enum LitV {
    Str(Seq<char>),
    Num(int),
    Bool(bool),
    Null,
}

/// Mathematical model of an expression node.
pub struct ExprV {
    pub span: u64,
    pub node: ExprKindV,
}

/// Mathematical model of an expression kind.
pub enum ExprKindV {
    Lit(LitV),
    Ident(Seq<char>),
    Unary { prefix: bool, op: UnaryOp, arg: Box<ExprV> },
    Binary { left: Box<ExprV>, op: BinaryOp, right: Box<ExprV> },
    Cond { test: Box<ExprV>, cons: Box<ExprV>, alt: Box<ExprV> },
    SeqExpr { exprs: Seq<ExprV> },
    Function(u64),
    Object(u64),
    Array(u64),
    Other(u64),
}

impl View for Lit {
    type V = LitV;

    open spec fn view(&self) -> LitV {
        match self {
            Lit::Str(s) => LitV::Str(s@),
            Lit::Num(n) => LitV::Num(*n as int),
            Lit::Bool(b) => LitV::Bool(*b),
            Lit::Null => LitV::Null,
        }
    }
}

/// View of an expression node as its mathematical model.
pub open spec fn view_expr(e: Expr) -> ExprV
    decreases e,
{
    ExprV { span: e.span, node: view_kind(e.node) }
}

/// View of a sequence of expression nodes, element by element.
pub open spec fn view_expr_seq(s: Seq<Expr>) -> Seq<ExprV>
    decreases s,
{
    if s.len() == 0 {
        Seq::empty()
    } else {
        seq![view_expr(s[0])] + view_expr_seq(s.subrange(1, s.len() as int))
    }
}

/// View of an expression kind as its mathematical model.
pub open spec fn view_kind(k: ExprKind) -> ExprKindV
    decreases k,
{
    match k {
        ExprKind::Lit(l) => ExprKindV::Lit(l@),
        ExprKind::Ident(s) => ExprKindV::Ident(s@),
        ExprKind::Unary { prefix, op, arg } => ExprKindV::Unary {
            prefix: prefix,
            op: op,
            arg: Box::new(view_expr(*arg)),
        },
        ExprKind::Binary { left, op, right } => ExprKindV::Binary {
            left: Box::new(view_expr(*left)),
            op: op,
            right: Box::new(view_expr(*right)),
        },
        ExprKind::Cond { test, cons, alt } => ExprKindV::Cond {
            test: Box::new(view_expr(*test)),
            cons: Box::new(view_expr(*cons)),
            alt: Box::new(view_expr(*alt)),
        },
        ExprKind::SeqExpr { exprs } => ExprKindV::SeqExpr { exprs: view_expr_seq(exprs@) },
        ExprKind::Function(t) => ExprKindV::Function(t),
        ExprKind::Object(t) => ExprKindV::Object(t),
        ExprKind::Array(t) => ExprKindV::Array(t),
        ExprKind::Other(t) => ExprKindV::Other(t),
    }
}

/// Well-formedness of an expression: no sequence expression anywhere in
/// the tree is empty. An empty sequence is a malformed-input condition
/// from an upstream bug, flagged rather than tolerated.
pub open spec fn wf_v(e: ExprV) -> bool
    decreases e,
{
    wf_kind_v(e.node)
}

/// Well-formedness of an expression kind.
pub open spec fn wf_kind_v(k: ExprKindV) -> bool
    decreases k,
{
    match k {
        ExprKindV::Unary { prefix, op, arg } => wf_v(*arg),
        ExprKindV::Binary { left, op, right } => wf_v(*left) && wf_v(*right),
        ExprKindV::Cond { test, cons, alt } => wf_v(*test) && wf_v(*cons) && wf_v(*alt),
        ExprKindV::SeqExpr { exprs } => exprs.len() >= 1 && wf_seq_v(exprs),
        _ => true,
    }
}

/// Well-formedness of every element of a sequence of expressions.
pub open spec fn wf_seq_v(s: Seq<ExprV>) -> bool
    decreases s,
{
    s.len() == 0 || (wf_v(s[0]) && wf_seq_v(s.subrange(1, s.len() as int)))
}

/// A sequence is well-formed exactly when each of its elements is.
pub proof fn lemma_wf_seq_props(s: Seq<ExprV>)
    ensures
        wf_seq_v(s) <==> (forall|i: int| 0 <= i < s.len() ==> wf_v(s[i])),
    decreases s.len(),
{
    if s.len() > 0 {
        lemma_wf_seq_props(s.subrange(1, s.len() as int));
        if wf_v(s[0]) && (forall|i: int|
            0 <= i < s.subrange(1, s.len() as int).len() ==> wf_v(s.subrange(1, s.len() as int)[i])) {
            assert forall|i: int| 0 <= i < s.len() implies wf_v(s[i]) by {
                if i > 0 {
                    assert(s[i] == s.subrange(1, s.len() as int)[i - 1]);
                }
            }
        }
        if forall|i: int| 0 <= i < s.len() ==> wf_v(s[i]) {
            assert forall|i: int|
                0 <= i < s.subrange(1, s.len() as int).len() implies wf_v(
                s.subrange(1, s.len() as int)[i],
            ) by {
                assert(s.subrange(1, s.len() as int)[i] == s[i + 1]);
            }
        }
    }
}

/// The view of a sequence of nodes has the same length and views each
/// element in place.
pub proof fn lemma_view_expr_seq_props(s: Seq<Expr>)
    ensures
        view_expr_seq(s).len() == s.len(),
        forall|i: int| 0 <= i < s.len() ==> view_expr_seq(s)[i] == view_expr(s[i]),
    decreases s.len(),
{
    if s.len() > 0 {
        lemma_view_expr_seq_props(s.subrange(1, s.len() as int));
    }
}

impl View for Expr {
    type V = ExprV;

    open spec fn view(&self) -> ExprV {
        view_expr(*self)
    }
}

impl View for ExprKind {
    type V = ExprKindV;

    open spec fn view(&self) -> ExprKindV {
        view_kind(*self)
    }
}

} // verus!
