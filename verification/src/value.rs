//! Static value and purity analysis of a single, already-folded node:
//! boolean coercion (`ToBoolean`), numeric coercion (`ToNumber` for numeric
//! literals only), and the purity tag that decides whether a sub-expression
//! may be discarded.

use vstd::prelude::*;

use crate::ast::Expr;
use crate::ast::ExprKind;
use crate::ast::ExprKindV;
use crate::ast::Lit;
use crate::ast::LitV;

verus! {

/// Result of a static analysis: either the compile-time-provable value, or
/// `Unknown` when the value cannot be determined without execution.
pub enum Value<T> {
    Known(T),
    Unknown,
}

/// Whether evaluating an expression can produce an observable side effect.
/// Only literals and the reserved identifiers (`undefined`, `NaN`,
/// `Infinity`) are `Pure`; everything else is conservatively `MaybeImpure`.
#[derive(Clone, Copy, PartialEq, Eq, Structural)]
pub enum Purity {
    Pure,
    MaybeImpure,
}

impl Purity {
    /// True exactly on the `Pure` tag.
    pub fn is_pure(&self) -> (r: bool)
        ensures
            r == (*self == Purity::Pure),
    {
        match self {
            Purity::Pure => true,
            Purity::MaybeImpure => false,
        }
    }
}

/// The reserved identifier names whose value is known to the pass.
pub open spec fn is_reserved_name(s: Seq<char>) -> bool {
    s == "undefined"@ || s == "NaN"@ || s == "Infinity"@
}

/// Purity of one node: `Pure` for literals and the reserved identifiers,
/// `MaybeImpure` for everything else.
pub open spec fn purity_of(k: ExprKindV) -> Purity {
    match k {
        ExprKindV::Lit(_) => Purity::Pure,
        ExprKindV::Ident(s) => if is_reserved_name(s) {
            Purity::Pure
        } else {
            Purity::MaybeImpure
        },
        _ => Purity::MaybeImpure,
    }
}

/// `ToBoolean` on one node, as far as it is statically known: the literals
/// `false`, `0`, `""`, `null` and the identifiers `NaN` and `undefined`
/// coerce to `false`; any other literal and function, object and array
/// expressions coerce to `true`; everything else is `Unknown`.
pub open spec fn bool_value_of(k: ExprKindV) -> Value<bool> {
    match k {
        ExprKindV::Lit(l) => match l {
            LitV::Str(s) => Value::Known(s.len() > 0),
            LitV::Num(n) => Value::Known(n != 0),
            LitV::Bool(b) => Value::Known(b),
            LitV::Null => Value::Known(false),
        },
        ExprKindV::Ident(s) => if s == "undefined"@ || s == "NaN"@ {
            Value::Known(false)
        } else {
            Value::Unknown
        },
        ExprKindV::Function(_) => Value::Known(true),
        ExprKindV::Object(_) => Value::Known(true),
        ExprKindV::Array(_) => Value::Known(true),
        _ => Value::Unknown,
    }
}

/// `ToNumber` on one node: known only for numeric literals. Every other
/// shape could route through observable conversions and stays `Unknown`.
pub open spec fn num_value_of(k: ExprKindV) -> Value<int> {
    match k {
        ExprKindV::Lit(LitV::Num(n)) => Value::Known(n),
        _ => Value::Unknown,
    }
}

/// Whether an identifier's name equals the given reserved name.
pub fn ident_is(s: &String, name: &str) -> (r: bool)
    ensures
        r == (s@ == name@),
{
    *s == name.to_owned()
}

impl Expr {
    /// Static boolean coercion of this node together with its purity tag.
    pub fn as_bool(&self) -> (r: (Purity, Value<bool>))
        ensures
            r.0 == purity_of(self@.node),
            r.1 == bool_value_of(self@.node),
    {
        let purity = match &self.node {
            ExprKind::Lit(_) => Purity::Pure,
            ExprKind::Ident(s) => {
                if ident_is(s, "undefined") || ident_is(s, "NaN") || ident_is(s, "Infinity") {
                    Purity::Pure
                } else {
                    Purity::MaybeImpure
                }
            },
            _ => Purity::MaybeImpure,
        };
        let value = match &self.node {
            ExprKind::Lit(l) => match l {
                Lit::Str(s) => Value::Known(!s.as_str().is_empty()),
                Lit::Num(n) => Value::Known(*n != 0),
                Lit::Bool(b) => Value::Known(*b),
                Lit::Null => Value::Known(false),
            },
            ExprKind::Ident(s) => {
                if ident_is(s, "undefined") || ident_is(s, "NaN") {
                    Value::Known(false)
                } else {
                    Value::Unknown
                }
            },
            ExprKind::Function(_) => Value::Known(true),
            ExprKind::Object(_) => Value::Known(true),
            ExprKind::Array(_) => Value::Known(true),
            _ => Value::Unknown,
        };
        (purity, value)
    }

    /// Static numeric coercion of this node: the value of a numeric
    /// literal, `Unknown` for every other shape.
    pub fn as_number(&self) -> (r: Value<i64>)
        ensures
            match r {
                Value::Known(n) => num_value_of(self@.node) == Value::Known(n as int),
                Value::Unknown => num_value_of(self@.node) == Value::<int>::Unknown,
            },
    {
        match &self.node {
            ExprKind::Lit(Lit::Num(n)) => Value::Known(*n),
            _ => Value::Unknown,
        }
    }
}

} // verus!
