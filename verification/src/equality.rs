//! Equality of names, expressions and guarded commands: two values are
//! equal where they are built alike, locations and messages included.

use vstd::prelude::*;
use vstd::std_specs::cmp::PartialEqSpecImpl;
use crate::expr::{Expr, ExprKind, Name};
use crate::ivl0::{IVL0Stmt, IVL0StmtKind};

verus! {

impl PartialEq for Name {
    fn eq(&self, other: &Self) -> (res: bool) {
        self.same(other)
    }
}

impl PartialEqSpecImpl for Name {
    open spec fn obeys_eq_spec() -> bool {
        true
    }

    open spec fn eq_spec(&self, other: &Self) -> bool {
        self@ == other@
    }
}

impl Expr {
    /// Whether two expressions are built alike.
    pub fn same(&self, other: &Expr) -> (res: bool)
        ensures
            res == (self@ == other@),
        decreases self,
    {
        self.span == other.span && self.ty == other.ty && self.kind.same(&other.kind)
    }
}

impl ExprKind {
    /// Whether two expressions are of one kind and built alike.
    pub fn same(&self, other: &ExprKind) -> (res: bool)
        ensures
            res == (self@ == other@),
        decreases self,
    {
        match (self, other) {
            (ExprKind::Bool(a), ExprKind::Bool(b)) => *a == *b,
            (ExprKind::Num(a), ExprKind::Num(b)) => *a == *b,
            (ExprKind::Ident(a), ExprKind::Ident(b)) => a.same(b),
            (ExprKind::Symbol(a, i), ExprKind::Symbol(b, j)) => a.same(b) && *i == *j,
            (ExprKind::Prefix(o, a), ExprKind::Prefix(p, b)) => *o == *p && a.same(b),
            (ExprKind::Infix(l, o, r), ExprKind::Infix(m, p, s)) => l.same(m) && *o == *p && r.same(
                s,
            ),
            _ => false,
        }
    }
}

impl PartialEq for Expr {
    fn eq(&self, other: &Self) -> (res: bool) {
        self.same(other)
    }
}

impl PartialEqSpecImpl for Expr {
    open spec fn obeys_eq_spec() -> bool {
        true
    }

    open spec fn eq_spec(&self, other: &Self) -> bool {
        self@ == other@
    }
}

impl PartialEq for ExprKind {
    fn eq(&self, other: &Self) -> (res: bool) {
        self.same(other)
    }
}

impl PartialEqSpecImpl for ExprKind {
    open spec fn obeys_eq_spec() -> bool {
        true
    }

    open spec fn eq_spec(&self, other: &Self) -> bool {
        self@ == other@
    }
}

impl IVL0Stmt {
    /// Whether two commands are built alike.
    pub fn same(&self, other: &IVL0Stmt) -> (res: bool)
        ensures
            res == (self@ == other@),
        decreases self,
    {
        self.span == other.span && self.kind.same(&other.kind)
    }
}

impl IVL0StmtKind {
    /// Whether two commands are of one kind and built alike.
    pub fn same(&self, other: &IVL0StmtKind) -> (res: bool)
        ensures
            res == (self@ == other@),
        decreases self,
    {
        match (self, other) {
            (
                IVL0StmtKind::Assignment { name: x, expr: e },
                IVL0StmtKind::Assignment { name: y, expr: f },
            ) => x.same(y) && e.same(f),
            (IVL0StmtKind::Havoc { name: x, ty: s }, IVL0StmtKind::Havoc { name: y, ty: t }) => {
                x.same(y) && *s == *t
            },
            (IVL0StmtKind::Assume { condition: c }, IVL0StmtKind::Assume { condition: d }) => {
                c.same(d)
            },
            (
                IVL0StmtKind::Assert { condition: c, message: m },
                IVL0StmtKind::Assert { condition: d, message: n },
            ) => c.same(d) && *m == *n,
            (IVL0StmtKind::Sequence(a, b), IVL0StmtKind::Sequence(c, d)) => a.same(c) && b.same(d),
            (IVL0StmtKind::NonDet(a, b), IVL0StmtKind::NonDet(c, d)) => a.same(c) && b.same(d),
            _ => false,
        }
    }
}

impl PartialEq for IVL0Stmt {
    fn eq(&self, other: &Self) -> (res: bool) {
        self.same(other)
    }
}

impl PartialEqSpecImpl for IVL0Stmt {
    open spec fn obeys_eq_spec() -> bool {
        true
    }

    open spec fn eq_spec(&self, other: &Self) -> bool {
        self@ == other@
    }
}

impl PartialEq for IVL0StmtKind {
    fn eq(&self, other: &Self) -> (res: bool) {
        self.same(other)
    }
}

impl PartialEqSpecImpl for IVL0StmtKind {
    open spec fn obeys_eq_spec() -> bool {
        true
    }

    open spec fn eq_spec(&self, other: &Self) -> bool {
        self@ == other@
    }
}

} // verus!
