//! Building guarded commands.

use vstd::prelude::*;
use crate::expr::{Expr, ExprView, Name, Type};
use crate::ivl0::{IVL0Stmt, IVL0StmtKind, IVL0StmtKindView, IVL0StmtView};
use crate::span::Span;

verus! {

impl IVL0StmtView {
    /// The assignment of `expr` to `name`.
    pub open spec fn assign(name: Seq<char>, expr: ExprView) -> IVL0StmtView {
        IVL0StmtView { span: Span::empty(), kind: IVL0StmtKindView::Assignment { name, expr } }
    }

    /// The havoc of `name`, a variable of type `ty`.
    pub open spec fn havoc(name: Seq<char>, ty: Type) -> IVL0StmtView {
        IVL0StmtView { span: Span::empty(), kind: IVL0StmtKindView::Havoc { name, ty } }
    }

    /// The assumption of `condition`.
    pub open spec fn assuming(condition: ExprView) -> IVL0StmtView {
        IVL0StmtView { span: Span::empty(), kind: IVL0StmtKindView::Assume { condition } }
    }

    /// The assertion of `condition`, reported under `message`.
    pub open spec fn asserting(condition: ExprView, message: Seq<char>) -> IVL0StmtView {
        IVL0StmtView {
            span: Span::empty(),
            kind: IVL0StmtKindView::Assert { condition, message },
        }
    }

    /// `self`, then `other`.
    pub open spec fn seq(self, other: IVL0StmtView) -> IVL0StmtView {
        IVL0StmtView {
            span: Span::empty(),
            kind: IVL0StmtKindView::Sequence(Box::new(self), Box::new(other)),
        }
    }

    /// The choice between `self` and `other`.
    pub open spec fn nondet(self, other: IVL0StmtView) -> IVL0StmtView {
        IVL0StmtView {
            span: Span::empty(),
            kind: IVL0StmtKindView::NonDet(Box::new(self), Box::new(other)),
        }
    }

    /// The command that does nothing: the assumption of `true`.
    pub open spec fn nop() -> IVL0StmtView {
        Self::assuming(ExprView::bool(true))
    }

    /// The command that no execution passes: the assumption of `false`.
    pub open spec fn unreachable() -> IVL0StmtView {
        Self::assuming(ExprView::bool(false))
    }

    /// The same command, located at `span`.
    pub open spec fn with_span(self, span: Span) -> IVL0StmtView {
        IVL0StmtView { span, kind: self.kind }
    }

    /// The commands one after the other, nested to the right; no command at
    /// all is [`nop`](Self::nop), a single one is itself.
    pub open spec fn seqs(stmts: Seq<IVL0StmtView>) -> IVL0StmtView
        decreases stmts.len(),
    {
        if stmts.len() == 0 {
            Self::nop()
        } else if stmts.len() == 1 {
            stmts[0]
        } else {
            stmts[0].seq(Self::seqs(stmts.skip(1)))
        }
    }

    /// The choice among the commands, nested to the right; a choice among
    /// none is [`unreachable`](Self::unreachable), a single one is itself.
    pub open spec fn nondets(stmts: Seq<IVL0StmtView>) -> IVL0StmtView
        decreases stmts.len(),
    {
        if stmts.len() == 0 {
            Self::unreachable()
        } else if stmts.len() == 1 {
            stmts[0]
        } else {
            stmts[0].nondet(Self::nondets(stmts.skip(1)))
        }
    }
}

/// The views of the commands of a vector, in order.
pub open spec fn views(stmts: Seq<IVL0Stmt>) -> Seq<IVL0StmtView> {
    Seq::new(stmts.len(), |i: int| stmts[i]@)
}

impl IVL0Stmt {
    /// The assignment of `expr` to `name`.
    pub fn assign(name: &Name, expr: &Expr) -> (res: IVL0Stmt)
        ensures
            res@ == IVL0StmtView::assign(name@, expr@),
    {
        IVL0Stmt {
            span: Span::default(),
            kind: IVL0StmtKind::Assignment { name: name.clone(), expr: expr.clone() },
        }
    }

    /// `self`, then `other`.
    pub fn seq(&self, other: &IVL0Stmt) -> (res: IVL0Stmt)
        ensures
            res@ == self@.seq(other@),
    {
        IVL0Stmt {
            span: Span::default(),
            kind: IVL0StmtKind::Sequence(Box::new(self.clone()), Box::new(other.clone())),
        }
    }

    /// The commands one after the other, nested to the right. No command at
    /// all gives [`nop`](Self::nop).
    pub fn seqs(stmts: &Vec<IVL0Stmt>) -> (res: IVL0Stmt)
        ensures
            res@ == IVL0StmtView::seqs(views(stmts@)),
    {
        let n = stmts.len();
        if n == 0 {
            return IVL0Stmt::nop();
        }
        let ghost all = views(stmts@);
        let mut i: usize = n - 1;
        let mut acc = stmts[i].clone();
        assert(all.skip(i as int).len() == 1);
        while i > 0
            invariant
                i < n,
                n == stmts.len(),
                all == views(stmts@),
                acc@ == IVL0StmtView::seqs(all.skip(i as int)),
            decreases i,
        {
            i = i - 1;
            assert(all.skip(i as int).skip(1) == all.skip(i as int + 1));
            acc = stmts[i].seq(&acc);
        }
        assert(all.skip(0) == all);
        acc
    }

    /// The choice between `self` and `other`.
    pub fn nondet(&self, other: &IVL0Stmt) -> (res: IVL0Stmt)
        ensures
            res@ == self@.nondet(other@),
    {
        IVL0Stmt {
            span: Span::default(),
            kind: IVL0StmtKind::NonDet(Box::new(self.clone()), Box::new(other.clone())),
        }
    }

    /// The choice among the commands, nested to the right. A choice among
    /// none gives [`unreachable`](Self::unreachable).
    pub fn nondets(stmts: &Vec<IVL0Stmt>) -> (res: IVL0Stmt)
        ensures
            res@ == IVL0StmtView::nondets(views(stmts@)),
    {
        let n = stmts.len();
        if n == 0 {
            return IVL0Stmt::unreachable();
        }
        let ghost all = views(stmts@);
        let mut i: usize = n - 1;
        let mut acc = stmts[i].clone();
        assert(all.skip(i as int).len() == 1);
        while i > 0
            invariant
                i < n,
                n == stmts.len(),
                all == views(stmts@),
                acc@ == IVL0StmtView::nondets(all.skip(i as int)),
            decreases i,
        {
            i = i - 1;
            assert(all.skip(i as int).skip(1) == all.skip(i as int + 1));
            acc = stmts[i].nondet(&acc);
        }
        assert(all.skip(0) == all);
        acc
    }

    /// The assumption of `condition`.
    pub fn assuming(condition: &Expr) -> (res: IVL0Stmt)
        ensures
            res@ == IVL0StmtView::assuming(condition@),
    {
        IVL0Stmt {
            span: Span::default(),
            kind: IVL0StmtKind::Assume { condition: condition.clone() },
        }
    }

    /// The assertion of `condition`, reported under `message`.
    pub fn asserting(condition: &Expr, message: &str) -> (res: IVL0Stmt)
        ensures
            res@ == IVL0StmtView::asserting(condition@, message@),
    {
        IVL0Stmt {
            span: Span::default(),
            kind: IVL0StmtKind::Assert {
                condition: condition.clone(),
                message: message.to_owned(),
            },
        }
    }

    /// The havoc of `name`, a variable of type `ty`.
    pub fn havoc(name: &Name, ty: &Type) -> (res: IVL0Stmt)
        ensures
            res@ == IVL0StmtView::havoc(name@, *ty),
    {
        IVL0Stmt { span: Span::default(), kind: IVL0StmtKind::Havoc { name: name.clone(), ty: *ty } }
    }

    /// The command that does nothing.
    pub fn nop() -> (res: IVL0Stmt)
        ensures
            res@ == IVL0StmtView::nop(),
    {
        IVL0Stmt::assuming(&Expr::bool(true))
    }

    /// The command that no execution passes.
    pub fn unreachable() -> (res: IVL0Stmt)
        ensures
            res@ == IVL0StmtView::unreachable(),
    {
        IVL0Stmt::assuming(&Expr::bool(false))
    }

    /// The same command, located at `span`.
    pub fn with_span(self, span: Span) -> (res: IVL0Stmt)
        ensures
            res@ == self@.with_span(span),
    {
        IVL0Stmt { span, kind: self.kind }
    }
}

} // verus!
