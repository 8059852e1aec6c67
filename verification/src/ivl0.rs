//! The guarded-command language that method bodies are reasoned about in.

use vstd::prelude::*;
use crate::expr::{Expr, ExprView, Name, Type};
use crate::span::Span;

verus! {

/// A guarded command with the source location it reports at.
#[derive(Debug, Eq)]
pub struct IVL0Stmt {
    pub span: Span,
    pub kind: IVL0StmtKind,
}

/// What a guarded command does.
#[derive(Debug, Eq)]
pub enum IVL0StmtKind {
    /// `name` takes the value of `expr`.
    Assignment { name: Name, expr: Expr },
    /// `name` takes an arbitrary value of type `ty`.
    Havoc { name: Name, ty: Type },
    /// Only the executions in which `condition` holds go on.
    Assume { condition: Expr },
    /// `condition` has to hold here; `message` is shown where it may not.
    Assert { condition: Expr, message: String },
    /// The first command, then the second.
    Sequence(Box<IVL0Stmt>, Box<IVL0Stmt>),
    /// Either command; both have to be correct.
    NonDet(Box<IVL0Stmt>, Box<IVL0Stmt>),
}

/// The mathematical value of an [`IVL0Stmt`].
pub struct IVL0StmtView {
    pub span: Span,
    pub kind: IVL0StmtKindView,
}

/// The mathematical value of an [`IVL0StmtKind`].
pub enum IVL0StmtKindView {
    Assignment { name: Seq<char>, expr: ExprView },
    Havoc { name: Seq<char>, ty: Type },
    Assume { condition: ExprView },
    Assert { condition: ExprView, message: Seq<char> },
    Sequence(Box<IVL0StmtView>, Box<IVL0StmtView>),
    NonDet(Box<IVL0StmtView>, Box<IVL0StmtView>),
}

impl IVL0Stmt {
    /// The mathematical value of the command: names and messages as their
    /// spelling, expressions as their views.
    pub open spec fn model(&self) -> IVL0StmtView
        decreases self,
    {
        IVL0StmtView { span: self.span, kind: self.kind.model() }
    }
}

impl IVL0StmtKind {
    /// The mathematical value of the kind.
    pub open spec fn model(&self) -> IVL0StmtKindView
        decreases self,
    {
        match self {
            IVL0StmtKind::Assignment { name, expr } => IVL0StmtKindView::Assignment {
                name: name@,
                expr: expr@,
            },
            IVL0StmtKind::Havoc { name, ty } => IVL0StmtKindView::Havoc { name: name@, ty: *ty },
            IVL0StmtKind::Assume { condition } => IVL0StmtKindView::Assume {
                condition: condition@,
            },
            IVL0StmtKind::Assert { condition, message } => IVL0StmtKindView::Assert {
                condition: condition@,
                message: message@,
            },
            IVL0StmtKind::Sequence(a, b) => IVL0StmtKindView::Sequence(
                Box::new(a.model()),
                Box::new(b.model()),
            ),
            IVL0StmtKind::NonDet(a, b) => IVL0StmtKindView::NonDet(
                Box::new(a.model()),
                Box::new(b.model()),
            ),
        }
    }
}

impl View for IVL0Stmt {
    type V = IVL0StmtView;

    open spec fn view(&self) -> IVL0StmtView {
        self.model()
    }
}

impl View for IVL0StmtKind {
    type V = IVL0StmtKindView;

    open spec fn view(&self) -> IVL0StmtKindView {
        self.model()
    }
}

impl Clone for IVL0Stmt {
    fn clone(&self) -> (res: Self)
        ensures
            res == *self,
        decreases self,
    {
        let kind = match &self.kind {
            IVL0StmtKind::Assignment { name, expr } => IVL0StmtKind::Assignment {
                name: name.clone(),
                expr: expr.clone(),
            },
            IVL0StmtKind::Havoc { name, ty } => IVL0StmtKind::Havoc { name: name.clone(), ty: *ty },
            IVL0StmtKind::Assume { condition } => IVL0StmtKind::Assume {
                condition: condition.clone(),
            },
            IVL0StmtKind::Assert { condition, message } => IVL0StmtKind::Assert {
                condition: condition.clone(),
                message: message.clone(),
            },
            IVL0StmtKind::Sequence(a, b) => IVL0StmtKind::Sequence(
                Box::new((&**a).clone()),
                Box::new((&**b).clone()),
            ),
            IVL0StmtKind::NonDet(a, b) => IVL0StmtKind::NonDet(
                Box::new((&**a).clone()),
                Box::new((&**b).clone()),
            ),
        };
        IVL0Stmt { span: self.span, kind }
    }
}

} // verus!
