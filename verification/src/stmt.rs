//! Source statements, methods and files: what a front end hands over.

use vstd::prelude::*;
use crate::expr::{expr_views, Expr, ExprView, Name, Type};
use crate::span::Span;

verus! {

/// A statement of a method body with its source location.
#[derive(Debug, PartialEq, Eq)]
pub struct Stmt {
    pub span: Span,
    pub kind: StmtKind,
}

/// What a statement is.
#[derive(Debug, PartialEq, Eq)]
pub enum StmtKind {
    /// The first statement, then the second.
    Sequence(Box<Stmt>, Box<Stmt>),
    Assignment { name: Name, expr: Expr },
    /// A declaration, with or without an initial value.
    VarDefinition { name: Name, ty: Type, init: Option<Expr> },
    Assert { condition: Expr },
    Assume { condition: Expr },
    /// Guarded branches, in source order.
    Match { cases: Vec<Case> },
    /// A loop that runs `body` while `guard` holds; `invariants` are what it
    /// is annotated to maintain.
    Loop { guard: Expr, invariants: Vec<Expr>, body: Box<Stmt> },
    Break,
    Continue,
    Return { value: Option<Expr> },
    /// A statement of any other kind, with the statements that stand
    /// directly inside it.
    Other { inner: Vec<Stmt> },
}

/// One guarded branch.
#[derive(Debug, PartialEq, Eq)]
pub struct Case {
    pub condition: Expr,
    pub stmt: Stmt,
}

/// The mathematical value of a [`Stmt`].
pub struct StmtView {
    pub span: Span,
    pub kind: StmtKindView,
}

/// The mathematical value of a [`StmtKind`].
pub enum StmtKindView {
    Sequence(Box<StmtView>, Box<StmtView>),
    Assignment { name: Seq<char>, expr: ExprView },
    VarDefinition { name: Seq<char>, ty: Type, init: Option<ExprView> },
    Assert { condition: ExprView },
    Assume { condition: ExprView },
    Match { cases: Seq<CaseView> },
    Loop { guard: ExprView, invariants: Seq<ExprView>, body: Box<StmtView> },
    Break,
    Continue,
    Return { value: Option<ExprView> },
    Other { inner: Seq<StmtView> },
}

/// The mathematical value of a [`Case`].
pub struct CaseView {
    pub condition: ExprView,
    pub stmt: StmtView,
}

/// The view of an expression that may be absent.
pub open spec fn option_view(e: Option<Expr>) -> Option<ExprView> {
    match e {
        Some(e) => Some(e@),
        None => None,
    }
}

impl Stmt {
    /// The mathematical value of the statement.
    pub open spec fn model(&self) -> StmtView
        decreases self,
    {
        StmtView { span: self.span, kind: self.kind.model() }
    }
}

impl StmtKind {
    /// The mathematical value of the kind.
    pub open spec fn model(&self) -> StmtKindView
        decreases self,
    {
        match self {
            StmtKind::Sequence(a, b) => StmtKindView::Sequence(
                Box::new(a.model()),
                Box::new(b.model()),
            ),
            StmtKind::Assignment { name, expr } => StmtKindView::Assignment {
                name: name@,
                expr: expr@,
            },
            StmtKind::VarDefinition { name, ty, init } => StmtKindView::VarDefinition {
                name: name@,
                ty: *ty,
                init: option_view(*init),
            },
            StmtKind::Assert { condition } => StmtKindView::Assert { condition: condition@ },
            StmtKind::Assume { condition } => StmtKindView::Assume { condition: condition@ },
            StmtKind::Match { cases } => StmtKindView::Match {
                cases: Seq::new(
                    cases@.len(),
                    |i: int|
                        if 0 <= i < cases@.len() {
                            cases@[i].model()
                        } else {
                            arbitrary()
                        },
                ),
            },
            StmtKind::Loop { guard, invariants, body } => StmtKindView::Loop {
                guard: guard@,
                invariants: expr_views(invariants@),
                body: Box::new(body.model()),
            },
            StmtKind::Break => StmtKindView::Break,
            StmtKind::Continue => StmtKindView::Continue,
            StmtKind::Return { value } => StmtKindView::Return { value: option_view(*value) },
            StmtKind::Other { inner } => StmtKindView::Other {
                inner: Seq::new(
                    inner@.len(),
                    |i: int|
                        if 0 <= i < inner@.len() {
                            inner@[i].model()
                        } else {
                            arbitrary()
                        },
                ),
            },
        }
    }
}

impl Case {
    /// The mathematical value of the branch.
    pub open spec fn model(&self) -> CaseView
        decreases self,
    {
        CaseView { condition: self.condition@, stmt: self.stmt.model() }
    }
}

impl View for Stmt {
    type V = StmtView;

    open spec fn view(&self) -> StmtView {
        self.model()
    }
}

impl View for Case {
    type V = CaseView;

    open spec fn view(&self) -> CaseView {
        self.model()
    }
}

/// A method: its name, what it requires of its callers, and its body.
#[derive(Debug, PartialEq, Eq)]
pub struct Method {
    pub name: Name,
    pub requires: Vec<Expr>,
    pub body: Option<Stmt>,
}

/// The mathematical value of a [`Method`].
pub struct MethodView {
    pub name: Seq<char>,
    pub requires: Seq<ExprView>,
    pub body: Option<StmtView>,
}

impl View for Method {
    type V = MethodView;

    open spec fn view(&self) -> MethodView {
        MethodView {
            name: self.name@,
            requires: expr_views(self.requires@),
            body: match self.body {
                Some(body) => Some(body@),
                None => None,
            },
        }
    }
}

/// A source file: its methods in source order.
#[derive(Debug, PartialEq, Eq)]
pub struct SourceFile {
    pub methods: Vec<Method>,
}

impl View for SourceFile {
    type V = Seq<MethodView>;

    open spec fn view(&self) -> Seq<MethodView> {
        Seq::new(self.methods@.len(), |i: int| self.methods@[i]@)
    }
}

} // verus!
