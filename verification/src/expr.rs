//! Typed expressions: the formulas that conditions, assignments and
//! verification conditions are made of.

use vstd::prelude::*;
use crate::span::Span;

verus! {

/// The type of an expression or of a variable.
#[derive(Copy, Debug, PartialEq, Eq, Structural)]
pub enum Type {
    Bool,
    Int,
}

impl Clone for Type {
    fn clone(&self) -> (res: Self)
        ensures
            res == *self,
    {
        *self
    }
}

/// The name of a program variable.
#[derive(Debug, Eq)]
pub struct Name {
    pub ident: String,
}

impl View for Name {
    type V = Seq<char>;

    open spec fn view(&self) -> Seq<char> {
        self.ident@
    }
}

impl Clone for Name {
    fn clone(&self) -> (res: Self)
        ensures
            res == *self,
    {
        Name { ident: self.ident.clone() }
    }
}

impl Name {
    /// The name spelled `ident`.
    pub fn new(ident: &str) -> (res: Name)
        ensures
            res@ == ident@,
    {
        Name { ident: ident.to_owned() }
    }

    /// Whether two names denote the same variable.
    pub fn same(&self, other: &Name) -> (res: bool)
        ensures
            res == (self@ == other@),
    {
        self.ident == other.ident
    }
}

/// Operators of one operand.
#[derive(Copy, Debug, PartialEq, Eq, Structural)]
pub enum PrefixOp {
    Not,
    Neg,
}

impl Clone for PrefixOp {
    fn clone(&self) -> (res: Self)
        ensures
            res == *self,
    {
        *self
    }
}

/// Operators of two operands.
#[derive(Copy, Debug, PartialEq, Eq, Structural)]
pub enum Op {
    And,
    Or,
    Imp,
    Eq,
    Ne,
    Lt,
    Le,
    Gt,
    Ge,
    Add,
    Sub,
    Mul,
}

impl Clone for Op {
    fn clone(&self) -> (res: Self)
        ensures
            res == *self,
    {
        *self
    }
}

/// An expression with its source location and type.
#[derive(Debug, Eq)]
pub struct Expr {
    pub span: Span,
    pub ty: Type,
    pub kind: ExprKind,
}

/// What an expression is made of.
#[derive(Debug, Eq)]
pub enum ExprKind {
    Bool(bool),
    Num(i64),
    /// A program variable.
    Ident(Name),
    /// An unconstrained solver symbol that stands for the value a variable
    /// took at a havoc; the number tells the symbols of one variable apart.
    Symbol(Name, u64),
    Prefix(PrefixOp, Box<Expr>),
    Infix(Box<Expr>, Op, Box<Expr>),
}

/// The mathematical value of an [`Expr`].
pub struct ExprView {
    pub span: Span,
    pub ty: Type,
    pub kind: ExprKindView,
}

/// The mathematical value of an [`ExprKind`].
pub enum ExprKindView {
    Bool(bool),
    Num(int),
    Ident(Seq<char>),
    Symbol(Seq<char>, nat),
    Prefix(PrefixOp, Box<ExprView>),
    Infix(Box<ExprView>, Op, Box<ExprView>),
}

impl Expr {
    /// The mathematical value of the expression: names as their spelling,
    /// numbers as integers.
    pub open spec fn model(&self) -> ExprView
        decreases self,
    {
        ExprView { span: self.span, ty: self.ty, kind: self.kind.model() }
    }
}

impl ExprKind {
    /// The mathematical value of the kind.
    pub open spec fn model(&self) -> ExprKindView
        decreases self,
    {
        match self {
            ExprKind::Bool(b) => ExprKindView::Bool(*b),
            ExprKind::Num(n) => ExprKindView::Num(*n as int),
            ExprKind::Ident(name) => ExprKindView::Ident(name@),
            ExprKind::Symbol(name, index) => ExprKindView::Symbol(name@, *index as nat),
            ExprKind::Prefix(op, e) => ExprKindView::Prefix(*op, Box::new(e.model())),
            ExprKind::Infix(l, op, r) => ExprKindView::Infix(
                Box::new(l.model()),
                *op,
                Box::new(r.model()),
            ),
        }
    }
}

impl View for Expr {
    type V = ExprView;

    open spec fn view(&self) -> ExprView {
        self.model()
    }
}

impl View for ExprKind {
    type V = ExprKindView;

    open spec fn view(&self) -> ExprKindView {
        self.model()
    }
}

impl Clone for Expr {
    fn clone(&self) -> (res: Self)
        ensures
            res == *self,
        decreases self,
    {
        let kind = match &self.kind {
            ExprKind::Bool(b) => ExprKind::Bool(*b),
            ExprKind::Num(n) => ExprKind::Num(*n),
            ExprKind::Ident(name) => ExprKind::Ident(name.clone()),
            ExprKind::Symbol(name, index) => ExprKind::Symbol(name.clone(), *index),
            ExprKind::Prefix(op, e) => ExprKind::Prefix(*op, Box::new((&**e).clone())),
            ExprKind::Infix(l, op, r) => ExprKind::Infix(
                Box::new((&**l).clone()),
                *op,
                Box::new((&**r).clone()),
            ),
        };
        Expr { span: self.span, ty: self.ty, kind }
    }
}

impl PrefixOp {
    /// The type of what the operator yields.
    pub open spec fn result_type(self) -> Type {
        match self {
            PrefixOp::Not => Type::Bool,
            PrefixOp::Neg => Type::Int,
        }
    }

    /// The type of what the operator yields.
    pub fn ty(self) -> (res: Type)
        ensures
            res == self.result_type(),
    {
        match self {
            PrefixOp::Not => Type::Bool,
            PrefixOp::Neg => Type::Int,
        }
    }
}

impl Op {
    /// The type of what the operator yields: arithmetic gives an integer,
    /// every other operator a truth value.
    pub open spec fn result_type(self) -> Type {
        match self {
            Op::Add | Op::Sub | Op::Mul => Type::Int,
            _ => Type::Bool,
        }
    }

    /// The type of what the operator yields.
    pub fn ty(self) -> (res: Type)
        ensures
            res == self.result_type(),
    {
        match self {
            Op::Add | Op::Sub | Op::Mul => Type::Int,
            _ => Type::Bool,
        }
    }
}

impl ExprView {
    /// The literal `true` or `false`, not yet located in a source.
    pub open spec fn bool(b: bool) -> ExprView {
        ExprView { span: Span::empty(), ty: Type::Bool, kind: ExprKindView::Bool(b) }
    }

    /// The number `n`, not yet located in a source.
    pub open spec fn num(n: int) -> ExprView {
        ExprView { span: Span::empty(), ty: Type::Int, kind: ExprKindView::Num(n) }
    }

    /// The program variable `name` of type `ty`.
    pub open spec fn ident(name: Seq<char>, ty: Type) -> ExprView {
        ExprView { span: Span::empty(), ty, kind: ExprKindView::Ident(name) }
    }

    /// The solver symbol of the variable `name` with the number `index`.
    pub open spec fn symbol(name: Seq<char>, index: nat, ty: Type) -> ExprView {
        ExprView { span: Span::empty(), ty, kind: ExprKindView::Symbol(name, index) }
    }

    /// The same expression, located at `span`.
    pub open spec fn with_span(self, span: Span) -> ExprView {
        ExprView { span, ty: self.ty, kind: self.kind }
    }

    /// `op self`, located where `self` is.
    pub open spec fn prefix(self, op: PrefixOp) -> ExprView {
        ExprView {
            span: self.span,
            ty: op.result_type(),
            kind: ExprKindView::Prefix(op, Box::new(self)),
        }
    }

    /// `self op other`, located where `self` is.
    pub open spec fn infix(self, op: Op, other: ExprView) -> ExprView {
        ExprView {
            span: self.span,
            ty: op.result_type(),
            kind: ExprKindView::Infix(Box::new(self), op, Box::new(other)),
        }
    }

    /// The negation of `self`.
    pub open spec fn not(self) -> ExprView {
        self.prefix(PrefixOp::Not)
    }

    /// The conjunction of `self` and `other`.
    pub open spec fn and(self, other: ExprView) -> ExprView {
        self.infix(Op::And, other)
    }

    /// The disjunction of `self` and `other`.
    pub open spec fn or(self, other: ExprView) -> ExprView {
        self.infix(Op::Or, other)
    }

    /// The implication from `self` to `other`.
    pub open spec fn imp(self, other: ExprView) -> ExprView {
        self.infix(Op::Imp, other)
    }

    /// `self` with every occurrence of the program variable `x` replaced by
    /// `to`. Solver symbols are no program variables and stay.
    pub open spec fn subst(self, x: Seq<char>, to: ExprView) -> ExprView
        decreases self,
    {
        match self.kind {
            ExprKindView::Ident(y) => if y == x {
                to
            } else {
                self
            },
            ExprKindView::Prefix(op, e) => ExprView {
                span: self.span,
                ty: self.ty,
                kind: ExprKindView::Prefix(op, Box::new(e.subst(x, to))),
            },
            ExprKindView::Infix(l, op, r) => ExprView {
                span: self.span,
                ty: self.ty,
                kind: ExprKindView::Infix(
                    Box::new(l.subst(x, to)),
                    op,
                    Box::new(r.subst(x, to)),
                ),
            },
            _ => self,
        }
    }

    /// Whether the program variable `x` occurs in `self`.
    pub open spec fn mentions(self, x: Seq<char>) -> bool
        decreases self,
    {
        match self.kind {
            ExprKindView::Ident(y) => y == x,
            ExprKindView::Prefix(_, e) => e.mentions(x),
            ExprKindView::Infix(l, _, r) => l.mentions(x) || r.mentions(x),
            _ => false,
        }
    }

    /// The least number above the number of every solver symbol in `self`.
    pub open spec fn symbol_bound(self) -> nat
        decreases self,
    {
        match self.kind {
            ExprKindView::Symbol(_, index) => index + 1,
            ExprKindView::Prefix(_, e) => e.symbol_bound(),
            ExprKindView::Infix(l, _, r) => max_nat(l.symbol_bound(), r.symbol_bound()),
            _ => 0,
        }
    }
}

impl Expr {
    /// The literal `true` or `false`.
    pub fn bool(b: bool) -> (res: Expr)
        ensures
            res@ == ExprView::bool(b),
    {
        Expr { span: Span::default(), ty: Type::Bool, kind: ExprKind::Bool(b) }
    }

    /// The number `n`.
    pub fn num(n: i64) -> (res: Expr)
        ensures
            res@ == ExprView::num(n as int),
    {
        Expr { span: Span::default(), ty: Type::Int, kind: ExprKind::Num(n) }
    }

    /// The program variable `name` of type `ty`.
    pub fn ident(name: &Name, ty: Type) -> (res: Expr)
        ensures
            res@ == ExprView::ident(name@, ty),
    {
        Expr { span: Span::default(), ty, kind: ExprKind::Ident(name.clone()) }
    }

    /// The solver symbol of the variable `name` with the number `index`.
    pub fn symbol(name: &Name, index: u64, ty: Type) -> (res: Expr)
        ensures
            res@ == ExprView::symbol(name@, index as nat, ty),
    {
        Expr { span: Span::default(), ty, kind: ExprKind::Symbol(name.clone(), index) }
    }

    /// The same expression, located at `span`.
    pub fn with_span(self, span: Span) -> (res: Expr)
        ensures
            res@ == self@.with_span(span),
    {
        Expr { span, ty: self.ty, kind: self.kind }
    }

    /// `op self`, located where `self` is.
    pub fn prefix(&self, op: PrefixOp) -> (res: Expr)
        ensures
            res@ == self@.prefix(op),
    {
        Expr { span: self.span, ty: op.ty(), kind: ExprKind::Prefix(op, Box::new(self.clone())) }
    }

    /// `self op other`, located where `self` is.
    pub fn infix(&self, op: Op, other: &Expr) -> (res: Expr)
        ensures
            res@ == self@.infix(op, other@),
    {
        Expr {
            span: self.span,
            ty: op.ty(),
            kind: ExprKind::Infix(Box::new(self.clone()), op, Box::new(other.clone())),
        }
    }

    /// The negation of `self`.
    pub fn not(&self) -> (res: Expr)
        ensures
            res@ == self@.not(),
    {
        self.prefix(PrefixOp::Not)
    }

    /// The conjunction of `self` and `other`.
    pub fn and(&self, other: &Expr) -> (res: Expr)
        ensures
            res@ == self@.and(other@),
    {
        self.infix(Op::And, other)
    }

    /// The disjunction of `self` and `other`.
    pub fn or(&self, other: &Expr) -> (res: Expr)
        ensures
            res@ == self@.or(other@),
    {
        self.infix(Op::Or, other)
    }

    /// The implication from `self` to `other`.
    pub fn imp(&self, other: &Expr) -> (res: Expr)
        ensures
            res@ == self@.imp(other@),
    {
        self.infix(Op::Imp, other)
    }

    /// Replaces every occurrence of the program variable `name` by `to`.
    pub fn subst(&self, name: &Name, to: &Expr) -> (res: Expr)
        ensures
            res@ == self@.subst(name@, to@),
        decreases self,
    {
        match &self.kind {
            ExprKind::Ident(y) => {
                if y.same(name) {
                    to.clone()
                } else {
                    self.clone()
                }
            },
            ExprKind::Prefix(op, e) => Expr {
                span: self.span,
                ty: self.ty,
                kind: ExprKind::Prefix(*op, Box::new(e.subst(name, to))),
            },
            ExprKind::Infix(l, op, r) => Expr {
                span: self.span,
                ty: self.ty,
                kind: ExprKind::Infix(
                    Box::new(l.subst(name, to)),
                    *op,
                    Box::new(r.subst(name, to)),
                ),
            },
            _ => self.clone(),
        }
    }

    /// The least number above the number of every solver symbol in `self`;
    /// `None` stands for the number above the greatest, see [`bound_of`].
    pub fn symbol_bound(&self) -> (res: Option<u64>)
        ensures
            bound_of(res) == self@.symbol_bound(),
        decreases self,
    {
        match &self.kind {
            ExprKind::Symbol(_, index) => {
                if *index == u64::MAX {
                    None
                } else {
                    Some(*index + 1)
                }
            },
            ExprKind::Prefix(_, e) => e.symbol_bound(),
            ExprKind::Infix(l, _, r) => max_bound(l.symbol_bound(), r.symbol_bound()),
            _ => Some(0),
        }
    }
}

/// The greater of two numbers.
pub open spec fn max_nat(a: nat, b: nat) -> nat {
    if a >= b {
        a
    } else {
        b
    }
}

/// The number that a bound on solver symbols stands for: itself, or, for
/// `None`, the one above the greatest number that a symbol can have.
pub open spec fn bound_of(bound: Option<u64>) -> nat {
    match bound {
        Some(n) => n as nat,
        None => (u64::MAX + 1) as nat,
    }
}

/// The greater of two bounds.
pub fn max_bound(a: Option<u64>, b: Option<u64>) -> (res: Option<u64>)
    ensures
        bound_of(res) == max_nat(bound_of(a), bound_of(b)),
{
    match (a, b) {
        (Some(x), Some(y)) => if x >= y {
            Some(x)
        } else {
            Some(y)
        },
        _ => None,
    }
}

/// The views of the expressions of a vector, in order.
pub open spec fn expr_views(exprs: Seq<Expr>) -> Seq<ExprView> {
    Seq::new(exprs.len(), |i: int| exprs[i]@)
}

impl ExprView {
    /// The conjunction of the expressions, nested to the left; of none it is
    /// `true`, of a single one the expression itself.
    pub open spec fn all(exprs: Seq<ExprView>) -> ExprView
        decreases exprs.len(),
    {
        if exprs.len() == 0 {
            Self::bool(true)
        } else if exprs.len() == 1 {
            exprs[0]
        } else {
            Self::all(exprs.drop_last()).and(exprs.last())
        }
    }

    /// The disjunction of the expressions, nested to the left; of none it is
    /// `false`, of a single one the expression itself.
    pub open spec fn any(exprs: Seq<ExprView>) -> ExprView
        decreases exprs.len(),
    {
        if exprs.len() == 0 {
            Self::bool(false)
        } else if exprs.len() == 1 {
            exprs[0]
        } else {
            Self::any(exprs.drop_last()).or(exprs.last())
        }
    }
}

impl Expr {
    /// The conjunction of `exprs`.
    pub fn all(exprs: &Vec<Expr>) -> (res: Expr)
        ensures
            res@ == ExprView::all(expr_views(exprs@)),
    {
        let n = exprs.len();
        if n == 0 {
            return Expr::bool(true);
        }
        let ghost views = expr_views(exprs@);
        let mut acc = exprs[0].clone();
        let mut i: usize = 1;
        assert(views.take(1).len() == 1);
        while i < n
            invariant
                1 <= i <= n,
                n == exprs.len(),
                views == expr_views(exprs@),
                acc@ == ExprView::all(views.take(i as int)),
            decreases n - i,
        {
            assert(views.take(i + 1).drop_last() == views.take(i as int));
            acc = acc.and(&exprs[i]);
            i = i + 1;
        }
        assert(views.take(n as int) == views);
        acc
    }

    /// The disjunction of `exprs`.
    pub fn any(exprs: &Vec<Expr>) -> (res: Expr)
        ensures
            res@ == ExprView::any(expr_views(exprs@)),
    {
        let n = exprs.len();
        if n == 0 {
            return Expr::bool(false);
        }
        let ghost views = expr_views(exprs@);
        let mut acc = exprs[0].clone();
        let mut i: usize = 1;
        assert(views.take(1).len() == 1);
        while i < n
            invariant
                1 <= i <= n,
                n == exprs.len(),
                views == expr_views(exprs@),
                acc@ == ExprView::any(views.take(i as int)),
            decreases n - i,
        {
            assert(views.take(i + 1).drop_last() == views.take(i as int));
            acc = acc.or(&exprs[i]);
            i = i + 1;
        }
        assert(views.take(n as int) == views);
        acc
    }
}

} // verus!
