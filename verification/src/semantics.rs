//! What expressions mean, and what the calculus owes to that meaning.
//!
//! Expressions are evaluated over states that give a value to every program
//! variable and to every solver symbol. A formula is valid where it holds in
//! every state: that is what a solver shows when it finds the negation
//! unsatisfiable.

use vstd::prelude::*;
use crate::expr::{ExprKindView, ExprView, Op, PrefixOp};
use crate::ivl0::{IVL0StmtKindView, IVL0StmtView};

verus! {

/// What an expression evaluates to.
pub enum Value {
    Bool(bool),
    Int(int),
}

/// What a state gives values to.
pub enum Variable {
    /// A program variable.
    Program(Seq<char>),
    /// A solver symbol.
    Symbol(Seq<char>, nat),
}

/// A state: a value for every variable.
pub type State = spec_fn(Variable) -> Value;

impl Value {
    /// Whether the value is `true`.
    pub open spec fn truth(self) -> bool {
        self == Value::Bool(true)
    }

    /// The value as a number; what is no number counts as zero.
    pub open spec fn number(self) -> int {
        match self {
            Value::Int(n) => n,
            Value::Bool(_) => 0,
        }
    }
}

impl PrefixOp {
    /// What the operator makes of the value of its operand.
    pub open spec fn apply(self, v: Value) -> Value {
        match self {
            PrefixOp::Not => Value::Bool(!v.truth()),
            PrefixOp::Neg => Value::Int(-v.number()),
        }
    }
}

impl Op {
    /// What the operator makes of the values of its operands. Integers are
    /// the mathematical ones; two values are equal where they are the same
    /// value.
    pub open spec fn apply(self, l: Value, r: Value) -> Value {
        match self {
            Op::And => Value::Bool(l.truth() && r.truth()),
            Op::Or => Value::Bool(l.truth() || r.truth()),
            Op::Imp => Value::Bool(l.truth() ==> r.truth()),
            Op::Eq => Value::Bool(l == r),
            Op::Ne => Value::Bool(l != r),
            Op::Lt => Value::Bool(l.number() < r.number()),
            Op::Le => Value::Bool(l.number() <= r.number()),
            Op::Gt => Value::Bool(l.number() > r.number()),
            Op::Ge => Value::Bool(l.number() >= r.number()),
            Op::Add => Value::Int(l.number() + r.number()),
            Op::Sub => Value::Int(l.number() - r.number()),
            Op::Mul => Value::Int(l.number() * r.number()),
        }
    }
}

/// The state that gives `v` to `x` and is as `state` elsewhere.
pub open spec fn update(state: State, x: Variable, v: Value) -> State {
    |y: Variable|
        if y == x {
            v
        } else {
            state(y)
        }
}

impl ExprView {
    /// The value of the expression in `state`.
    pub open spec fn eval(self, state: State) -> Value
        decreases self,
    {
        match self.kind {
            ExprKindView::Bool(b) => Value::Bool(b),
            ExprKindView::Num(n) => Value::Int(n),
            ExprKindView::Ident(x) => state(Variable::Program(x)),
            ExprKindView::Symbol(x, index) => state(Variable::Symbol(x, index)),
            ExprKindView::Prefix(op, e) => op.apply(e.eval(state)),
            ExprKindView::Infix(l, op, r) => op.apply(l.eval(state), r.eval(state)),
        }
    }

    /// Whether the formula holds in `state`.
    pub open spec fn holds(self, state: State) -> bool {
        self.eval(state).truth()
    }

    /// Whether the formula holds in every state.
    pub open spec fn valid(self) -> bool {
        forall|state: State| self.holds(state)
    }
}

/// Substitution is exact: the value of `e` with `to` in place of `x` is the
/// value of `e` in the state in which `x` has the value of `to`.
pub proof fn lemma_subst_eval(e: ExprView, x: Seq<char>, to: ExprView, state: State)
    ensures
        e.subst(x, to).eval(state) == e.eval(update(state, Variable::Program(x), to.eval(state))),
    decreases e,
{
    match e.kind {
        ExprKindView::Prefix(_, inner) => {
            lemma_subst_eval(*inner, x, to, state);
        },
        ExprKindView::Infix(l, _, r) => {
            lemma_subst_eval(*l, x, to, state);
            lemma_subst_eval(*r, x, to, state);
        },
        _ => {},
    }
}

/// An expression does not depend on a program variable that it does not
/// mention.
pub proof fn lemma_eval_unmentioned(e: ExprView, x: Seq<char>, v: Value, state: State)
    requires
        !e.mentions(x),
    ensures
        e.eval(update(state, Variable::Program(x), v)) == e.eval(state),
    decreases e,
{
    match e.kind {
        ExprKindView::Prefix(_, inner) => {
            lemma_eval_unmentioned(*inner, x, v, state);
        },
        ExprKindView::Infix(l, _, r) => {
            lemma_eval_unmentioned(*l, x, v, state);
            lemma_eval_unmentioned(*r, x, v, state);
        },
        _ => {},
    }
}

/// After `x` is replaced by an expression that does not mention it, `x` is
/// gone.
pub proof fn lemma_subst_removes(e: ExprView, x: Seq<char>, to: ExprView)
    requires
        !to.mentions(x),
    ensures
        !e.subst(x, to).mentions(x),
    decreases e,
{
    match e.kind {
        ExprKindView::Prefix(_, inner) => {
            lemma_subst_removes(*inner, x, to);
        },
        ExprKindView::Infix(l, _, r) => {
            lemma_subst_removes(*l, x, to);
            lemma_subst_removes(*r, x, to);
        },
        _ => {},
    }
}

/// Assignment: the weakest precondition holds exactly where the
/// postcondition holds after the variable has taken the value of the
/// expression.
pub proof fn lemma_wp_assignment(term: IVL0StmtView, post: ExprView, next: nat, state: State)
    requires
        term.kind is Assignment,
    ensures
        term.wp(post, next).eval(state) == post.eval(
            update(
                state,
                Variable::Program(term.kind->Assignment_name),
                term.kind->Assignment_expr.eval(state),
            ),
        ),
{
    lemma_subst_eval(post, term.kind->Assignment_name, term.kind->Assignment_expr, state);
}

/// Havoc: the weakest precondition says nothing of the havocked variable,
/// whatever was known of it before: it does not mention the variable, and
/// holds or fails whatever value the variable has.
pub proof fn lemma_wp_havoc_forgets(
    term: IVL0StmtView,
    post: ExprView,
    next: nat,
    v: Value,
    state: State,
)
    requires
        term.kind is Havoc,
    ensures
        !term.wp(post, next).mentions(term.kind->Havoc_name),
        term.wp(post, next).eval(update(state, Variable::Program(term.kind->Havoc_name), v))
            == term.wp(post, next).eval(state),
{
    let x = term.kind->Havoc_name;
    let symbol = ExprView::symbol(x, next, term.kind->Havoc_ty);
    lemma_subst_removes(post, x, symbol);
    lemma_eval_unmentioned(term.wp(post, next), x, v, state);
}

/// Havoc: the weakest precondition holds exactly where the postcondition
/// holds after the variable has taken the value of its new symbol.
pub proof fn lemma_wp_havoc(term: IVL0StmtView, post: ExprView, next: nat, state: State)
    requires
        term.kind is Havoc,
    ensures
        term.wp(post, next).eval(state) == post.eval(
            update(
                state,
                Variable::Program(term.kind->Havoc_name),
                state(Variable::Symbol(term.kind->Havoc_name, next)),
            ),
        ),
{
    let x = term.kind->Havoc_name;
    lemma_subst_eval(post, x, ExprView::symbol(x, next, term.kind->Havoc_ty), state);
}

/// Assumption: the weakest precondition holds exactly where the
/// postcondition holds or the condition fails.
pub proof fn lemma_wp_assumption(term: IVL0StmtView, post: ExprView, next: nat, state: State)
    requires
        term.kind is Assume,
    ensures
        term.wp(post, next).holds(state) == (term.kind->Assume_condition.holds(state)
            ==> post.holds(state)),
{
}

/// Assertion: the weakest precondition holds exactly where the condition
/// and the postcondition hold.
pub proof fn lemma_wp_assertion(term: IVL0StmtView, post: ExprView, next: nat, state: State)
    requires
        term.kind is Assert,
    ensures
        term.wp(post, next).holds(state) == (term.kind->Assert_condition.holds(state)
            && post.holds(state)),
{
}

/// Choice: the weakest precondition holds exactly where those of both
/// branches hold, so a choice is correct only if each branch is.
pub proof fn lemma_wp_choice(term: IVL0StmtView, post: ExprView, next: nat, state: State)
    requires
        term.kind is NonDet,
    ensures
        term.wp(post, next).holds(state) == (term.kind->NonDet_0.wp(
            post,
            next + term.kind->NonDet_1.havocs(),
        ).holds(state) && term.kind->NonDet_1.wp(post, next).holds(state)),
{
}

/// A variable that is havocked, then taken to meet a condition, meets it:
/// the assertion of a condition that means the same verifies in every state,
/// whatever is required of the variable beforehand, and however the three
/// commands are nested in sequence.
pub proof fn lemma_havoc_then_condition_verifies(
    havoc: IVL0StmtView,
    taken: IVL0StmtView,
    checked: IVL0StmtView,
    next: nat,
)
    requires
        havoc.kind is Havoc,
        taken.kind is Assume,
        checked.kind is Assert,
        forall|state: State|
            taken.kind->Assume_condition.eval(state) == checked.kind->Assert_condition.eval(state),
    ensures
        havoc.seq(taken.seq(checked)).wp(ExprView::bool(true), next).valid(),
        !havoc.seq(taken.seq(checked)).wp(ExprView::bool(true), next).mentions(
            havoc.kind->Havoc_name,
        ),
        havoc.seq(taken).seq(checked).wp(ExprView::bool(true), next) == havoc.seq(
            taken.seq(checked),
        ).wp(ExprView::bool(true), next),
{
    let post = ExprView::bool(true);
    let inner = taken.seq(checked).wp(post, next);
    let whole = havoc.seq(taken.seq(checked)).wp(post, next);
    assert(taken.havocs() == 0 && checked.havocs() == 0);
    assert(taken.seq(checked).havocs() == 0);
    assert(inner == taken.wp(checked.wp(post, next), next));
    assert(whole == havoc.wp(inner, next));
    assert(havoc.seq(taken).wp(checked.wp(post, next), next) == havoc.wp(
        taken.wp(checked.wp(post, next), next),
        next,
    ));
    assert forall|state: State| whole.holds(state) by {
        lemma_wp_havoc(havoc, inner, next, state);
        let after = update(
            state,
            Variable::Program(havoc.kind->Havoc_name),
            state(Variable::Symbol(havoc.kind->Havoc_name, next)),
        );
        lemma_wp_assumption(taken, checked.wp(post, next), next, after);
        lemma_wp_assertion(checked, post, next, after);
    }
    lemma_wp_havoc_forgets(havoc, inner, next, Value::Bool(true), |v: Variable| Value::Bool(true));
}

/// An assertion behind a guard: the weakest precondition holds exactly
/// where the guard fails or the condition and the postcondition hold.
pub proof fn lemma_wp_guarded_assertion(
    guard: IVL0StmtView,
    checked: IVL0StmtView,
    post: ExprView,
    next: nat,
    state: State,
)
    requires
        guard.kind is Assume,
        checked.kind is Assert,
    ensures
        guard.seq(checked).havocs() == 0,
        guard.seq(checked).wp(post, next).holds(state) == (guard.kind->Assume_condition.holds(
            state,
        ) ==> checked.kind->Assert_condition.holds(state) && post.holds(state)),
{
    assert(guard.havocs() == 0 && checked.havocs() == 0);
    assert(guard.seq(checked).wp(post, next) == guard.wp(checked.wp(post, next), next));
    lemma_wp_assumption(guard, checked.wp(post, next), next, state);
    lemma_wp_assertion(checked, post, next, state);
}

/// The weakest precondition is monotone: for a postcondition that holds
/// wherever another does, it holds wherever that of the other does.
pub proof fn lemma_wp_monotone(
    term: IVL0StmtView,
    stronger: ExprView,
    weaker: ExprView,
    next: nat,
    state: State,
)
    requires
        forall|s: State| #[trigger] stronger.holds(s) ==> weaker.holds(s),
        term.wp(stronger, next).holds(state),
    ensures
        term.wp(weaker, next).holds(state),
    decreases term,
{
    match term.kind {
        IVL0StmtKindView::Assignment { name, expr } => {
            lemma_wp_assignment(term, stronger, next, state);
            lemma_wp_assignment(term, weaker, next, state);
            let after = update(state, Variable::Program(name), expr.eval(state));
            assert(stronger.holds(after));
        },
        IVL0StmtKindView::Havoc { name, .. } => {
            lemma_wp_havoc(term, stronger, next, state);
            lemma_wp_havoc(term, weaker, next, state);
            let after = update(
                state,
                Variable::Program(name),
                state(Variable::Symbol(name, next)),
            );
            assert(stronger.holds(after));
        },
        IVL0StmtKindView::Assume { .. } => {
            lemma_wp_assumption(term, stronger, next, state);
            lemma_wp_assumption(term, weaker, next, state);
            assert(stronger.holds(state) ==> weaker.holds(state));
        },
        IVL0StmtKindView::Assert { .. } => {
            lemma_wp_assertion(term, stronger, next, state);
            lemma_wp_assertion(term, weaker, next, state);
            assert(stronger.holds(state));
        },
        IVL0StmtKindView::Sequence(a, b) => {
            assert forall|s: State| #[trigger] b.wp(stronger, next).holds(s) implies b.wp(
                weaker,
                next,
            ).holds(s) by {
                lemma_wp_monotone(*b, stronger, weaker, next, s);
            }
            lemma_wp_monotone(
                *a,
                b.wp(stronger, next),
                b.wp(weaker, next),
                next + b.havocs(),
                state,
            );
        },
        IVL0StmtKindView::NonDet(a, b) => {
            lemma_wp_choice(term, stronger, next, state);
            lemma_wp_choice(term, weaker, next, state);
            lemma_wp_monotone(*a, stronger, weaker, next + b.havocs(), state);
            lemma_wp_monotone(*b, stronger, weaker, next, state);
        },
    }
}

} // verus!
