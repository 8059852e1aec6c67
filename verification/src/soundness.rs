//! The calculus is sound: a method whose obligation the solver cannot refute
//! does not fail an assertion.
//!
//! What a guarded command does is given by [`IVL0StmtView::safe`], which says
//! from which states every execution of the command passes all its assertions
//! and ends where a predicate holds. The weakest precondition of the
//! calculus is a formula with free solver symbols in place of the quantifier
//! that a havoc calls for; the theorem is that its validity is enough.
//!
//! A solver looks for values of the right type only. So the theorem is
//! stated for a [`Domain`], which says which values each variable may take:
//! with a variable held to the values of its type by [`typed`], it speaks of
//! what such a solver shows.

use vstd::prelude::*;
use crate::expr::{max_nat, ExprKindView, ExprView, Op, Type};
use crate::ivl0::{IVL0StmtKindView, IVL0StmtView};
use crate::semantics::{lemma_subst_eval, update, State, Value, Variable};
use crate::stmt::MethodView;


verus! {

/// A set of states.
pub type Predicate = spec_fn(State) -> bool;

/// Which values a variable may take.
pub type Domain = spec_fn(Variable, Value) -> bool;

/// The predicate that holds of every state.
pub open spec fn anywhere() -> Predicate {
    |state: State| true
}

/// Whether every variable has a value of its domain.
pub open spec fn admissible(state: State, domain: Domain) -> bool {
    forall|v: Variable| #[trigger] domain(v, state(v))
}

/// Whether a solver symbol may take the values of its program variable, and
/// no others.
pub open spec fn symbols_as_variables(domain: Domain) -> bool {
    forall|x: Seq<char>, index: nat, value: Value| #[trigger]
        domain(Variable::Symbol(x, index), value) == domain(Variable::Program(x), value)
}

impl IVL0StmtView {
    /// Whether every execution of the command from `state` passes all its
    /// assertions and, where it ends, ends in a state of `post`. An
    /// execution that meets an assumption that fails ends there, and counts
    /// as correct. A havoc gives its variable any value of its domain.
    pub open spec fn safe(self, domain: Domain, post: Predicate, state: State) -> bool
        decreases self, 0nat,
    {
        match self.kind {
            IVL0StmtKindView::Assignment { name, expr } => post(
                update(state, Variable::Program(name), expr.eval(state)),
            ),
            IVL0StmtKindView::Havoc { name, .. } => forall|v: Value|
                domain(Variable::Program(name), v) ==> #[trigger] post(
                    update(state, Variable::Program(name), v),
                ),
            IVL0StmtKindView::Assume { condition } => condition.holds(state) ==> post(state),
            IVL0StmtKindView::Assert { condition, .. } => condition.holds(state) && post(state),
            IVL0StmtKindView::Sequence(a, b) => a.safe(domain, b.before(domain, post), state),
            IVL0StmtKindView::NonDet(a, b) => a.safe(domain, post, state) && b.safe(
                domain,
                post,
                state,
            ),
        }
    }

    /// The states from which the command is [`safe`](Self::safe) for `post`.
    pub open spec fn before(self, domain: Domain, post: Predicate) -> Predicate
        decreases self, 1nat,
    {
        |state: State| self.safe(domain, post, state)
    }

    /// Whether every assignment of the command gives its variable a value of
    /// its domain, from whatever admissible state it runs.
    pub open spec fn keeps(self, domain: Domain) -> bool
        decreases self,
    {
        match self.kind {
            IVL0StmtKindView::Assignment { name, expr } => forall|state: State|
                admissible(state, domain) ==> domain(
                    Variable::Program(name),
                    #[trigger] expr.eval(state),
                ),
            IVL0StmtKindView::Sequence(a, b) => a.keeps(domain) && b.keeps(domain),
            IVL0StmtKindView::NonDet(a, b) => a.keeps(domain) && b.keeps(domain),
            _ => true,
        }
    }
}

/// The state that is as `symbols` on the solver symbols numbered from
/// `floor` on, and as `state` on everything else.
pub open spec fn overlay(state: State, symbols: State, floor: nat) -> State {
    |v: Variable|
        match v {
            Variable::Symbol(_, index) => if index >= floor {
                symbols(v)
            } else {
                state(v)
            },
            Variable::Program(_) => state(v),
        }
}

/// The states in which `e` holds whatever admissible values the solver
/// symbols numbered from `floor` on have.
pub open spec fn whatever(e: ExprView, floor: nat, domain: Domain) -> Predicate {
    |state: State|
        forall|symbols: State|
            admissible(symbols, domain) ==> #[trigger] e.holds(overlay(state, symbols, floor))
}

/// Whether two states give the same values to the program variables and to
/// the solver symbols numbered below `bound`.
pub open spec fn agree(first: State, second: State, bound: nat) -> bool {
    forall|v: Variable|
        (match v {
            Variable::Program(_) => true,
            Variable::Symbol(_, index) => index < bound,
        }) ==> #[trigger] first(v) == second(v)
}

/// An expression has the same value in states that agree on its variables
/// and symbols.
pub proof fn lemma_eval_agree(e: ExprView, first: State, second: State, bound: nat)
    requires
        e.symbol_bound() <= bound,
        agree(first, second, bound),
    ensures
        e.eval(first) == e.eval(second),
    decreases e,
{
    match e.kind {
        ExprKindView::Ident(x) => {
            assert(first(Variable::Program(x)) == second(Variable::Program(x)));
        },
        ExprKindView::Symbol(x, index) => {
            assert(first(Variable::Symbol(x, index)) == second(Variable::Symbol(x, index)));
        },
        ExprKindView::Prefix(_, inner) => {
            lemma_eval_agree(*inner, first, second, bound);
        },
        ExprKindView::Infix(l, _, r) => {
            lemma_eval_agree(*l, first, second, bound);
            lemma_eval_agree(*r, first, second, bound);
        },
        _ => {},
    }
}

/// Substitution brings in no symbol beyond those of its two expressions.
pub proof fn lemma_subst_symbol_bound(e: ExprView, x: Seq<char>, to: ExprView)
    ensures
        e.subst(x, to).symbol_bound() <= max_nat(e.symbol_bound(), to.symbol_bound()),
    decreases e,
{
    match e.kind {
        ExprKindView::Prefix(_, inner) => {
            lemma_subst_symbol_bound(*inner, x, to);
        },
        ExprKindView::Infix(l, _, r) => {
            lemma_subst_symbol_bound(*l, x, to);
            lemma_subst_symbol_bound(*r, x, to);
        },
        _ => {},
    }
}

/// The weakest precondition holds no symbol beyond those that it was given
/// and those that it made.
pub proof fn lemma_wp_symbol_bound(term: IVL0StmtView, post: ExprView, next: nat)
    requires
        term.symbol_bound() <= next,
        post.symbol_bound() <= next,
    ensures
        term.wp(post, next).symbol_bound() <= next + term.havocs(),
    decreases term,
{
    match term.kind {
        IVL0StmtKindView::Assignment { name, expr } => {
            lemma_subst_symbol_bound(post, name, expr);
        },
        IVL0StmtKindView::Havoc { name, ty } => {
            lemma_subst_symbol_bound(post, name, ExprView::symbol(name, next, ty));
        },
        IVL0StmtKindView::Sequence(a, b) => {
            lemma_wp_symbol_bound(*b, post, next);
            lemma_wp_symbol_bound(*a, b.wp(post, next), next + b.havocs());
        },
        IVL0StmtKindView::NonDet(a, b) => {
            lemma_wp_symbol_bound(*b, post, next);
            lemma_wp_symbol_bound(*a, post, next + b.havocs());
        },
        _ => {},
    }
}

/// A state stays admissible where a variable takes a value of its domain.
pub proof fn lemma_update_admissible(state: State, domain: Domain, x: Variable, v: Value)
    requires
        admissible(state, domain),
        domain(x, v),
    ensures
        admissible(update(state, x, v), domain),
{
    let after = update(state, x, v);
    assert forall|u: Variable| #[trigger] domain(u, after(u)) by {
        if u != x {
            assert(domain(u, state(u)));
        }
    }
}

/// Two admissible states, laid over each other, are an admissible state.
pub proof fn lemma_overlay_admissible(state: State, symbols: State, floor: nat, domain: Domain)
    requires
        admissible(state, domain),
        admissible(symbols, domain),
    ensures
        admissible(overlay(state, symbols, floor), domain),
{
    let laid = overlay(state, symbols, floor);
    assert forall|u: Variable| #[trigger] domain(u, laid(u)) by {
        assert(domain(u, state(u)));
        assert(domain(u, symbols(u)));
    }
}

/// A command that is safe for a predicate is safe for every predicate that
/// is weaker on the admissible states.
pub proof fn lemma_safe_monotone(
    term: IVL0StmtView,
    domain: Domain,
    stronger: Predicate,
    weaker: Predicate,
    state: State,
)
    requires
        forall|s: State| admissible(s, domain) && #[trigger] stronger(s) ==> weaker(s),
        term.keeps(domain),
        admissible(state, domain),
        term.safe(domain, stronger, state),
    ensures
        term.safe(domain, weaker, state),
    decreases term,
{
    match term.kind {
        IVL0StmtKindView::Assignment { name, expr } => {
            lemma_update_admissible(state, domain, Variable::Program(name), expr.eval(state));
        },
        IVL0StmtKindView::Havoc { name, .. } => {
            assert forall|v: Value| domain(Variable::Program(name), v) implies #[trigger] weaker(
                update(state, Variable::Program(name), v),
            ) by {
                lemma_update_admissible(state, domain, Variable::Program(name), v);
                assert(stronger(update(state, Variable::Program(name), v)));
            }
        },
        IVL0StmtKindView::Sequence(a, b) => {
            assert forall|s: State| admissible(s, domain) && #[trigger] b.before(domain, stronger)(
                s,
            ) implies b.before(domain, weaker)(s) by {
                lemma_safe_monotone(*b, domain, stronger, weaker, s);
            }
            lemma_safe_monotone(
                *a,
                domain,
                b.before(domain, stronger),
                b.before(domain, weaker),
                state,
            );
        },
        IVL0StmtKindView::NonDet(a, b) => {
            lemma_safe_monotone(*a, domain, stronger, weaker, state);
            lemma_safe_monotone(*b, domain, stronger, weaker, state);
        },
        _ => {},
    }
}

/// The heart of the matter. Let the solver symbols of the command be
/// numbered below `floor`, and those of `post` below `next`, the first
/// number that the calculus may use. If the weakest precondition holds in
/// an admissible `state` whatever admissible values the symbols from
/// `floor` on have, the command is safe from `state`, and ends where `post`
/// holds whatever those symbols are.
pub proof fn lemma_wp_sound(
    term: IVL0StmtView,
    post: ExprView,
    next: nat,
    floor: nat,
    domain: Domain,
    state: State,
)
    requires
        floor <= next,
        term.symbol_bound() <= floor,
        post.symbol_bound() <= next,
        symbols_as_variables(domain),
        term.keeps(domain),
        admissible(state, domain),
        whatever(term.wp(post, next), floor, domain)(state),
    ensures
        term.safe(domain, whatever(post, floor, domain), state),
    decreases term,
{
    let pre = term.wp(post, next);
    let goal = whatever(post, floor, domain);
    match term.kind {
        IVL0StmtKindView::Assignment { name, expr } => {
            let x = Variable::Program(name);
            let after = update(state, x, expr.eval(state));
            assert forall|symbols: State| admissible(symbols, domain) implies #[trigger] post.holds(
                overlay(after, symbols, floor),
            ) by {
                let s = overlay(state, symbols, floor);
                assert(pre.holds(s));
                lemma_subst_eval(post, name, expr, s);
                lemma_eval_agree(expr, s, state, floor);
                lemma_eval_agree(
                    post,
                    update(s, x, expr.eval(s)),
                    overlay(after, symbols, floor),
                    next,
                );
            }
            assert(goal(after));
        },
        IVL0StmtKindView::Havoc { name, ty } => {
            let x = Variable::Program(name);
            let fresh = Variable::Symbol(name, next);
            assert forall|v: Value| domain(x, v) implies #[trigger] goal(update(state, x, v)) by {
                let after = update(state, x, v);
                assert forall|symbols: State| admissible(symbols, domain) implies #[trigger]
                    post.holds(overlay(after, symbols, floor)) by {
                    let chosen = update(symbols, fresh, v);
                    let s = overlay(state, chosen, floor);
                    assert(domain(fresh, v));
                    lemma_update_admissible(symbols, domain, fresh, v);
                    assert(pre.holds(s));
                    lemma_subst_eval(post, name, ExprView::symbol(name, next, ty), s);
                    assert(s(fresh) == v);
                    lemma_eval_agree(
                        post,
                        update(s, x, v),
                        overlay(after, symbols, floor),
                        post.symbol_bound(),
                    );
                }
            }
        },
        IVL0StmtKindView::Assume { condition } => {
            if condition.holds(state) {
                assert forall|symbols: State| admissible(symbols, domain) implies #[trigger]
                    post.holds(overlay(state, symbols, floor)) by {
                    let s = overlay(state, symbols, floor);
                    assert(pre.holds(s));
                    lemma_eval_agree(condition, s, state, floor);
                }
                assert(goal(state));
            }
        },
        IVL0StmtKindView::Assert { condition, .. } => {
            assert(pre.holds(overlay(state, state, floor)));
            lemma_eval_agree(condition, overlay(state, state, floor), state, floor);
            assert forall|symbols: State| admissible(symbols, domain) implies #[trigger]
                post.holds(overlay(state, symbols, floor)) by {
                assert(pre.holds(overlay(state, symbols, floor)));
            }
            assert(goal(state));
        },
        IVL0StmtKindView::Sequence(a, b) => {
            let middle = b.wp(post, next);
            lemma_wp_symbol_bound(*b, post, next);
            lemma_wp_sound(*a, middle, next + b.havocs(), floor, domain, state);
            assert forall|s: State|
                admissible(s, domain) && #[trigger] whatever(middle, floor, domain)(
                    s,
                ) implies b.before(domain, goal)(s) by {
                lemma_wp_sound(*b, post, next, floor, domain, s);
            }
            lemma_safe_monotone(
                *a,
                domain,
                whatever(middle, floor, domain),
                b.before(domain, goal),
                state,
            );
        },
        IVL0StmtKindView::NonDet(a, b) => {
            let first = a.wp(post, next + b.havocs());
            let second = b.wp(post, next);
            assert forall|symbols: State| admissible(symbols, domain) implies #[trigger]
                first.holds(overlay(state, symbols, floor)) by {
                assert(pre.holds(overlay(state, symbols, floor)));
            }
            assert forall|symbols: State| admissible(symbols, domain) implies #[trigger]
                second.holds(overlay(state, symbols, floor)) by {
                assert(pre.holds(overlay(state, symbols, floor)));
            }
            assert(whatever(first, floor, domain)(state));
            assert(whatever(second, floor, domain)(state));
            lemma_wp_sound(*a, post, next + b.havocs(), floor, domain, state);
            lemma_wp_sound(*b, post, next, floor, domain, state);
        },
    }
}

/// Soundness of the verifier. Take a method with an obligation, and let no
/// admissible state satisfy its assumption and its refutation together: that
/// is what the solver's answer `Unsat` says. Then from every admissible
/// state in which all that the method requires holds, every execution of its
/// body passes all its assertions.
pub proof fn lemma_verified_method_is_safe(method: MethodView, domain: Domain, state: State)
    requires
        method.body is Some,
        method.body_obligation() is Ok,
        symbols_as_variables(domain),
        method.body->0.lower()->Ok_0.keeps(domain),
        forall|s: State|
            admissible(s, domain) ==> !(#[trigger] method.body_obligation()->Ok_0.assumption.holds(s)
                && method.body_obligation()->Ok_0.refutation.holds(s)),
        admissible(state, domain),
        ExprView::all(method.requires).holds(state),
    ensures
        method.body->0.lower() is Ok,
        method.body->0.lower()->Ok_0.safe(domain, anywhere(), state),
{
    let obligation = method.body_obligation()->Ok_0;
    let term = method.body->0.lower()->Ok_0;
    let post = ExprView::bool(true);
    let first = max_nat(obligation.assumption.symbol_bound(), term.first_symbol(post));
    assert(obligation.condition == term.wp(post, first));
    assert forall|symbols: State| admissible(symbols, domain) implies #[trigger]
        obligation.condition.holds(overlay(state, symbols, first)) by {
        let s = overlay(state, symbols, first);
        lemma_overlay_admissible(state, symbols, first, domain);
        lemma_eval_agree(obligation.assumption, s, state, first);
        assert(obligation.assumption.holds(s));
        assert(!obligation.refutation.holds(s));
    }
    assert(whatever(obligation.condition, first, domain)(state));
    lemma_wp_sound(term, post, first, first, domain, state);
    lemma_safe_monotone(term, domain, whatever(post, first, domain), anywhere(), state);
}

/// The types of the program variables, by name.
pub type Typing = spec_fn(Seq<char>) -> Type;

impl Value {
    /// Whether the value is of the type.
    pub open spec fn has_type(self, ty: Type) -> bool {
        match self {
            Value::Bool(_) => ty == Type::Bool,
            Value::Int(_) => ty == Type::Int,
        }
    }
}

/// The domain in which a variable takes the values of its type, and a solver
/// symbol those of the type of its variable.
pub open spec fn typed(typing: Typing) -> Domain {
    |v: Variable, value: Value|
        match v {
            Variable::Program(x) => value.has_type(typing(x)),
            Variable::Symbol(x, _) => value.has_type(typing(x)),
        }
}

impl ExprView {
    /// Whether the expression is built from operands of the right types, and
    /// carries the type that its kind gives: a variable that of `typing`, a
    /// connective of truth values and a comparison of numbers or of two
    /// operands of one type a truth value, arithmetic of numbers a number.
    pub open spec fn well_typed(self, typing: Typing) -> bool
        decreases self,
    {
        match self.kind {
            ExprKindView::Bool(_) => self.ty == Type::Bool,
            ExprKindView::Num(_) => self.ty == Type::Int,
            ExprKindView::Ident(x) => self.ty == typing(x),
            ExprKindView::Symbol(x, _) => self.ty == typing(x),
            ExprKindView::Prefix(op, e) => {
                &&& e.well_typed(typing)
                &&& self.ty == op.result_type()
                &&& e.ty == op.result_type()
            },
            ExprKindView::Infix(l, op, r) => {
                &&& l.well_typed(typing)
                &&& r.well_typed(typing)
                &&& self.ty == op.result_type()
                &&& match op {
                    Op::And | Op::Or | Op::Imp => l.ty == Type::Bool && r.ty == Type::Bool,
                    Op::Eq | Op::Ne => l.ty == r.ty,
                    _ => l.ty == Type::Int && r.ty == Type::Int,
                }
            },
        }
    }
}

impl IVL0StmtView {
    /// Whether the expressions of the command are well typed, conditions are
    /// truth values, and a variable is assigned and havocked at its type.
    pub open spec fn well_typed(self, typing: Typing) -> bool
        decreases self,
    {
        match self.kind {
            IVL0StmtKindView::Assignment { name, expr } => expr.well_typed(typing) && expr.ty
                == typing(name),
            IVL0StmtKindView::Havoc { name, ty } => ty == typing(name),
            IVL0StmtKindView::Assume { condition } => condition.well_typed(typing) && condition.ty
                == Type::Bool,
            IVL0StmtKindView::Assert { condition, .. } => condition.well_typed(typing)
                && condition.ty == Type::Bool,
            IVL0StmtKindView::Sequence(a, b) => a.well_typed(typing) && b.well_typed(typing),
            IVL0StmtKindView::NonDet(a, b) => a.well_typed(typing) && b.well_typed(typing),
        }
    }
}

/// A well-typed expression has a value of its type in every state that gives
/// the variables values of their types.
pub proof fn lemma_eval_typed(e: ExprView, typing: Typing, state: State)
    requires
        e.well_typed(typing),
        admissible(state, typed(typing)),
    ensures
        e.eval(state).has_type(e.ty),
    decreases e,
{
    match e.kind {
        ExprKindView::Ident(x) => {
            assert(typed(typing)(Variable::Program(x), state(Variable::Program(x))));
        },
        ExprKindView::Symbol(x, index) => {
            assert(typed(typing)(Variable::Symbol(x, index), state(Variable::Symbol(x, index))));
        },
        ExprKindView::Prefix(_, inner) => {
            lemma_eval_typed(*inner, typing, state);
        },
        ExprKindView::Infix(l, _, r) => {
            lemma_eval_typed(*l, typing, state);
            lemma_eval_typed(*r, typing, state);
        },
        _ => {},
    }
}

/// A well-typed command keeps every variable at a value of its type.
pub proof fn lemma_well_typed_keeps(term: IVL0StmtView, typing: Typing)
    requires
        term.well_typed(typing),
    ensures
        term.keeps(typed(typing)),
        symbols_as_variables(typed(typing)),
    decreases term,
{
    match term.kind {
        IVL0StmtKindView::Assignment { name, expr } => {
            assert forall|state: State| admissible(state, typed(typing)) implies typed(typing)(
                Variable::Program(name),
                #[trigger] expr.eval(state),
            ) by {
                lemma_eval_typed(expr, typing, state);
            }
        },
        IVL0StmtKindView::Sequence(a, b) => {
            lemma_well_typed_keeps(*a, typing);
            lemma_well_typed_keeps(*b, typing);
        },
        IVL0StmtKindView::NonDet(a, b) => {
            lemma_well_typed_keeps(*a, typing);
            lemma_well_typed_keeps(*b, typing);
        },
        _ => {},
    }
}

/// Soundness for a solver that gives every variable a value of its type.
/// Take a method whose lowered body is well typed, and let no well-typed
/// state satisfy its assumption and its refutation together. Then from
/// every well-typed state in which all that the method requires holds, every
/// execution of its body passes all its assertions, where a havoc gives its
/// variable any value of its type.
pub proof fn lemma_verified_typed_method_is_safe(method: MethodView, typing: Typing, state: State)
    requires
        method.body is Some,
        method.body_obligation() is Ok,
        method.body->0.lower()->Ok_0.well_typed(typing),
        forall|s: State|
            admissible(s, typed(typing)) ==> !(
            #[trigger] method.body_obligation()->Ok_0.assumption.holds(s)
                && method.body_obligation()->Ok_0.refutation.holds(s)),
        admissible(state, typed(typing)),
        ExprView::all(method.requires).holds(state),
    ensures
        method.body->0.lower()->Ok_0.safe(typed(typing), anywhere(), state),
{
    lemma_well_typed_keeps(method.body->0.lower()->Ok_0, typing);
    lemma_verified_method_is_safe(method, typed(typing), state);
}

} // verus!
