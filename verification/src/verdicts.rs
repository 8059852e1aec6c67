//! What the calculus and the answers of the solver come to for whole
//! methods: which methods verify, which fail, and what a run reports.

use vstd::prelude::*;
use crate::discharge::{
    plan, reached, transcript, upcoming, ActionView, ObligationView, OutcomeView, VerifyError,
};
use crate::expr::{max_nat, ExprKindView, ExprView};
use crate::ivl0::IVL0StmtView;
use crate::lowering::{
    assert_message, branch, default_branch, guards, lower_cases, no_case_message, LoweringError,
};
use crate::report::{DiagnosticView, Severity};
use crate::semantics::{
    lemma_havoc_then_condition_verifies, lemma_wp_choice, lemma_wp_guarded_assertion, State,
    Value, Variable,
};
use crate::stmt::{MethodView, StmtKindView, StmtView};
use crate::wp::lemma_wp_location;

verus! {

/// A conjunction holds exactly where each of its parts holds.
pub proof fn lemma_all_holds(exprs: Seq<ExprView>, state: State)
    ensures
        ExprView::all(exprs).holds(state) <==> forall|i: int|
            0 <= i < exprs.len() ==> (#[trigger] exprs[i]).holds(state),
    decreases exprs.len(),
{
    if exprs.len() >= 2 {
        let front = exprs.drop_last();
        lemma_all_holds(front, state);
        assert(forall|i: int| 0 <= i < front.len() ==> front[i] == exprs[i]);
        if ExprView::all(exprs).holds(state) {
            assert forall|i: int| 0 <= i < exprs.len() implies (#[trigger] exprs[i]).holds(
                state,
            ) by {
                if i < front.len() {
                    assert(front[i].holds(state));
                }
            }
        }
    }
}

/// The run over a file of one method that can be put to the solver reports
/// what the one answer means, and nothing else, and is done.
pub proof fn lemma_run_of_one(method: MethodView, answer: OutcomeView)
    requires
        method.body is Some,
        method.body_obligation() is Ok,
    ensures
        transcript(seq![method], 0, seq![answer]) == match method.body_obligation()->Ok_0.diagnosis(
            answer,
        ) {
            Some(diagnostic) => seq![diagnostic],
            None => Seq::empty(),
        },
        plan(seq![method], reached(seq![method], 0, seq![answer])) == ActionView::Done,
{
    let methods = seq![method];
    let answers = seq![answer];
    assert(plan(methods, 0) == ActionView::Check(method.body_obligation()->Ok_0));
    assert(answers.drop_first().len() == 0);
    assert(transcript(methods, 1, answers.drop_first()) =~= Seq::empty());
    assert(transcript(methods, 0, answers) =~= match method.body_obligation()->Ok_0.diagnosis(answer) {
        Some(diagnostic) => seq![diagnostic],
        None => Seq::empty(),
    });
    assert(reached(methods, 1, answers.drop_first()) == 1);
    assert(reached(methods, 0, answers) == 1);
}

/// A method whose body is one assertion has an obligation, whatever it
/// requires: no solver symbol is needed. Its condition is the asserted
/// condition, at the location of the assertion and under its message.
pub proof fn lemma_obligation_of_assertion(method: MethodView)
    requires
        method.body is Some,
        method.body->0.kind is Assert,
    ensures
        method.body_obligation() is Ok,
        method.body_obligation()->Ok_0.assumption == ExprView::all(method.requires),
        method.body_obligation()->Ok_0.condition == method.body->0.kind->Assert_condition.and(
            ExprView::bool(true),
        ).with_span(method.body->0.span),
        method.body_obligation()->Ok_0.message == assert_message(),
{
    let term = method.body->0.lower()->Ok_0;
    assert(term.havocs() == 0);
    assert(term.first_assertion() == Some((method.body->0.span, assert_message())));
}

/// A method that requires nothing and whose body asserts the literal `true`
/// verifies: its condition holds in every state, so no state refutes it, and
/// the answer that nothing does is reported as nothing: the run over the
/// method has no diagnostic.
pub proof fn lemma_assert_true_verifies(method: MethodView)
    requires
        method.requires.len() == 0,
        method.body is Some,
        method.body->0.kind is Assert,
        method.body->0.kind->Assert_condition.kind == ExprKindView::Bool(true),
    ensures
        method.body_obligation() is Ok,
        method.body_obligation()->Ok_0.assumption == ExprView::bool(true),
        method.body_obligation()->Ok_0.condition.valid(),
        forall|state: State| !method.body_obligation()->Ok_0.refutation.holds(state),
        method.body_obligation()->Ok_0.diagnosis(OutcomeView::Unsat) is None,
        transcript(seq![method], 0, seq![OutcomeView::Unsat]) == Seq::<DiagnosticView>::empty(),
        plan(seq![method], reached(seq![method], 0, seq![OutcomeView::Unsat]))
            == ActionView::Done,
{
    let asserted = method.body->0.kind->Assert_condition;
    let post = ExprView::bool(true);
    let obligation = method.body_obligation()->Ok_0;
    lemma_obligation_of_assertion(method);
    assert forall|state: State|
        obligation.condition.holds(state) && !obligation.refutation.holds(state) by {
        assert(asserted.eval(state) == Value::Bool(true));
        assert(post.eval(state) == Value::Bool(true));
        assert(obligation.condition.eval(state) == Value::Bool(true));
        assert(obligation.refutation.eval(state) == Value::Bool(false));
    }
    lemma_run_of_one(method, OutcomeView::Unsat);
}

/// A method that requires nothing and whose body asserts the literal `false`
/// fails: every state refutes its condition, and the answer that one does is
/// reported as an error, at the assertion, under its message and with the
/// values that the solver gave: the run over the method has that one
/// diagnostic.
pub proof fn lemma_assert_false_fails(method: MethodView, model: Seq<char>)
    requires
        method.requires.len() == 0,
        method.body is Some,
        method.body->0.kind is Assert,
        method.body->0.kind->Assert_condition.kind == ExprKindView::Bool(false),
    ensures
        method.body_obligation() is Ok,
        forall|state: State|
            method.body_obligation()->Ok_0.assumption.holds(state)
                && method.body_obligation()->Ok_0.refutation.holds(state),
        method.body_obligation()->Ok_0.diagnosis(OutcomeView::Sat(model)) == Some(
            DiagnosticView {
                severity: Severity::Error,
                span: method.body->0.span,
                text: assert_message() + ": "@ + model,
            },
        ),
        transcript(seq![method], 0, seq![OutcomeView::Sat(model)]) == seq![
            DiagnosticView {
                severity: Severity::Error,
                span: method.body->0.span,
                text: assert_message() + ": "@ + model,
            },
        ],
        plan(seq![method], reached(seq![method], 0, seq![OutcomeView::Sat(model)]))
            == ActionView::Done,
{
    let asserted = method.body->0.kind->Assert_condition;
    let obligation = method.body_obligation()->Ok_0;
    lemma_obligation_of_assertion(method);
    assert forall|state: State|
        obligation.assumption.holds(state) && obligation.refutation.holds(state) by {
        assert(asserted.eval(state) == Value::Bool(false));
        assert(obligation.condition.eval(state) == Value::Bool(false));
        assert(obligation.refutation.eval(state) == Value::Bool(true));
    }
    lemma_run_of_one(method, OutcomeView::Sat(model));
}

/// What a method requires reaches its body: where the body asserts a
/// condition that means the same as one of the requirements, the condition
/// of the method follows from its assumption in every state, and the run
/// over the method, with the answer that nothing refutes it, has no
/// diagnostic.
pub proof fn lemma_requirement_verifies(method: MethodView, i: int)
    requires
        0 <= i < method.requires.len(),
        method.body is Some,
        method.body->0.kind is Assert,
        forall|state: State|
            method.body->0.kind->Assert_condition.eval(state) == method.requires[i].eval(state),
    ensures
        method.body_obligation() is Ok,
        forall|state: State|
            !(method.body_obligation()->Ok_0.assumption.holds(state)
                && method.body_obligation()->Ok_0.refutation.holds(state)),
        transcript(seq![method], 0, seq![OutcomeView::Unsat]) == Seq::<DiagnosticView>::empty(),
        plan(seq![method], reached(seq![method], 0, seq![OutcomeView::Unsat]))
            == ActionView::Done,
{
    let obligation = method.body_obligation()->Ok_0;
    let asserted = method.body->0.kind->Assert_condition;
    let post = ExprView::bool(true);
    lemma_obligation_of_assertion(method);
    assert forall|state: State|
        !(obligation.assumption.holds(state) && obligation.refutation.holds(state)) by {
        if obligation.assumption.holds(state) {
            lemma_all_holds(method.requires, state);
            assert(method.requires[i].holds(state));
            assert(asserted.eval(state) == Value::Bool(true));
            assert(post.eval(state) == Value::Bool(true));
            assert(obligation.condition.eval(state) == Value::Bool(true));
        }
    }
    lemma_run_of_one(method, OutcomeView::Unsat);
}

/// Whether `body` is the three statements in sequence, nested either way.
pub open spec fn in_sequence(
    body: StmtView,
    first: StmtView,
    second: StmtView,
    third: StmtView,
) -> bool {
    match body.kind {
        StmtKindView::Sequence(p, q) => {
            ||| *p == first && q.kind == StmtKindView::Sequence(Box::new(second), Box::new(third))
            ||| *q == third && p.kind == StmtKindView::Sequence(Box::new(first), Box::new(second))
        },
        _ => false,
    }
}

/// A variable that is declared without a value, then taken to meet a
/// condition, meets it, whatever the method requires of a variable of that
/// name: the condition of the method holds in every state and does not
/// mention the variable, no state refutes it, and the run over the method,
/// with the answer that nothing does, has no diagnostic and is done.
///
/// A symbol has to be left for the variable: what the method requires and
/// the two conditions hold no symbol with the greatest number.
pub proof fn lemma_havocked_variable_verifies(
    method: MethodView,
    declared: StmtView,
    taken: StmtView,
    checked: StmtView,
)
    requires
        method.body is Some,
        in_sequence(method.body->0, declared, taken, checked),
        declared.kind is VarDefinition,
        declared.kind->VarDefinition_init is None,
        taken.kind is Assume,
        checked.kind is Assert,
        forall|state: State|
            taken.kind->Assume_condition.eval(state) == checked.kind->Assert_condition.eval(state),
        ExprView::all(method.requires).symbol_bound() <= u64::MAX,
        taken.kind->Assume_condition.symbol_bound() <= u64::MAX,
        checked.kind->Assert_condition.symbol_bound() <= u64::MAX,
    ensures
        method.body_obligation() is Ok,
        method.body_obligation()->Ok_0.assumption == ExprView::all(method.requires),
        method.body_obligation()->Ok_0.condition.valid(),
        !method.body_obligation()->Ok_0.condition.mentions(declared.kind->VarDefinition_name),
        forall|state: State|
            !(method.body_obligation()->Ok_0.assumption.holds(state)
                && method.body_obligation()->Ok_0.refutation.holds(state)),
        method.body_obligation()->Ok_0.diagnosis(OutcomeView::Unsat) is None,
        transcript(seq![method], 0, seq![OutcomeView::Unsat]) == Seq::<DiagnosticView>::empty(),
        plan(seq![method], reached(seq![method], 0, seq![OutcomeView::Unsat]))
            == ActionView::Done,
{
    let body = method.body->0;
    let havoc = declared.lower()->Ok_0;
    let assumed = taken.lower()->Ok_0;
    let asserted = checked.lower()->Ok_0;
    let post = ExprView::bool(true);
    assert(havoc.kind is Havoc && assumed.kind is Assume && asserted.kind is Assert);
    assert(havoc.havocs() == 1 && assumed.havocs() == 0 && asserted.havocs() == 0);
    let term = body.lower()->Ok_0;
    match body.kind {
        StmtKindView::Sequence(p, q) => {
            if *p == declared && q.kind == StmtKindView::Sequence(
                Box::new(taken),
                Box::new(checked),
            ) {
                assert(q.lower() == Ok::<IVL0StmtView, LoweringError>(assumed.seq(asserted)));
                assert(body.lower() == Ok::<IVL0StmtView, LoweringError>(
                    havoc.seq(assumed.seq(asserted)),
                ));
            } else {
                assert(p.lower() == Ok::<IVL0StmtView, LoweringError>(havoc.seq(assumed)));
                assert(body.lower() == Ok::<IVL0StmtView, LoweringError>(
                    havoc.seq(assumed).seq(asserted),
                ));
            }
        },
        _ => {},
    }
    assert(term == havoc.seq(assumed.seq(asserted)) || term == havoc.seq(assumed).seq(asserted));
    assert(assumed.seq(asserted).havocs() == 0);
    assert(havoc.seq(assumed).havocs() == 1);
    assert(term.havocs() == 1);
    assert(havoc.symbol_bound() == 0);
    assert(assumed.symbol_bound() == taken.kind->Assume_condition.symbol_bound());
    assert(asserted.symbol_bound() == checked.kind->Assert_condition.symbol_bound());
    assert(havoc.seq(assumed).symbol_bound() <= u64::MAX);
    assert(assumed.seq(asserted).symbol_bound() <= u64::MAX);
    assert(term.symbol_bound() <= u64::MAX);
    let first = max_nat(
        ExprView::all(method.requires).symbol_bound(),
        term.first_symbol(post),
    );
    assert(term.symbols_suffice(first));
    let obligation = method.body_obligation()->Ok_0;
    lemma_havoc_then_condition_verifies(havoc, assumed, asserted, first);
    assert(obligation.condition == havoc.seq(assumed.seq(asserted)).wp(post, first));
    assert forall|state: State|
        !(obligation.assumption.holds(state) && obligation.refutation.holds(state)) by {
        assert(obligation.condition.holds(state));
    }
    lemma_run_of_one(method, OutcomeView::Unsat);
}

/// Whether `body` is a match of two branches, each an assertion.
pub open spec fn choice_of_assertions(body: StmtView) -> bool {
    &&& body.kind is Match
    &&& body.kind->cases.len() == 2
    &&& body.kind->cases[0].stmt.kind is Assert
    &&& body.kind->cases[1].stmt.kind is Assert
}

/// The command that a match of two branches stands for: the choice among
/// the first branch, the second, and the branch in which no guard holds.
pub proof fn lemma_lower_match_of_two(body: StmtView)
    requires
        body.kind is Match,
        body.kind->cases.len() == 2,
        body.kind->cases[0].stmt.lower() is Ok,
        body.kind->cases[1].stmt.lower() is Ok,
    ensures
        body.lower() == Ok::<IVL0StmtView, LoweringError>(
            branch(
                body.kind->cases[0].condition,
                body.kind->cases[0].stmt.lower()->Ok_0,
            ).nondet(
                branch(
                    body.kind->cases[1].condition,
                    body.kind->cases[1].stmt.lower()->Ok_0,
                ).nondet(default_branch(body.kind->cases, body.span)),
            ),
        ),
{
    let cases = body.kind->cases;
    let one = cases.drop_last();
    let none = one.drop_last();
    let first = branch(cases[0].condition, cases[0].stmt.lower()->Ok_0);
    let second = branch(cases[1].condition, cases[1].stmt.lower()->Ok_0);
    let otherwise = default_branch(cases, body.span);
    assert(none.len() == 0);
    assert(lower_cases(none) == Ok::<Seq<IVL0StmtView>, LoweringError>(
        Seq::empty(),
    ));
    assert(one.last() == cases[0]);
    assert(lower_cases(one) == Ok::<Seq<IVL0StmtView>, LoweringError>(
        Seq::<IVL0StmtView>::empty().push(first),
    ));
    assert(cases.last() == cases[1]);
    let branches = Seq::<IVL0StmtView>::empty().push(first).push(second);
    assert(lower_cases(cases) == Ok::<Seq<IVL0StmtView>, LoweringError>(
        branches,
    ));
    let all = branches.push(otherwise);
    assert(all.len() == 3 && all[0] == first);
    let rest = all.skip(1);
    assert(rest.len() == 2 && rest[0] == second);
    let last = rest.skip(1);
    assert(last.len() == 1 && last[0] == otherwise);
    assert(IVL0StmtView::nondets(last) == otherwise);
    assert(IVL0StmtView::nondets(rest) == second.nondet(otherwise));
    assert(IVL0StmtView::nondets(all) == first.nondet(second.nondet(otherwise)));
}

/// The condition of a method whose body chooses between two assertions
/// holds exactly where each guard that holds has a condition that holds, and
/// one of the guards holds. The method has an obligation whatever it
/// requires, under the message of its first assertion and at its location.
pub proof fn lemma_choice_of_assertions(method: MethodView, state: State)
    requires
        method.body is Some,
        choice_of_assertions(method.body->0),
    ensures
        method.body_obligation() is Ok,
        method.body_obligation()->Ok_0.assumption == ExprView::all(method.requires),
        method.body_obligation()->Ok_0.message == assert_message(),
        method.body_obligation()->Ok_0.condition.span == method.body->0.kind->cases[0].stmt.span,
        method.body_obligation()->Ok_0.condition.holds(state) == {
            let cases = method.body->0.kind->cases;
            &&& cases[0].condition.holds(state) ==> cases[0].stmt.kind->Assert_condition.holds(
                state,
            )
            &&& cases[1].condition.holds(state) ==> cases[1].stmt.kind->Assert_condition.holds(
                state,
            )
            &&& cases[0].condition.holds(state) || cases[1].condition.holds(state)
        },
        method.body_obligation()->Ok_0.refutation.holds(state) == !method.body_obligation()->Ok_0.condition.holds(
            state,
        ),
{
    let body = method.body->0;
    let cases = body.kind->cases;
    let post = ExprView::bool(true);
    let guard0 = IVL0StmtView::assuming(cases[0].condition).with_span(cases[0].condition.span);
    let guard1 = IVL0StmtView::assuming(cases[1].condition).with_span(cases[1].condition.span);
    let check0 = cases[0].stmt.lower()->Ok_0;
    let check1 = cases[1].stmt.lower()->Ok_0;
    let first = guard0.seq(check0);
    let second = guard1.seq(check1);
    let nowhere = IVL0StmtView::assuming(ExprView::any(guards(cases)).not());
    let fails = IVL0StmtView::asserting(ExprView::bool(false), no_case_message()).with_span(
        body.span,
    );
    let otherwise = nowhere.seq(fails);
    lemma_lower_match_of_two(body);
    let term = body.lower()->Ok_0;
    assert(term == first.nondet(second.nondet(otherwise)));
    let start = max_nat(
        ExprView::all(method.requires).symbol_bound(),
        term.first_symbol(post),
    );
    lemma_wp_guarded_assertion(guard0, check0, post, start, state);
    lemma_wp_guarded_assertion(guard1, check1, post, start, state);
    lemma_wp_guarded_assertion(nowhere, fails, post, start, state);
    assert(second.nondet(otherwise).havocs() == 0);
    assert(term.havocs() == 0);
    assert(term.symbols_suffice(start));
    let obligation = method.body_obligation()->Ok_0;
    assert(obligation.condition == term.wp(post, start));
    lemma_wp_choice(term, post, start, state);
    lemma_wp_choice(second.nondet(otherwise), post, start, state);
    // the branch that no guard leads to
    let either = ExprView::any(guards(cases));
    assert(guards(cases).len() == 2);
    assert(guards(cases).drop_last().len() == 1);
    assert(ExprView::any(guards(cases).drop_last()) == cases[0].condition);
    assert(either == cases[0].condition.or(cases[1].condition));
    assert(either.holds(state) == (cases[0].condition.holds(state) || cases[1].condition.holds(
        state,
    )));
    assert(either.not().holds(state) == !either.holds(state));
    assert(!ExprView::bool(false).holds(state));
    assert(post.holds(state));
    // message and location are those of the first assertion
    assert(check0.first_assertion() == Some((cases[0].stmt.span, assert_message())));
    assert(guard0.first_assertion() is None);
    assert(first.first_assertion() == Some((cases[0].stmt.span, assert_message())));
    assert(term.first_assertion() == Some((cases[0].stmt.span, assert_message())));
    lemma_wp_location(term, post, start);
    assert(obligation.refutation.eval(state) == Value::Bool(!obligation.condition.holds(state)));
}

/// A choice between two assertions of the literal `true` verifies where
/// the guards leave no state out: no state refutes the condition of the
/// method, and the run over it, with the answer that nothing does, has no
/// diagnostic and is done.
pub proof fn lemma_choice_of_sound_branches_verifies(method: MethodView)
    requires
        method.body is Some,
        choice_of_assertions(method.body->0),
        method.body->0.kind->cases[0].stmt.kind->Assert_condition.kind == ExprKindView::Bool(true),
        method.body->0.kind->cases[1].stmt.kind->Assert_condition.kind == ExprKindView::Bool(true),
        forall|state: State|
            method.body->0.kind->cases[0].condition.holds(state)
                || method.body->0.kind->cases[1].condition.holds(state),
    ensures
        method.body_obligation() is Ok,
        method.body_obligation()->Ok_0.condition.valid(),
        forall|state: State| !method.body_obligation()->Ok_0.refutation.holds(state),
        transcript(seq![method], 0, seq![OutcomeView::Unsat]) == Seq::<DiagnosticView>::empty(),
        plan(seq![method], reached(seq![method], 0, seq![OutcomeView::Unsat]))
            == ActionView::Done,
{
    let cases = method.body->0.kind->cases;
    let obligation = method.body_obligation()->Ok_0;
    assert forall|state: State|
        obligation.condition.holds(state) && !obligation.refutation.holds(state) by {
        lemma_choice_of_assertions(method, state);
        assert(cases[0].stmt.kind->Assert_condition.eval(state) == Value::Bool(true));
        assert(cases[1].stmt.kind->Assert_condition.eval(state) == Value::Bool(true));
    }
    lemma_choice_of_assertions(method, |v: Variable| Value::Bool(true));
    lemma_run_of_one(method, OutcomeView::Unsat);
}

/// A choice fails where one of its branches does, whichever: let the
/// branch numbered `failing` assert the literal `false`, and let its guard
/// hold in `state`. Then `state` refutes the condition of the method,
/// whatever the other branch asserts, and the answer that a state does is
/// reported as one error, under the message of the first assertion and at
/// its location: the run over the method has that one diagnostic and is
/// done.
pub proof fn lemma_choice_with_failing_branch_fails(
    method: MethodView,
    failing: int,
    state: State,
    model: Seq<char>,
)
    requires
        method.body is Some,
        choice_of_assertions(method.body->0),
        0 <= failing < 2,
        method.body->0.kind->cases[failing].stmt.kind->Assert_condition.kind
            == ExprKindView::Bool(false),
        method.body->0.kind->cases[failing].condition.holds(state),
        ExprView::all(method.requires).holds(state),
    ensures
        method.body_obligation() is Ok,
        method.body_obligation()->Ok_0.assumption.holds(state),
        method.body_obligation()->Ok_0.refutation.holds(state),
        transcript(seq![method], 0, seq![OutcomeView::Sat(model)]) == seq![
            DiagnosticView {
                severity: Severity::Error,
                span: method.body->0.kind->cases[0].stmt.span,
                text: assert_message() + ": "@ + model,
            },
        ],
        plan(seq![method], reached(seq![method], 0, seq![OutcomeView::Sat(model)]))
            == ActionView::Done,
{
    let cases = method.body->0.kind->cases;
    lemma_choice_of_assertions(method, state);
    assert(cases[failing].stmt.kind->Assert_condition.eval(state) == Value::Bool(false));
    lemma_run_of_one(method, OutcomeView::Sat(model));
}

/// Each method is checked by itself: what is put to the solver for the
/// method with a body at `position` is what is put for that method alone,
/// whatever stands before it in the file and whatever the solver answered
/// there.
pub proof fn lemma_checked_in_isolation(methods: Seq<MethodView>, position: nat)
    requires
        position < methods.len(),
        methods[position as int].body is Some,
    ensures
        plan(methods, position) == plan(seq![methods[position as int]], 0),
{
}

/// A method without a body is passed over: nothing has to be proved of it,
/// nothing is put to the solver for it, and the run goes on with the next
/// method as if it were not there, so nothing is reported for it.
pub proof fn lemma_method_without_body_is_passed_over(
    methods: Seq<MethodView>,
    position: nat,
    answers: Seq<OutcomeView>,
)
    requires
        position < methods.len(),
        methods[position as int].body is None,
    ensures
        methods[position as int].obligation() == Ok::<Option<ObligationView>, VerifyError>(None),
        plan(methods, position) == plan(methods, position + 1),
        transcript(methods, position, answers) == transcript(methods, position + 1, answers),
        reached(methods, position, answers) == reached(methods, position + 1, answers),
{
}

/// A file without a method that has a body is done at once, whatever the
/// solver would answer: nothing is reported.
pub proof fn lemma_nothing_to_check(methods: Seq<MethodView>, answers: Seq<OutcomeView>)
    requires
        forall|i: int| 0 <= i < methods.len() ==> (#[trigger] methods[i]).body is None,
    ensures
        plan(methods, 0) == ActionView::Done,
        transcript(methods, 0, answers) == Seq::<DiagnosticView>::empty(),
        reached(methods, 0, answers) == methods.len(),
{
    lemma_passes_to_the_end(methods, 0);
}

/// Where no method from `position` on has a body, all are passed over.
proof fn lemma_passes_to_the_end(methods: Seq<MethodView>, position: nat)
    requires
        position <= methods.len(),
        forall|i: int| position <= i < methods.len() ==> (#[trigger] methods[i]).body is None,
    ensures
        upcoming(methods, position) == methods.len(),
    decreases methods.len() - position,
{
    if position < methods.len() {
        lemma_passes_to_the_end(methods, position + 1);
    }
}

/// Verifying a file again reports the same: where the solver gives the same
/// answers, the diagnostics of the two runs are the same, text for text.
pub proof fn lemma_rerun_reports_the_same(
    methods: Seq<MethodView>,
    answers: Seq<OutcomeView>,
    again: Seq<OutcomeView>,
)
    requires
        answers =~= again,
    ensures
        transcript(methods, 0, answers) == transcript(methods, 0, again),
{
}

} // verus!
