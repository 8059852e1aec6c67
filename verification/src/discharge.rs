//! Discharging verification conditions.
//!
//! For each method of a file that has a body, in source order, the library
//! says what has to be put to a satisfiability solver, and what the solver's
//! answer means. A method without a body is passed over.
//! The solver itself is driven by the caller: it checks each obligation in a
//! scope of its own, in which it takes the assumption and the refutation to
//! hold, and hands back the answer.

use vstd::prelude::*;
use crate::expr::{Expr, ExprView};
use crate::lowering::{stmt_to_ivl0stmt, LoweringError};
use crate::report::{diagnostic_views, lemma_views_push, Diagnostic, DiagnosticView, Severity};
use crate::stmt::{Method, MethodView, SourceFile};
use crate::expr::max_nat;
use crate::wp::{wp_above, WpError};

verus! {

/// Why a method could not be put to the solver.
#[derive(Clone, Copy, Debug, PartialEq, Eq)]
pub enum VerifyError {
    Lowering(LoweringError),
    Wp(WpError),
}

/// What the solver answered to one check.
#[derive(Debug, PartialEq, Eq)]
pub enum Outcome {
    /// The assertions can hold together; the text shows values with which
    /// they do.
    Sat(String),
    /// The assertions cannot hold together.
    Unsat,
    /// The solver could not decide.
    Unknown,
}

/// The mathematical value of an [`Outcome`].
pub enum OutcomeView {
    Sat(Seq<char>),
    Unsat,
    Unknown,
}

impl View for Outcome {
    type V = OutcomeView;

    open spec fn view(&self) -> OutcomeView {
        match self {
            Outcome::Sat(model) => OutcomeView::Sat(model@),
            Outcome::Unsat => OutcomeView::Unsat,
            Outcome::Unknown => OutcomeView::Unknown,
        }
    }
}

/// What has to be proved of one method.
#[derive(Debug, PartialEq, Eq)]
pub struct Obligation {
    /// What the method requires of its callers, as one formula.
    pub assumption: Expr,
    /// The verification condition: what has to follow from the assumption.
    pub condition: Expr,
    /// The negation of the condition. The condition follows from the
    /// assumption exactly if assumption and refutation cannot hold together.
    pub refutation: Expr,
    /// What to report where the condition does not follow.
    pub message: String,
}

/// The mathematical value of an [`Obligation`].
pub struct ObligationView {
    pub assumption: ExprView,
    pub condition: ExprView,
    pub refutation: ExprView,
    pub message: Seq<char>,
}

impl View for Obligation {
    type V = ObligationView;

    open spec fn view(&self) -> ObligationView {
        ObligationView {
            assumption: self.assumption@,
            condition: self.condition@,
            refutation: self.refutation@,
            message: self.message@,
        }
    }
}

impl Clone for Obligation {
    fn clone(&self) -> (res: Self)
        ensures
            res == *self,
    {
        Obligation {
            assumption: self.assumption.clone(),
            condition: self.condition.clone(),
            refutation: self.refutation.clone(),
            message: self.message.clone(),
        }
    }
}

impl MethodView {
    /// What has to be proved of the method. Of a method without a body
    /// nothing has to be: it is `Ok(None)`. Of one with a body it is
    /// [`body_obligation`](Self::body_obligation).
    pub open spec fn obligation(self) -> Result<Option<ObligationView>, VerifyError> {
        match self.body {
            None => Ok(None),
            Some(_) => match self.body_obligation() {
                Ok(obligation) => Ok(Some(obligation)),
                Err(e) => Err(e),
            },
        }
    }

    /// The obligation of a method with a body: its body, lowered, must not
    /// fail an assertion from any state in which all it requires holds.
    ///
    /// The solver symbols of the condition are numbered above those of the
    /// assumption, so the assumption says nothing of them. There is no
    /// obligation where the body has no encoding, or where a havoc of the
    /// body is left without a number for its symbol.
    pub open spec fn body_obligation(self) -> Result<ObligationView, VerifyError>
        recommends
            self.body is Some,
    {
        let assumption = ExprView::all(self.requires);
        let post = ExprView::bool(true);
        match self.body->0.lower() {
            Err(e) => Err(VerifyError::Lowering(e)),
            Ok(term) => {
                let first = max_nat(assumption.symbol_bound(), term.first_symbol(post));
                if !term.symbols_suffice(first) {
                    Err(VerifyError::Wp(WpError::SymbolsExhausted))
                } else {
                    let condition = term.wp(post, first);
                    Ok(
                        ObligationView {
                            assumption,
                            condition,
                            refutation: condition.not(),
                            message: term.message(Seq::empty()),
                        },
                    )
                }
            },
        }
    }
}

/// The text of the warning for a check that the solver could not decide. It
/// is the same for every obligation.
pub open spec fn undecided_text() -> Seq<char> {
    "{msg}: unknown sat result"@
}

impl ObligationView {
    /// What an answer of the solver means for the obligation: with values
    /// that refute the condition it is an error, under the message of the
    /// obligation and shown with those values; an undecided check is a
    /// warning, under the fixed text [`undecided_text`]; a refutation that
    /// cannot hold is the proof, and nothing is reported. Either diagnostic is
    /// located where the condition is.
    pub open spec fn diagnosis(self, outcome: OutcomeView) -> Option<DiagnosticView> {
        match outcome {
            OutcomeView::Sat(model) => Some(
                DiagnosticView {
                    severity: Severity::Error,
                    span: self.condition.span,
                    text: self.message + ": "@ + model,
                },
            ),
            OutcomeView::Unknown => Some(
                DiagnosticView {
                    severity: Severity::Warning,
                    span: self.condition.span,
                    text: undecided_text(),
                },
            ),
            OutcomeView::Unsat => None,
        }
    }
}

/// The verifier of method bodies.
pub struct App;

impl App {
    /// What has to be proved of `method`: nothing where it has no body.
    pub fn obligation(&self, method: &Method) -> (res: Result<Option<Obligation>, VerifyError>)
        ensures
            match res {
                Ok(Some(obligation)) => method@.obligation() == Ok::<
                    Option<ObligationView>,
                    VerifyError,
                >(Some(obligation@)),
                Ok(None) => method@.obligation() == Ok::<Option<ObligationView>, VerifyError>(None),
                Err(e) => method@.obligation() == Err::<Option<ObligationView>, VerifyError>(e),
            },
    {
        let body = match &method.body {
            Some(body) => body,
            None => {
                return Ok(None);
            },
        };
        let assumption = Expr::all(&method.requires);
        let term = match stmt_to_ivl0stmt(body) {
            Ok(term) => term,
            Err(e) => {
                return Err(VerifyError::Lowering(e));
            },
        };
        match wp_above(&term, &Expr::bool(true), assumption.symbol_bound()) {
            Ok((condition, message)) => {
                let refutation = condition.not();
                Ok(Some(Obligation { assumption, condition, refutation, message }))
            },
            Err(e) => Err(VerifyError::Wp(e)),
        }
    }

    /// What `outcome`, the solver's answer to `obligation`, is reported as.
    pub fn conclude(&self, obligation: &Obligation, outcome: &Outcome) -> (res: Option<Diagnostic>)
        ensures
            match res {
                Some(diagnostic) => obligation@.diagnosis(outcome@) == Some(diagnostic@),
                None => obligation@.diagnosis(outcome@) is None,
            },
    {
        match outcome {
            Outcome::Sat(model) => {
                let mut text = obligation.message.clone();
                text.append(": ");
                text.append(model.as_str());
                Some(Diagnostic { severity: Severity::Error, span: obligation.condition.span, text })
            },
            Outcome::Unknown => Some(
                Diagnostic {
                    severity: Severity::Warning,
                    span: obligation.condition.span,
                    text: "{msg}: unknown sat result".to_owned(),
                },
            ),
            Outcome::Unsat => None,
        }
    }

    /// Analyses `file` with the answers that the solver gave, in the order
    /// of its checks, and appends to `cx` what is reported. The result says
    /// how the analysis went on after the last answer that was used: with the
    /// check of the next method, to its end, or to a method that could not be
    /// put to the solver.
    pub fn analyze(&self, cx: &mut Vec<Diagnostic>, file: SourceFile, answers: &Vec<Outcome>) -> (res:
        Action)
        ensures
            diagnostic_views(final(cx)@) == diagnostic_views(old(cx)@) + transcript(
                file@,
                0,
                outcome_views(answers@),
            ),
            res@ == plan(file@, reached(file@, 0, outcome_views(answers@))),
    {
        let ghost methods = file@;
        let ghost all = outcome_views(answers@);
        let (mut session, mut action) = Session::start(file);
        let mut i: usize = 0;
        let mut checking = matches!(action, Action::Check(_));
        assert(all.skip(0) =~= all);
        proof {
            lemma_settled_run(methods, 0, all);
        }
        assert(diagnostic_views(cx@) + transcript(
            methods,
            session.position(),
            all.skip(0),
        ) =~= diagnostic_views(old(cx)@) + transcript(methods, 0, all));
        while i < answers.len() && checking
            invariant
                i <= answers.len(),
                all == outcome_views(answers@),
                session.wf(),
                session.methods() == methods,
                action@ == plan(methods, session.position()),
                checking == (action@ is Check),
                diagnostic_views(cx@) + transcript(methods, session.position(), all.skip(i as int))
                    == diagnostic_views(old(cx)@) + transcript(methods, 0, all),
                reached(methods, session.position(), all.skip(i as int)) == reached(
                    methods,
                    0,
                    all,
                ),
            decreases answers.len() - i,
        {
            let ghost before = diagnostic_views(cx@);
            let ghost position = session.position();
            assert(all.skip(i as int).first() == answers@[i as int]@);
            assert(all.skip(i as int).drop_first() =~= all.skip(i + 1));
            let (report, next) = session.step(&answers[i]);
            proof {
                lemma_settled_run(methods, position + 1, all.skip(i + 1));
            }
            if let Some(diagnostic) = report {
                proof {
                    lemma_views_push(cx@, diagnostic);
                }
                cx.push(diagnostic);
            }
            assert(diagnostic_views(cx@) + transcript(
                methods,
                session.position(),
                all.skip(i + 1),
            ) =~= before + transcript(methods, position, all.skip(i as int)));
            action = next;
            checking = matches!(action, Action::Check(_));
            i = i + 1;
        }
        assert(transcript(methods, session.position(), all.skip(i as int)) =~= Seq::empty());
        assert(diagnostic_views(cx@) =~= diagnostic_views(old(cx)@) + transcript(methods, 0, all));
        assert(reached(methods, session.position(), all.skip(i as int)) == session.position());
        action
    }
}

/// What the caller has to do next.
#[derive(Debug, PartialEq, Eq)]
pub enum Action {
    /// Check the obligation with the solver, in a scope of its own, and hand
    /// the answer to [`Session::step`].
    Check(Obligation),
    /// Every method has been checked.
    Done,
    /// A method could not be put to the solver; the analysis of the file
    /// ends here.
    Abort(VerifyError),
}

/// The mathematical value of an [`Action`].
pub enum ActionView {
    Check(ObligationView),
    Done,
    Abort(VerifyError),
}

impl View for Action {
    type V = ActionView;

    open spec fn view(&self) -> ActionView {
        match self {
            Action::Check(obligation) => ActionView::Check(obligation@),
            Action::Done => ActionView::Done,
            Action::Abort(e) => ActionView::Abort(*e),
        }
    }
}

/// The first method from `position` on that has a body, or the end of the
/// file: methods without a body are passed over.
pub open spec fn upcoming(methods: Seq<MethodView>, position: nat) -> nat
    decreases methods.len() - position,
{
    if position >= methods.len() {
        position
    } else if methods[position as int].body is None {
        upcoming(methods, position + 1)
    } else {
        position
    }
}

/// What is to be done once the methods before `position` are dealt with:
/// the next method that has a body is checked, or cannot be, or none is
/// left. Of a method without a body nothing is put to the solver.
pub open spec fn plan(methods: Seq<MethodView>, position: nat) -> ActionView {
    let next = upcoming(methods, position);
    if next >= methods.len() {
        ActionView::Done
    } else {
        match methods[next as int].body_obligation() {
            Ok(obligation) => ActionView::Check(obligation),
            Err(e) => ActionView::Abort(e),
        }
    }
}

/// The diagnostics of a whole run, in order, where the solver gives
/// `answers` to the checks in the order in which they are put to it. The run
/// ends with the last method, with the first that cannot be put to the
/// solver, or where the answers end. A method without a body takes no
/// answer and has no diagnostic.
pub open spec fn transcript(
    methods: Seq<MethodView>,
    position: nat,
    answers: Seq<OutcomeView>,
) -> Seq<DiagnosticView>
    decreases answers.len(),
{
    if answers.len() == 0 {
        Seq::empty()
    } else {
        match plan(methods, position) {
            ActionView::Check(obligation) => {
                let rest = transcript(
                    methods,
                    upcoming(methods, position) + 1,
                    answers.drop_first(),
                );
                match obligation.diagnosis(answers.first()) {
                    Some(diagnostic) => seq![diagnostic] + rest,
                    None => rest,
                }
            },
            _ => Seq::empty(),
        }
    }
}

/// How many methods a whole run deals with, where the solver gives
/// `answers`: those without a body, and one with a body for each answer,
/// until the methods or the answers end or a method cannot be put to the
/// solver.
pub open spec fn reached(methods: Seq<MethodView>, position: nat, answers: Seq<OutcomeView>) -> nat
    decreases answers.len(),
{
    if answers.len() == 0 {
        upcoming(methods, position)
    } else {
        match plan(methods, position) {
            ActionView::Check(_) => reached(
                methods,
                upcoming(methods, position) + 1,
                answers.drop_first(),
            ),
            _ => upcoming(methods, position),
        }
    }
}

/// Passing over the methods without a body ends at or after where it
/// began, within the file, at a method with a body if at any; from there it
/// passes over nothing more, and the plan is the same.
pub proof fn lemma_upcoming(methods: Seq<MethodView>, position: nat)
    ensures
        position <= upcoming(methods, position),
        position <= methods.len() ==> upcoming(methods, position) <= methods.len(),
        upcoming(methods, position) < methods.len() ==> methods[upcoming(
            methods,
            position,
        ) as int].body is Some,
        upcoming(methods, upcoming(methods, position)) == upcoming(methods, position),
        plan(methods, upcoming(methods, position)) == plan(methods, position),
    decreases methods.len() - position,
{
    if position < methods.len() && methods[position as int].body is None {
        lemma_upcoming(methods, position + 1);
    }
}

/// A run is the same from a position and from the first method with a body
/// after it.
pub proof fn lemma_settled_run(
    methods: Seq<MethodView>,
    position: nat,
    answers: Seq<OutcomeView>,
)
    ensures
        transcript(methods, upcoming(methods, position), answers) == transcript(
            methods,
            position,
            answers,
        ),
        reached(methods, upcoming(methods, position), answers) == reached(
            methods,
            position,
            answers,
        ),
{
    lemma_upcoming(methods, position);
}

/// The views of the answers of a vector, in order.
pub open spec fn outcome_views(answers: Seq<Outcome>) -> Seq<OutcomeView> {
    Seq::new(answers.len(), |i: int| answers[i]@)
}

/// The analysis of one file: which method is next, and the obligation that
/// is with the solver.
pub struct Session {
    methods: Vec<Method>,
    position: usize,
    pending: Option<Obligation>,
}

impl Session {
    /// The methods of the file under analysis.
    pub closed spec fn methods(&self) -> Seq<MethodView> {
        Seq::new(self.methods@.len(), |i: int| self.methods@[i]@)
    }

    /// How many methods are dealt with: checked or passed over.
    pub closed spec fn position(&self) -> nat {
        self.position as nat
    }

    /// The session stands at a method with a body or at the end of the file,
    /// and holds the obligation that [`plan`] names, if it names one.
    pub closed spec fn wf(&self) -> bool {
        &&& self.position <= self.methods@.len()
        &&& upcoming(self.methods(), self.position()) == self.position()
        &&& match self.pending {
            Some(obligation) => plan(self.methods(), self.position()) == ActionView::Check(
                obligation@,
            ),
            None => !(plan(self.methods(), self.position()) is Check),
        }
    }

    /// Passes over the methods without a body from `self.position` on, and
    /// gives the action for the method that it comes to, which is kept as
    /// pending where it is a check.
    fn advance(&mut self) -> (action: Action)
        requires
            old(self).position <= old(self).methods@.len(),
        ensures
            final(self).wf(),
            final(self).methods() == old(self).methods(),
            final(self).position() == upcoming(old(self).methods(), old(self).position()),
            action@ == plan(old(self).methods(), old(self).position()),
    {
        let count = self.methods.len();
        while self.position < count && self.methods[self.position].body.is_none()
            invariant
                count == self.methods@.len(),
                self.position <= count,
                self.methods() == old(self).methods(),
                upcoming(self.methods(), self.position()) == upcoming(
                    old(self).methods(),
                    old(self).position(),
                ),
            decreases count - self.position,
        {
            assert(self.methods()[self.position as int] == self.methods@[self.position as int]@);
            self.position = self.position + 1;
        }
        proof {
            lemma_upcoming(old(self).methods(), old(self).position());
        }
        if self.position >= count {
            self.pending = None;
            return Action::Done;
        }
        assert(self.methods()[self.position as int] == self.methods@[self.position as int]@);
        match App.obligation(&self.methods[self.position]) {
            Ok(Some(obligation)) => {
                self.pending = Some(obligation.clone());
                Action::Check(obligation)
            },
            Ok(None) => {
                self.pending = None;
                Action::Done
            },
            Err(e) => {
                self.pending = None;
                Action::Abort(e)
            },
        }
    }

    /// Begins the analysis of `file`: the methods without a body at its
    /// beginning are passed over.
    pub fn start(file: SourceFile) -> (res: (Session, Action))
        ensures
            res.0.wf(),
            res.0.methods() == file@,
            res.0.position() == upcoming(file@, 0),
            res.1@ == plan(file@, 0),
    {
        let mut session = Session { methods: file.methods, position: 0, pending: None };
        assert(session.methods() =~= file@);
        let action = session.advance();
        (session, action)
    }

    /// Takes the solver's answer to the pending check, and says what it is
    /// reported as and what to do next: the method is dealt with, and so are
    /// the methods without a body that follow it. Where no check is pending,
    /// the answer is ignored and the last action repeated.
    pub fn step(&mut self, outcome: &Outcome) -> (res: (Option<Diagnostic>, Action))
        requires
            old(self).wf(),
        ensures
            final(self).wf(),
            final(self).methods() == old(self).methods(),
            match plan(old(self).methods(), old(self).position()) {
                ActionView::Check(obligation) => {
                    &&& final(self).position() == upcoming(
                        old(self).methods(),
                        old(self).position() + 1,
                    )
                    &&& match res.0 {
                        Some(diagnostic) => obligation.diagnosis(outcome@) == Some(diagnostic@),
                        None => obligation.diagnosis(outcome@) is None,
                    }
                },
                _ => {
                    &&& final(self).position() == old(self).position()
                    &&& res.0 is None
                },
            },
            res.1@ == plan(final(self).methods(), final(self).position()),
    {
        let count = self.methods.len();
        let report = match &self.pending {
            Some(obligation) => {
                let report = App.conclude(obligation, outcome);
                assert(self.position < count) by {
                    assert(plan(self.methods(), self.position()) is Check);
                }
                self.position = self.position + 1;
                report
            },
            None => None,
        };
        let action = self.advance();
        proof {
            lemma_upcoming(self.methods(), self.position());
        }
        (report, action)
    }
}

} // verus!
