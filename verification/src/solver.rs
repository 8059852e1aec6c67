//! Answers of the `smtlib` solver.

use vstd::prelude::*;
use crate::discharge::{plan, upcoming, Action, ActionView, Outcome, OutcomeView, Session};
use crate::report::{Diagnostic, DiagnosticView};

verus! {

/// `smtlib::SatResultWithModel`: what a check of the solver gave. Nothing is
/// known of what a value of it holds.
#[verifier::external_type_specification]
#[verifier::external_body]
pub struct ExSatResultWithModel<'st>(smtlib::SatResultWithModel<'st>);

/// Reads an answer of the solver: `smtlib::SatResultWithModel` variant by
/// variant, the model of a `Sat` as the text that its `Display` gives.
/// Nothing is claimed of the outcome.
#[verifier::external_body]
fn outcome_of(result: &smtlib::SatResultWithModel<'_>) -> (res: Outcome) {
    match result {
        smtlib::SatResultWithModel::Sat(model) => Outcome::Sat(format!("{model}")),
        smtlib::SatResultWithModel::Unsat => Outcome::Unsat,
        smtlib::SatResultWithModel::Unknown => Outcome::Unknown,
    }
}

/// The view of a diagnostic that may be absent.
pub open spec fn report_view(report: Option<Diagnostic>) -> Option<DiagnosticView> {
    match report {
        Some(diagnostic) => Some(diagnostic@),
        None => None,
    }
}

impl Session {
    /// Takes the solver's own answer to the pending check: as
    /// [`step`](Session::step) on the outcome that the answer stands for.
    pub fn answer(&mut self, result: &smtlib::SatResultWithModel<'_>) -> (res: (
        Option<Diagnostic>,
        Action,
    ))
        requires
            old(self).wf(),
        ensures
            final(self).wf(),
            final(self).methods() == old(self).methods(),
            res.1@ == plan(final(self).methods(), final(self).position()),
            match plan(old(self).methods(), old(self).position()) {
                ActionView::Check(obligation) => {
                    &&& final(self).position() == upcoming(
                        old(self).methods(),
                        old(self).position() + 1,
                    )
                    &&& exists|outcome: OutcomeView|
                        report_view(res.0) == #[trigger] obligation.diagnosis(outcome)
                },
                _ => {
                    &&& final(self).position() == old(self).position()
                    &&& res.0 is None
                },
            },
    {
        let outcome = outcome_of(result);
        let res = self.step(&outcome);
        proof {
            if let ActionView::Check(obligation) = plan(old(self).methods(), old(self).position()) {
                assert(report_view(res.0) == obligation.diagnosis(outcome@));
            }
        }
        res
    }
}

} // verus!
