//! What is reported about a source file.

use vstd::prelude::*;
use crate::span::Span;

verus! {

/// How grave a diagnostic is.
#[derive(Copy, Debug, PartialEq, Eq, Structural)]
pub enum Severity {
    Info,
    Warning,
    Error,
}

impl Clone for Severity {
    fn clone(&self) -> (res: Self)
        ensures
            res == *self,
    {
        *self
    }
}

/// A message about a location of the source.
#[derive(Debug, PartialEq, Eq)]
pub struct Diagnostic {
    pub severity: Severity,
    pub span: Span,
    pub text: String,
}

/// The mathematical value of a [`Diagnostic`].
pub struct DiagnosticView {
    pub severity: Severity,
    pub span: Span,
    pub text: Seq<char>,
}

impl View for Diagnostic {
    type V = DiagnosticView;

    open spec fn view(&self) -> DiagnosticView {
        DiagnosticView { severity: self.severity, span: self.span, text: self.text@ }
    }
}

/// The views of the diagnostics of a vector, in order.
pub open spec fn diagnostic_views(diagnostics: Seq<Diagnostic>) -> Seq<DiagnosticView> {
    Seq::new(diagnostics.len(), |i: int| diagnostics[i]@)
}

/// The views of a vector that grew by one are the old views and the view of
/// the new diagnostic.
pub proof fn lemma_views_push(diagnostics: Seq<Diagnostic>, last: Diagnostic)
    ensures
        diagnostic_views(diagnostics.push(last)) == diagnostic_views(diagnostics).push(last@),
{
    assert(diagnostic_views(diagnostics.push(last)) =~= diagnostic_views(diagnostics).push(last@));
}

} // verus!
