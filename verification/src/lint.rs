//! A lint: an assertion of the literal `true` says nothing.

use vstd::prelude::*;
use crate::expr::{ExprKind, ExprKindView};
use crate::report::{diagnostic_views, lemma_views_push, Diagnostic, DiagnosticView, Severity};
use crate::stmt::{CaseView, MethodView, SourceFile, Stmt, StmtKind, StmtKindView, StmtView};

verus! {

/// What the lint says of each assertion it finds.
pub open spec fn lint_message() -> Seq<char> {
    "asserting true is a bit silly, no?"@
}

impl StmtView {
    /// A note for each assertion of the literal `true` in the statement, in
    /// source order, at the location of the literal. Sequences, the branches
    /// of a match, the body of a loop and what stands inside a statement of
    /// another kind are looked into.
    pub open spec fn lint(self) -> Seq<DiagnosticView>
        decreases self,
    {
        match self.kind {
            StmtKindView::Sequence(a, b) => a.lint() + b.lint(),
            StmtKindView::Assert { condition } => if condition.kind == ExprKindView::Bool(true) {
                seq![
                    DiagnosticView {
                        severity: Severity::Info,
                        span: condition.span,
                        text: lint_message(),
                    },
                ]
            } else {
                Seq::empty()
            },
            StmtKindView::Match { cases } => lint_cases(cases),
            StmtKindView::Loop { body, .. } => body.lint(),
            StmtKindView::Other { inner } => lint_all(inner),
            _ => Seq::empty(),
        }
    }
}

/// The notes of all the statements, in order.
pub open spec fn lint_all(stmts: Seq<StmtView>) -> Seq<DiagnosticView>
    decreases stmts,
{
    if stmts.len() == 0 {
        Seq::empty()
    } else {
        lint_all(stmts.drop_last()) + stmts.last().lint()
    }
}

/// The notes of all the branches, in order.
pub open spec fn lint_cases(cases: Seq<CaseView>) -> Seq<DiagnosticView>
    decreases cases,
{
    if cases.len() == 0 {
        Seq::empty()
    } else {
        lint_cases(cases.drop_last()) + cases.last().stmt.lint()
    }
}

/// The notes of all the methods, in order; a method without a body has none.
pub open spec fn lint_methods(methods: Seq<MethodView>) -> Seq<DiagnosticView>
    decreases methods.len(),
{
    if methods.len() == 0 {
        Seq::empty()
    } else {
        lint_methods(methods.drop_last()) + match methods.last().body {
            Some(body) => body.lint(),
            None => Seq::empty(),
        }
    }
}

/// Appends to `cx` a note for each assertion of the literal `true` in `stmt`.
pub fn assert_true_lint(cx: &mut Vec<Diagnostic>, stmt: &Stmt)
    ensures
        diagnostic_views(final(cx)@) == diagnostic_views(old(cx)@) + stmt@.lint(),
    decreases stmt,
{
    match &stmt.kind {
        StmtKind::Sequence(c1, c2) => {
            assert_true_lint(cx, c1);
            assert_true_lint(cx, c2);
            assert(diagnostic_views(cx@) =~= diagnostic_views(old(cx)@) + stmt@.lint());
        },
        StmtKind::Assert { condition } => {
            if let ExprKind::Bool(true) = &condition.kind {
                let note = Diagnostic {
                    severity: Severity::Info,
                    span: condition.span,
                    text: "asserting true is a bit silly, no?".to_owned(),
                };
                proof {
                    lemma_views_push(cx@, note);
                }
                cx.push(note);
            }
            assert(diagnostic_views(cx@) =~= diagnostic_views(old(cx)@) + stmt@.lint());
        },
        StmtKind::Match { cases } => {
            let ghost all = stmt@.kind->cases;
            let mut i: usize = 0;
            assert(all.take(0) =~= Seq::empty());
            assert(diagnostic_views(cx@) =~= diagnostic_views(old(cx)@) + lint_cases(all.take(0)));
            while i < cases.len()
                invariant
                    i <= cases.len(),
                    stmt.kind == (StmtKind::Match { cases: *cases }),
                    all == stmt@.kind->cases,
                    diagnostic_views(cx@) == diagnostic_views(old(cx)@) + lint_cases(
                        all.take(i as int),
                    ),
                decreases cases.len() - i,
            {
                assert_true_lint(cx, &cases[i].stmt);
                assert(all.take(i + 1).drop_last() =~= all.take(i as int));
                assert(all.take(i + 1).last() == cases@[i as int]@);
                assert(diagnostic_views(cx@) =~= diagnostic_views(old(cx)@) + lint_cases(
                    all.take(i + 1),
                ));
                i = i + 1;
            }
            assert(all.take(i as int) =~= all);
        },
        StmtKind::Loop { body, .. } => {
            assert_true_lint(cx, body);
        },
        StmtKind::Other { inner } => {
            let ghost all = stmt@.kind->inner;
            let mut i: usize = 0;
            assert(all.take(0) =~= Seq::empty());
            assert(diagnostic_views(cx@) =~= diagnostic_views(old(cx)@) + lint_all(all.take(0)));
            while i < inner.len()
                invariant
                    i <= inner.len(),
                    stmt.kind == (StmtKind::Other { inner: *inner }),
                    all == stmt@.kind->inner,
                    diagnostic_views(cx@) == diagnostic_views(old(cx)@) + lint_all(
                        all.take(i as int),
                    ),
                decreases inner.len() - i,
            {
                assert_true_lint(cx, &inner[i]);
                assert(all.take(i + 1).drop_last() =~= all.take(i as int));
                assert(all.take(i + 1).last() == inner@[i as int]@);
                assert(diagnostic_views(cx@) =~= diagnostic_views(old(cx)@) + lint_all(
                    all.take(i + 1),
                ));
                i = i + 1;
            }
            assert(all.take(i as int) =~= all);
        },
        _ => {
            assert(diagnostic_views(cx@) =~= diagnostic_views(old(cx)@) + stmt@.lint());
        },
    }
}

/// The lint over the methods of a file.
pub struct App;

impl App {
    /// Appends to `cx` the notes for every method of `file` that has a body.
    pub fn analyze(&self, cx: &mut Vec<Diagnostic>, file: &SourceFile)
        ensures
            diagnostic_views(final(cx)@) == diagnostic_views(old(cx)@) + lint_methods(file@),
    {
        let ghost all = file@;
        let mut i: usize = 0;
        assert(all.take(0) =~= Seq::empty());
        assert(diagnostic_views(cx@) =~= diagnostic_views(old(cx)@) + lint_methods(all.take(0)));
        while i < file.methods.len()
            invariant
                i <= file.methods.len(),
                all == file@,
                diagnostic_views(cx@) == diagnostic_views(old(cx)@) + lint_methods(
                    all.take(i as int),
                ),
            decreases file.methods.len() - i,
        {
            let m = &file.methods[i];
            assert(all.take(i + 1).drop_last() =~= all.take(i as int));
            assert(all.take(i + 1).last() == m@);
            if let Some(body) = &m.body {
                assert_true_lint(cx, body);
            }
            assert(diagnostic_views(cx@) =~= diagnostic_views(old(cx)@) + lint_methods(
                all.take(i + 1),
            ));
            i = i + 1;
        }
        assert(all.take(i as int) =~= all);
    }
}

} // verus!
