use ivl_verifier::expr::{Expr, Name};
use ivl_verifier::lint::{assert_true_lint, App};
use ivl_verifier::report::{Diagnostic, Severity};
use ivl_verifier::span::Span;
use ivl_verifier::stmt::{Case, Method, SourceFile, Stmt, StmtKind};

fn located(e: Expr, start: usize, end: usize) -> Expr {
    e.with_span(Span::new(start, end))
}

fn assert_stmt(condition: Expr, start: usize, end: usize) -> Stmt {
    Stmt { span: Span::new(start, end), kind: StmtKind::Assert { condition } }
}

fn method(name: &str, body: Option<Stmt>) -> Method {
    Method { name: Name::new(name), requires: Vec::new(), body }
}

#[test]
fn trivial() {
    // method m() { assert true }
    let body = assert_stmt(located(Expr::bool(true), 25, 29), 18, 29);
    let file = SourceFile { methods: vec![method("m", Some(body))] };
    let mut reports: Vec<Diagnostic> = Vec::new();
    App.analyze(&mut reports, &file);

    assert!(reports.iter().any(|r| r.text == "asserting true is a bit silly, no?"));
    assert_eq!(reports.len(), 1);
    assert_eq!(reports[0].severity, Severity::Info);
    assert_eq!(reports[0].span, Span::new(25, 29));
}

#[test]
fn lint_ignores_other_conditions() {
    let body = assert_stmt(Expr::bool(false), 0, 12);
    let mut reports: Vec<Diagnostic> = Vec::new();
    assert_true_lint(&mut reports, &body);
    assert_eq!(reports.len(), 0);
}

fn stmt(kind: StmtKind) -> Stmt {
    Stmt { span: Span::default(), kind }
}

#[test]
fn lint_looks_into_sequences_branches_and_loops_in_source_order() {
    let in_branch = assert_stmt(located(Expr::bool(true), 30, 34), 23, 34);
    let other_branch = assert_stmt(located(Expr::bool(false), 50, 55), 43, 55);
    let in_loop = assert_stmt(located(Expr::bool(true), 70, 74), 63, 74);
    let body = stmt(StmtKind::Sequence(
        Box::new(assert_stmt(located(Expr::bool(true), 7, 11), 0, 11)),
        Box::new(stmt(StmtKind::Sequence(
            Box::new(stmt(StmtKind::Match {
                cases: vec![
                    Case { condition: Expr::bool(true), stmt: in_branch },
                    Case { condition: Expr::bool(true), stmt: other_branch },
                ],
            })),
            Box::new(stmt(StmtKind::Loop {
                guard: Expr::bool(true),
                invariants: vec![Expr::bool(true)],
                body: Box::new(in_loop),
            })),
        ))),
    ));
    let mut reports: Vec<Diagnostic> = Vec::new();
    assert_true_lint(&mut reports, &body);
    let spans: Vec<Span> = reports.iter().map(|r| r.span).collect();
    assert_eq!(spans, vec![Span::new(7, 11), Span::new(30, 34), Span::new(70, 74)]);
    assert!(reports.iter().all(|r| r.severity == Severity::Info));
    assert!(reports.iter().all(|r| r.text == "asserting true is a bit silly, no?"));
}

#[test]
fn lint_does_not_look_at_guards_annotations_or_other_statements() {
    let body = stmt(StmtKind::Sequence(
        Box::new(stmt(StmtKind::Assume { condition: Expr::bool(true) })),
        Box::new(stmt(StmtKind::Sequence(
            Box::new(stmt(StmtKind::Assignment { name: Name::new("b"), expr: Expr::bool(true) })),
            Box::new(stmt(StmtKind::Return { value: Some(Expr::bool(true)) })),
        ))),
    ));
    let mut reports: Vec<Diagnostic> = Vec::new();
    assert_true_lint(&mut reports, &body);
    assert_eq!(reports, vec![]);
}

#[test]
fn lint_appends_to_what_was_reported_before() {
    let earlier =
        Diagnostic { severity: Severity::Error, span: Span::new(1, 2), text: "earlier".to_string() };
    let mut reports = vec![Diagnostic {
        severity: Severity::Error,
        span: Span::new(1, 2),
        text: "earlier".to_string(),
    }];
    assert_true_lint(&mut reports, &assert_stmt(Expr::bool(true), 0, 4));
    assert_eq!(reports.len(), 2);
    assert_eq!(reports[0], earlier);
}

#[test]
fn analyze_goes_through_all_methods_and_skips_those_without_body() {
    let file = SourceFile {
        methods: vec![
            method("a", Some(assert_stmt(located(Expr::bool(true), 1, 2), 0, 2))),
            method("b", None),
            method("c", Some(assert_stmt(Expr::bool(false), 3, 4))),
            method("d", Some(assert_stmt(located(Expr::bool(true), 5, 6), 4, 6))),
        ],
    };
    let mut reports: Vec<Diagnostic> = Vec::new();
    App.analyze(&mut reports, &file);
    let spans: Vec<Span> = reports.iter().map(|r| r.span).collect();
    assert_eq!(spans, vec![Span::new(1, 2), Span::new(5, 6)]);
}

#[test]
fn lint_looks_into_statements_of_other_kinds() {
    let inside = stmt(StmtKind::Other {
        inner: vec![
            assert_stmt(located(Expr::bool(true), 3, 7), 0, 7),
            stmt(StmtKind::Other { inner: vec![assert_stmt(located(Expr::bool(true), 13, 17), 10, 17)] }),
            assert_stmt(located(Expr::bool(false), 23, 28), 20, 28),
            stmt(StmtKind::Other { inner: vec![] }),
        ],
    });
    let mut reports: Vec<Diagnostic> = Vec::new();
    assert_true_lint(&mut reports, &inside);
    let spans: Vec<Span> = reports.iter().map(|r| r.span).collect();
    assert_eq!(spans, vec![Span::new(3, 7), Span::new(13, 17)]);
}
