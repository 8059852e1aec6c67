use ivl_verifier::discharge::{Action, Session};
use ivl_verifier::expr::{Expr, Name, Op, Type};
use ivl_verifier::report::{Diagnostic, Severity};
use ivl_verifier::span::Span;
use ivl_verifier::stmt::{Method, SourceFile, Stmt, StmtKind};
use smtlib::SatResultWithModel;

fn file() -> SourceFile {
    let x = Expr::ident(&Name::new("x"), Type::Int);
    let body = Stmt {
        span: Span::new(4, 16),
        kind: StmtKind::Assert { condition: x.infix(Op::Gt, &Expr::num(0)) },
    };
    SourceFile { methods: vec![Method { name: Name::new("m"), requires: vec![], body: Some(body) }] }
}

#[test]
fn an_unsat_answer_reports_nothing() {
    let (mut session, action) = Session::start(file());
    assert!(matches!(action, Action::Check(_)));
    let (report, action) = session.answer(&SatResultWithModel::Unsat);
    assert_eq!(report, None);
    assert_eq!(action, Action::Done);
}

#[test]
fn an_unknown_answer_is_a_warning() {
    let (mut session, _) = Session::start(file());
    let (report, action) = session.answer(&SatResultWithModel::Unknown);
    assert_eq!(
        report,
        Some(Diagnostic {
            severity: Severity::Warning,
            span: Span::new(4, 16),
            text: "{msg}: unknown sat result".to_string(),
        })
    );
    assert_eq!(action, Action::Done);
}

#[test]
fn an_answer_that_nothing_waits_for_is_ignored() {
    let (mut session, action) = Session::start(SourceFile { methods: vec![] });
    assert_eq!(action, Action::Done);
    let (report, action) = session.answer(&SatResultWithModel::Unknown);
    assert_eq!(report, None);
    assert_eq!(action, Action::Done);
}

#[test]
fn an_answer_for_a_file_of_a_method_without_body_is_ignored() {
    let declaration = Method { name: Name::new("d"), requires: vec![], body: None };
    let (mut session, action) = Session::start(SourceFile { methods: vec![declaration] });
    assert_eq!(action, Action::Done);
    let (report, action) = session.answer(&SatResultWithModel::Unknown);
    assert_eq!(report, None);
    assert_eq!(action, Action::Done);
}
