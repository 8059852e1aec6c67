use ivl_verifier::discharge::{Action, App, Obligation, Outcome, Session, VerifyError};
use ivl_verifier::expr::{Expr, Name, Op, Type};
use ivl_verifier::lowering::LoweringError;
use ivl_verifier::report::{Diagnostic, Severity};
use ivl_verifier::span::Span;
use ivl_verifier::stmt::{Case, Method, SourceFile, Stmt, StmtKind};
use ivl_verifier::wp::WpError;

fn var(name: &str) -> Expr {
    Expr::ident(&Name::new(name), Type::Int)
}

fn above(name: &str, n: i64) -> Expr {
    var(name).infix(Op::Gt, &Expr::num(n))
}

fn at(kind: StmtKind, start: usize, end: usize) -> Stmt {
    Stmt { span: Span::new(start, end), kind }
}

fn check(condition: Expr, start: usize, end: usize) -> Stmt {
    at(StmtKind::Assert { condition }, start, end)
}

fn seq(stmts: Vec<Stmt>) -> Stmt {
    let mut rest = stmts.into_iter().rev();
    let mut acc = rest.next().unwrap();
    for s in rest {
        acc = at(StmtKind::Sequence(Box::new(s), Box::new(acc)), 0, 0);
    }
    acc
}

fn method(name: &str, requires: Vec<Expr>, body: Stmt) -> Method {
    Method { name: Name::new(name), requires, body: Some(body) }
}

/// Runs a whole analysis with the given answers, as a driver of a solver would.
fn run(file: SourceFile, answers: Vec<Outcome>) -> (Vec<Diagnostic>, Action) {
    let (mut session, mut action) = Session::start(file);
    let mut reports = Vec::new();
    let mut answers = answers.into_iter();
    while let Action::Check(_) = action {
        let Some(outcome) = answers.next() else { break };
        let (report, next) = session.step(&outcome);
        reports.extend(report);
        action = next;
    }
    (reports, action)
}

#[test]
fn assert_true_without_requirements_verifies() {
    let m = method("m", vec![], check(Expr::bool(true), 18, 29));
    let obligation = App.obligation(&m).unwrap().unwrap();
    assert_eq!(obligation.assumption, Expr::bool(true));
    assert_eq!(obligation.condition.to_string(), "(true && true)");
    assert_eq!(obligation.refutation.to_string(), "!(true && true)");
    assert_eq!(obligation.refutation, obligation.condition.not());
    assert_eq!(obligation.message, "Assert might fail!");
    assert_eq!(App.conclude(&obligation, &Outcome::Unsat), None);

    let (reports, end) = run(SourceFile { methods: vec![m] }, vec![Outcome::Unsat]);
    assert_eq!(reports, vec![]);
    assert_eq!(end, Action::Done);
}

#[test]
fn assert_false_without_requirements_is_one_error_at_the_assertion() {
    let m = method("m", vec![], check(Expr::bool(false), 18, 30));
    let obligation = App.obligation(&m).unwrap().unwrap();
    assert_eq!(obligation.condition.to_string(), "(false && true)");
    assert_eq!(obligation.condition.span, Span::new(18, 30));

    let (reports, end) = run(SourceFile { methods: vec![m] }, vec![Outcome::Sat("{  }".to_string())]);
    assert_eq!(
        reports,
        vec![Diagnostic {
            severity: Severity::Error,
            span: Span::new(18, 30),
            text: "Assert might fail!: {  }".to_string(),
        }]
    );
    assert_eq!(end, Action::Done);
}

#[test]
fn what_is_required_reaches_the_body() {
    // method m(x) requires x > 0 { assert x > 0 }
    let m = method("m", vec![above("x", 0)], check(above("x", 0), 40, 52));
    let obligation = App.obligation(&m).unwrap().unwrap();
    assert_eq!(obligation.assumption.to_string(), "(x > 0)");
    assert_eq!(obligation.condition.to_string(), "((x > 0) && true)");
    assert_eq!(obligation.refutation.to_string(), "!((x > 0) && true)");
    let (reports, _) = run(SourceFile { methods: vec![m] }, vec![Outcome::Unsat]);
    assert_eq!(reports.len(), 0);
}

#[test]
fn a_condition_stronger_than_what_is_required_is_an_error_with_the_values() {
    // method m(x) requires x > 0 { assert x > 1 }
    let m = method("m", vec![above("x", 0)], check(above("x", 1), 40, 52));
    let obligation = App.obligation(&m).unwrap().unwrap();
    assert_eq!(obligation.assumption.to_string(), "(x > 0)");
    assert_eq!(obligation.refutation.to_string(), "!((x > 1) && true)");
    let (reports, _) =
        run(SourceFile { methods: vec![m] }, vec![Outcome::Sat("{ x: 1 }".to_string())]);
    assert_eq!(
        reports,
        vec![Diagnostic {
            severity: Severity::Error,
            span: Span::new(40, 52),
            text: "Assert might fail!: { x: 1 }".to_string(),
        }]
    );
}

#[test]
fn requirements_are_taken_together() {
    let m = method(
        "m",
        vec![above("x", 0), above("y", 0), above("z", 0)],
        check(above("x", 0), 0, 0),
    );
    let obligation = App.obligation(&m).unwrap().unwrap();
    assert_eq!(obligation.assumption.to_string(), "(((x > 0) && (y > 0)) && (z > 0))");
}

#[test]
fn assignment_then_assertion() {
    // y := x - 1 ; assert y >= x - 1
    let bound = var("x").infix(Op::Sub, &Expr::num(1));
    let body = seq(vec![
        at(StmtKind::Assignment { name: Name::new("y"), expr: bound.clone() }, 10, 20),
        check(var("y").infix(Op::Ge, &bound), 22, 42),
    ]);
    let obligation = App.obligation(&method("m", vec![], body)).unwrap().unwrap();
    assert_eq!(obligation.condition.to_string(), "(((x - 1) >= (x - 1)) && true)");
    assert_eq!(obligation.condition.span, Span::new(22, 42));
}

#[test]
fn havoc_forgets_what_was_required_of_the_variable() {
    // requires x < 0 { var x ; assume x > 0 ; assert x > 0 }
    let body = seq(vec![
        at(StmtKind::VarDefinition { name: Name::new("x"), ty: Type::Int, init: None }, 0, 5),
        at(StmtKind::Assume { condition: above("x", 0) }, 7, 19),
        check(above("x", 0), 21, 33),
    ]);
    let m = method("m", vec![var("x").infix(Op::Lt, &Expr::num(0))], body);
    let obligation = App.obligation(&m).unwrap().unwrap();
    assert_eq!(obligation.assumption.to_string(), "(x < 0)");
    assert_eq!(obligation.condition.to_string(), "((x#0 > 0) ==> ((x#0 > 0) && true))");
}

#[test]
fn the_symbols_of_the_condition_differ_from_those_of_the_assumption() {
    let body = seq(vec![
        at(StmtKind::VarDefinition { name: Name::new("x"), ty: Type::Int, init: None }, 0, 5),
        check(above("x", 0), 21, 33),
    ]);
    let required = Expr::symbol(&Name::new("x"), 0, Type::Int).infix(Op::Gt, &Expr::num(5));
    let obligation = App.obligation(&method("m", vec![required], body)).unwrap().unwrap();
    assert_eq!(obligation.assumption.to_string(), "(x#0 > 5)");
    assert_eq!(obligation.condition.to_string(), "((x#1 > 0) && true)");
}

#[test]
fn choice_between_branches() {
    let both_hold = at(
        StmtKind::Match {
            cases: vec![
                Case { condition: above("x", 0), stmt: check(Expr::bool(true), 10, 20) },
                Case {
                    condition: var("x").infix(Op::Le, &Expr::num(0)),
                    stmt: check(Expr::bool(true), 30, 40),
                },
            ],
        },
        0,
        50,
    );
    let obligation = App.obligation(&method("m", vec![], both_hold)).unwrap().unwrap();
    assert_eq!(
        obligation.condition.to_string(),
        "(((x > 0) ==> (true && true)) && (((x <= 0) ==> (true && true)) && \
         (!((x > 0) || (x <= 0)) ==> (false && true))))"
    );
    assert_eq!(obligation.message, "Assert might fail!");
    assert_eq!(obligation.condition.span, Span::new(10, 20));

    let second_fails = at(
        StmtKind::Match {
            cases: vec![
                Case { condition: above("x", 0), stmt: check(Expr::bool(true), 10, 20) },
                Case {
                    condition: var("x").infix(Op::Le, &Expr::num(0)),
                    stmt: check(Expr::bool(false), 30, 40),
                },
            ],
        },
        0,
        50,
    );
    let obligation = App.obligation(&method("m", vec![], second_fails)).unwrap().unwrap();
    assert_eq!(
        obligation.condition.to_string(),
        "(((x > 0) ==> (true && true)) && (((x <= 0) ==> (false && true)) && \
         (!((x > 0) || (x <= 0)) ==> (false && true))))"
    );
}

#[test]
fn an_undecided_check_is_a_warning() {
    let obligation = App.obligation(&method("m", vec![], check(above("x", 0), 4, 16))).unwrap().unwrap();
    assert_eq!(
        App.conclude(&obligation, &Outcome::Unknown),
        Some(Diagnostic {
            severity: Severity::Warning,
            span: Span::new(4, 16),
            text: "{msg}: unknown sat result".to_string(),
        })
    );
}

#[test]
fn conclude_uses_message_and_location_of_the_obligation() {
    let obligation = Obligation {
        assumption: Expr::bool(true),
        condition: above("x", 0).with_span(Span::new(8, 9)),
        refutation: above("x", 0).not(),
        message: "x has to be positive".to_string(),
    };
    assert_eq!(
        App.conclude(&obligation, &Outcome::Sat("{ x: 0 }".to_string())),
        Some(Diagnostic {
            severity: Severity::Error,
            span: Span::new(8, 9),
            text: "x has to be positive: { x: 0 }".to_string(),
        })
    );
    assert_eq!(App.conclude(&obligation, &Outcome::Unsat), None);
    assert_eq!(obligation.clone(), obligation);
}

#[test]
fn a_statement_without_encoding_fails_the_obligation() {
    let m = method("m", vec![], at(StmtKind::Break, 3, 8));
    assert_eq!(
        App.obligation(&m),
        Err(VerifyError::Lowering(LoweringError::Unsupported(Span::new(3, 8))))
    );
    let unannotated = at(
        StmtKind::Loop { guard: Expr::bool(true), invariants: vec![], body: Box::new(check(Expr::bool(true), 0, 0)) },
        1,
        9,
    );
    assert_eq!(
        App.obligation(&method("m", vec![], unannotated)),
        Err(VerifyError::Lowering(LoweringError::MissingInvariant(Span::new(1, 9))))
    );
}

#[test]
fn symbols_that_run_out_fail_the_obligation() {
    let full = || Expr::symbol(&Name::new("k"), u64::MAX, Type::Bool);
    let declare =
        || at(StmtKind::VarDefinition { name: Name::new("x"), ty: Type::Int, init: None }, 0, 5);
    // a havoc after a requirement or a condition that holds the last symbol
    let m = method("m", vec![full()], seq(vec![declare(), check(Expr::bool(true), 0, 0)]));
    assert_eq!(App.obligation(&m), Err(VerifyError::Wp(WpError::SymbolsExhausted)));
    let m = method("m", vec![], seq(vec![declare(), check(full(), 0, 0)]));
    assert_eq!(App.obligation(&m), Err(VerifyError::Wp(WpError::SymbolsExhausted)));
    // without a havoc no number is needed
    let m = method("m", vec![full()], check(full(), 0, 0));
    let obligation = App.obligation(&m).unwrap().unwrap();
    assert_eq!(obligation.assumption.to_string(), "k#18446744073709551615");
    assert_eq!(obligation.condition.to_string(), "(k#18446744073709551615 && true)");
}

#[test]
fn a_file_without_methods_is_done_at_once() {
    let (_, action) = Session::start(SourceFile { methods: vec![] });
    assert_eq!(action, Action::Done);
}

#[test]
fn methods_are_checked_in_source_order_and_failures_do_not_stop_the_analysis() {
    let file = SourceFile {
        methods: vec![
            method("a", vec![], check(above("a", 0), 1, 2)),
            method("b", vec![], check(above("b", 0), 3, 4)),
            method("c", vec![], check(above("c", 0), 5, 6)),
        ],
    };
    let (mut session, action) = Session::start(file);
    let Action::Check(first) = action else { panic!("no check: {:?}", action) };
    assert_eq!(first.condition.to_string(), "((a > 0) && true)");

    let (report, action) = session.step(&Outcome::Sat("{ a: 0 }".to_string()));
    assert_eq!(report.unwrap().span, Span::new(1, 2));
    let Action::Check(second) = action else { panic!("no check: {:?}", action) };
    assert_eq!(second.condition.to_string(), "((b > 0) && true)");

    let (report, action) = session.step(&Outcome::Unknown);
    assert_eq!(report.unwrap().severity, Severity::Warning);
    let Action::Check(third) = action else { panic!("no check: {:?}", action) };
    assert_eq!(third.condition.to_string(), "((c > 0) && true)");

    let (report, action) = session.step(&Outcome::Unsat);
    assert_eq!(report, None);
    assert_eq!(action, Action::Done);

    // nothing is pending: the answer is ignored
    let (report, action) = session.step(&Outcome::Sat("late".to_string()));
    assert_eq!(report, None);
    assert_eq!(action, Action::Done);
}

#[test]
fn a_method_that_cannot_be_lowered_ends_the_analysis_of_the_file() {
    let file = SourceFile {
        methods: vec![
            method("a", vec![], check(Expr::bool(false), 1, 2)),
            method("b", vec![], at(StmtKind::Continue, 3, 4)),
            method("c", vec![], check(Expr::bool(false), 5, 6)),
        ],
    };
    let abort = Action::Abort(VerifyError::Lowering(LoweringError::Unsupported(Span::new(3, 4))));
    let (mut session, action) = Session::start(file);
    assert!(matches!(action, Action::Check(_)));
    let (report, action) = session.step(&Outcome::Sat("{  }".to_string()));
    assert_eq!(report.unwrap().span, Span::new(1, 2));
    assert_eq!(action, abort);
    // the third method is never put to the solver
    let (report, action) = session.step(&Outcome::Sat("{  }".to_string()));
    assert_eq!(report, None);
    assert_eq!(action, abort);
}

#[test]
fn a_first_method_that_cannot_be_lowered_aborts_at_the_start() {
    let file = SourceFile { methods: vec![method("a", vec![], at(StmtKind::Break, 7, 12))] };
    let (_, action) = Session::start(file);
    assert_eq!(
        action,
        Action::Abort(VerifyError::Lowering(LoweringError::Unsupported(Span::new(7, 12))))
    );
}

#[test]
fn what_one_method_requires_does_not_reach_the_next() {
    let demanding = method("a", vec![Expr::bool(false)], check(above("x", 0), 1, 2));
    let plain = method("b", vec![], check(above("x", 0), 3, 4));
    let alone = App.obligation(&method("b", vec![], check(above("x", 0), 3, 4))).unwrap().unwrap();
    let (mut session, _) = Session::start(SourceFile { methods: vec![demanding, plain] });
    let (_, action) = session.step(&Outcome::Unsat);
    assert_eq!(action, Action::Check(alone));
}

#[test]
fn verifying_again_reports_the_same() {
    let file = || SourceFile {
        methods: vec![
            method("a", vec![above("x", 0)], check(above("x", 1), 1, 2)),
            method("b", vec![], check(Expr::bool(true), 3, 4)),
            method("c", vec![], check(above("y", 0), 5, 6)),
        ],
    };
    let answers =
        || vec![Outcome::Sat("{ x: 1 }".to_string()), Outcome::Unsat, Outcome::Unknown];
    let (first, _) = run(file(), answers());
    let (second, _) = run(file(), answers());
    assert_eq!(first, second);
    assert_eq!(first.len(), 2);
    assert_eq!(first[0].text, "Assert might fail!: { x: 1 }");
    assert_eq!(first[1].text, "{msg}: unknown sat result");
}

#[test]
fn analyze_replays_the_answers_of_the_solver() {
    let file = SourceFile {
        methods: vec![
            method("a", vec![above("x", 0)], check(above("x", 1), 1, 2)),
            method("b", vec![], check(Expr::bool(true), 3, 4)),
            method("c", vec![], check(above("y", 0), 5, 6)),
        ],
    };
    let answers = vec![Outcome::Sat("{ x: 1 }".to_string()), Outcome::Unsat, Outcome::Unknown];
    let mut reports = vec![Diagnostic {
        severity: Severity::Info,
        span: Span::new(0, 0),
        text: "earlier".to_string(),
    }];
    let end = App.analyze(&mut reports, file, &answers);
    assert_eq!(end, Action::Done);
    let texts: Vec<&str> = reports.iter().map(|r| r.text.as_str()).collect();
    assert_eq!(
        texts,
        vec!["earlier", "Assert might fail!: { x: 1 }", "{msg}: unknown sat result"]
    );
    assert_eq!(reports[1].severity, Severity::Error);
    assert_eq!(reports[1].span, Span::new(1, 2));
    assert_eq!(reports[2].severity, Severity::Warning);
    assert_eq!(reports[2].span, Span::new(5, 6));
}

#[test]
fn analyze_stops_where_the_answers_end() {
    let file = SourceFile {
        methods: vec![
            method("a", vec![], check(above("a", 0), 1, 2)),
            method("b", vec![], check(above("b", 0), 3, 4)),
        ],
    };
    let mut reports = Vec::new();
    let end = App.analyze(&mut reports, file, &vec![Outcome::Unsat]);
    assert_eq!(reports, vec![]);
    let Action::Check(next) = end else { panic!("no check: {:?}", end) };
    assert_eq!(next.condition.to_string(), "((b > 0) && true)");
}

#[test]
fn analyze_stops_at_a_method_that_cannot_be_lowered_and_leaves_answers_unused() {
    let file = SourceFile {
        methods: vec![
            method("a", vec![], check(Expr::bool(false), 1, 2)),
            method("b", vec![], at(StmtKind::Continue, 3, 4)),
            method("c", vec![], check(Expr::bool(false), 5, 6)),
        ],
    };
    let answers = vec![
        Outcome::Sat("first".to_string()),
        Outcome::Sat("second".to_string()),
        Outcome::Sat("third".to_string()),
    ];
    let mut reports = Vec::new();
    let end = App.analyze(&mut reports, file, &answers);
    assert_eq!(
        end,
        Action::Abort(VerifyError::Lowering(LoweringError::Unsupported(Span::new(3, 4))))
    );
    assert_eq!(reports.len(), 1);
    assert_eq!(reports[0].text, "Assert might fail!: first");
}

#[test]
fn analyze_twice_reports_the_same() {
    let file = || SourceFile {
        methods: vec![
            method("a", vec![above("x", 0)], check(above("x", 1), 1, 2)),
            method("b", vec![], check(above("y", 0), 5, 6)),
        ],
    };
    let answers = vec![Outcome::Sat("{ x: 1 }".to_string()), Outcome::Unknown];
    let mut first = Vec::new();
    let mut second = Vec::new();
    assert_eq!(App.analyze(&mut first, file(), &answers), App.analyze(&mut second, file(), &answers));
    assert_eq!(first, second);
    assert_eq!(first.len(), 2);
}

fn two_branches(first: bool, second: bool) -> Stmt {
    at(
        StmtKind::Match {
            cases: vec![
                Case { condition: above("x", 0), stmt: check(Expr::bool(first), 10, 20) },
                Case {
                    condition: var("x").infix(Op::Le, &Expr::num(0)),
                    stmt: check(Expr::bool(second), 30, 40),
                },
            ],
        },
        0,
        50,
    )
}

#[test]
fn a_failing_branch_is_one_error_whichever_branch_it_is() {
    for (first, second) in [(false, true), (true, false)] {
        let file = SourceFile { methods: vec![method("m", vec![], two_branches(first, second))] };
        let mut reports = Vec::new();
        let end = App.analyze(&mut reports, file, &vec![Outcome::Sat("{ x: 0 }".to_string())]);
        assert_eq!(end, Action::Done);
        assert_eq!(
            reports,
            vec![Diagnostic {
                severity: Severity::Error,
                span: Span::new(10, 20),
                text: "Assert might fail!: { x: 0 }".to_string(),
            }]
        );
    }
}

#[test]
fn a_havocked_variable_verifies_whatever_is_required_and_however_nested() {
    let declare =
        || at(StmtKind::VarDefinition { name: Name::new("x"), ty: Type::Int, init: None }, 0, 5);
    let taken = || at(StmtKind::Assume { condition: above("x", 0) }, 7, 19);
    let nested_right = seq(vec![declare(), taken(), check(above("x", 0), 21, 33)]);
    let nested_left = at(
        StmtKind::Sequence(
            Box::new(at(StmtKind::Sequence(Box::new(declare()), Box::new(taken())), 0, 19)),
            Box::new(check(above("x", 0), 21, 33)),
        ),
        0,
        33,
    );
    let required = || vec![var("x").infix(Op::Lt, &Expr::num(0)), var("x").infix(Op::Eq, &var("y"))];
    let right = App.obligation(&method("m", required(), nested_right)).unwrap().unwrap();
    let left = App.obligation(&method("m", required(), nested_left)).unwrap().unwrap();
    assert_eq!(right.condition, left.condition);
    assert_eq!(right.condition.to_string(), "((x#0 > 0) ==> ((x#0 > 0) && true))");
    assert_eq!(right.assumption.to_string(), "((x < 0) && (x == y))");

    let body = seq(vec![declare(), taken(), check(above("x", 0), 21, 33)]);
    let mut reports = Vec::new();
    let file = SourceFile { methods: vec![method("m", required(), body)] };
    assert_eq!(App.analyze(&mut reports, file, &vec![Outcome::Unsat]), Action::Done);
    assert_eq!(reports, vec![]);
}

fn declaration(name: &str, requires: Vec<Expr>) -> Method {
    Method { name: Name::new(name), requires, body: None }
}

#[test]
fn of_a_method_without_body_nothing_has_to_be_proved() {
    assert_eq!(App.obligation(&declaration("d", vec![])), Ok(None));
    assert_eq!(App.obligation(&declaration("d", vec![above("x", 0), Expr::bool(false)])), Ok(None));
}

#[test]
fn a_file_of_methods_without_body_is_done_at_once() {
    let file = SourceFile { methods: vec![declaration("a", vec![]), declaration("b", vec![])] };
    let (mut session, action) = Session::start(file);
    assert_eq!(action, Action::Done);
    let (report, action) = session.step(&Outcome::Sat("ignored".to_string()));
    assert_eq!(report, None);
    assert_eq!(action, Action::Done);

    let file = SourceFile { methods: vec![declaration("a", vec![above("x", 0)])] };
    let mut reports = Vec::new();
    let answers = vec![Outcome::Sat("unused".to_string()), Outcome::Unknown];
    assert_eq!(App.analyze(&mut reports, file, &answers), Action::Done);
    assert_eq!(reports, vec![]);
}

#[test]
fn methods_without_body_are_passed_over_and_take_no_answer() {
    let file = || SourceFile {
        methods: vec![
            declaration("d0", vec![]),
            method("a", vec![], check(above("a", 0), 1, 2)),
            declaration("d1", vec![Expr::bool(false)]),
            declaration("d2", vec![]),
            method("b", vec![], check(above("b", 0), 3, 4)),
            declaration("d3", vec![]),
        ],
    };
    let (mut session, action) = Session::start(file());
    let Action::Check(first) = action else { panic!("no check: {:?}", action) };
    assert_eq!(first.condition.to_string(), "((a > 0) && true)");
    let (report, action) = session.step(&Outcome::Sat("{ a: 0 }".to_string()));
    assert_eq!(report.unwrap().span, Span::new(1, 2));
    let Action::Check(second) = action else { panic!("no check: {:?}", action) };
    assert_eq!(second.condition.to_string(), "((b > 0) && true)");
    // what a declaration requires does not reach the method after it
    assert_eq!(second.assumption, Expr::bool(true));
    let (report, action) = session.step(&Outcome::Unsat);
    assert_eq!(report, None);
    assert_eq!(action, Action::Done);

    // the same file without the declarations reports the same
    let without = SourceFile {
        methods: vec![
            method("a", vec![], check(above("a", 0), 1, 2)),
            method("b", vec![], check(above("b", 0), 3, 4)),
        ],
    };
    let answers = vec![Outcome::Sat("{ a: 0 }".to_string()), Outcome::Sat("{ b: 0 }".to_string())];
    let mut with_declarations = Vec::new();
    let mut plain = Vec::new();
    assert_eq!(App.analyze(&mut with_declarations, file(), &answers), Action::Done);
    assert_eq!(App.analyze(&mut plain, without, &answers), Action::Done);
    assert_eq!(with_declarations, plain);
    assert_eq!(plain.len(), 2);
}

#[test]
fn a_method_without_body_before_one_that_cannot_be_lowered_does_not_hide_the_error() {
    let file = SourceFile {
        methods: vec![declaration("d", vec![]), method("b", vec![], at(StmtKind::Break, 3, 4))],
    };
    let (_, action) = Session::start(file);
    assert_eq!(
        action,
        Action::Abort(VerifyError::Lowering(LoweringError::Unsupported(Span::new(3, 4))))
    );
}
