use ivl_verifier::expr::{Expr, Name, Op, Type};
use ivl_verifier::ivl::{IVLStmt, IVLStmtKind};
use ivl_verifier::ivl0::{IVL0Stmt, IVL0StmtKind};
use ivl_verifier::span::Span;

fn var(name: &str) -> Expr {
    Expr::ident(&Name::new(name), Type::Int)
}

fn a() -> IVL0Stmt {
    IVL0Stmt::assign(&Name::new("a"), &Expr::num(1))
}

fn b() -> IVL0Stmt {
    IVL0Stmt::assign(&Name::new("b"), &Expr::num(2))
}

fn c() -> IVL0Stmt {
    IVL0Stmt::assign(&Name::new("c"), &Expr::num(3))
}

#[test]
fn leaves_hold_what_they_were_given() {
    let x = Name::new("x");
    let e = var("y").infix(Op::Add, &Expr::num(1));
    assert_eq!(
        IVL0Stmt::assign(&x, &e),
        IVL0Stmt {
            span: Span::default(),
            kind: IVL0StmtKind::Assignment { name: Name::new("x"), expr: e.clone() },
        }
    );
    assert_eq!(
        IVL0Stmt::havoc(&x, &Type::Bool),
        IVL0Stmt {
            span: Span::default(),
            kind: IVL0StmtKind::Havoc { name: Name::new("x"), ty: Type::Bool },
        }
    );
    let cond = var("x").infix(Op::Gt, &Expr::num(0));
    assert_eq!(
        IVL0Stmt::assuming(&cond),
        IVL0Stmt { span: Span::default(), kind: IVL0StmtKind::Assume { condition: cond.clone() } }
    );
    assert_eq!(
        IVL0Stmt::asserting(&cond, "x must be positive"),
        IVL0Stmt {
            span: Span::default(),
            kind: IVL0StmtKind::Assert {
                condition: cond.clone(),
                message: "x must be positive".to_string(),
            },
        }
    );
}

#[test]
fn combinators_hold_both_commands_in_order() {
    assert_eq!(
        a().seq(&b()),
        IVL0Stmt {
            span: Span::default(),
            kind: IVL0StmtKind::Sequence(Box::new(a()), Box::new(b())),
        }
    );
    assert_eq!(
        a().nondet(&b()),
        IVL0Stmt {
            span: Span::default(),
            kind: IVL0StmtKind::NonDet(Box::new(a()), Box::new(b())),
        }
    );
    assert_ne!(a().seq(&b()), b().seq(&a()));
}

#[test]
fn nop_takes_true_and_unreachable_takes_false() {
    assert_eq!(IVL0Stmt::nop(), IVL0Stmt::assuming(&Expr::bool(true)));
    assert_eq!(IVL0Stmt::unreachable(), IVL0Stmt::assuming(&Expr::bool(false)));
    assert_ne!(IVL0Stmt::nop(), IVL0Stmt::unreachable());
}

#[test]
fn seqs_of_nothing_is_nop() {
    assert_eq!(IVL0Stmt::seqs(&vec![]), IVL0Stmt::nop());
}

#[test]
fn nondets_of_nothing_is_unreachable() {
    assert_eq!(IVL0Stmt::nondets(&vec![]), IVL0Stmt::unreachable());
}

#[test]
fn a_single_command_folds_to_itself() {
    assert_eq!(IVL0Stmt::seqs(&vec![a()]), a());
    assert_eq!(IVL0Stmt::nondets(&vec![a()]), a());
}

#[test]
fn seqs_nests_to_the_right() {
    assert_eq!(IVL0Stmt::seqs(&vec![a(), b()]), a().seq(&b()));
    assert_eq!(IVL0Stmt::seqs(&vec![a(), b(), c()]), a().seq(&b().seq(&c())));
    assert_ne!(IVL0Stmt::seqs(&vec![a(), b(), c()]), a().seq(&b()).seq(&c()));
}

#[test]
fn nondets_nests_to_the_right() {
    assert_eq!(IVL0Stmt::nondets(&vec![a(), b()]), a().nondet(&b()));
    assert_eq!(IVL0Stmt::nondets(&vec![a(), b(), c()]), a().nondet(&b().nondet(&c())));
}

#[test]
fn with_span_locates_a_command() {
    let located = a().with_span(Span::new(3, 9));
    assert_eq!(located.span, Span::new(3, 9));
    assert_eq!(located.kind, a().kind);
}

#[test]
fn commands_are_rendered_as_text() {
    let x = Name::new("x");
    assert_eq!(
        IVL0Stmt::assign(&x, &var("y").infix(Op::Add, &Expr::num(1))).to_string(),
        "x := (y + 1)"
    );
    assert_eq!(IVL0Stmt::havoc(&x, &Type::Int).to_string(), "havoc x");
    assert_eq!(IVL0Stmt::nop().to_string(), "assume true");
    assert_eq!(IVL0Stmt::unreachable().to_string(), "assume false");
    assert_eq!(
        IVL0Stmt::asserting(&var("x").infix(Op::Gt, &Expr::num(0)), "hidden").to_string(),
        "assert (x > 0)"
    );
    assert_eq!(a().seq(&b()).to_string(), "a := 1 ; b := 2");
    assert_eq!(a().nondet(&b()).to_string(), "{a := 1} [] {b := 2}");
    assert_eq!(
        IVL0Stmt::seqs(&vec![a(), b().nondet(&c()), IVL0Stmt::unreachable()]).to_string(),
        "a := 1 ; {b := 2} [] {c := 3} ; assume false"
    );
}

#[test]
fn a_choice_is_rendered_in_braces_without_inner_spaces() {
    let choice = IVL0Stmt::nop().nondet(&IVL0Stmt::unreachable());
    assert_eq!(choice.to_string(), "{assume true} [] {assume false}");
    assert_eq!(
        choice.nondet(&a()).to_string(),
        "{{assume true} [] {assume false}} [] {a := 1}"
    );
}

#[test]
fn rendering_does_not_tell_every_command_apart() {
    // the message of an assertion and the nesting of sequences are not shown
    let cond = Expr::bool(true);
    assert_eq!(
        IVL0Stmt::asserting(&cond, "one").to_string(),
        IVL0Stmt::asserting(&cond, "two").to_string()
    );
    assert_eq!(a().seq(&b().seq(&c())).to_string(), a().seq(&b()).seq(&c()).to_string());
}

#[test]
fn the_general_names_stand_for_the_same_commands() {
    let stmt: IVLStmt = IVLStmt::assuming(&Expr::bool(true));
    assert_eq!(stmt, IVL0Stmt::nop());
    let kind: IVLStmtKind = IVLStmtKind::Havoc { name: Name::new("x"), ty: Type::Int };
    assert_eq!(kind, IVL0Stmt::havoc(&Name::new("x"), &Type::Int).kind);
}

#[test]
fn clone_gives_an_equal_command() {
    let stmt = IVL0Stmt::seqs(&vec![a(), b().nondet(&c()), IVL0Stmt::asserting(&Expr::bool(false), "m")]);
    assert_eq!(stmt.clone(), stmt);
}

#[test]
fn commands_are_equal_where_they_are_built_alike() {
    let cond = var("x").infix(Op::Gt, &Expr::num(0));
    let stmt = IVL0Stmt::seqs(&vec![a(), b().nondet(&c()), IVL0Stmt::asserting(&cond, "m")]);
    let again = IVL0Stmt::seqs(&vec![a(), b().nondet(&c()), IVL0Stmt::asserting(&cond, "m")]);
    assert!(stmt.same(&again));
    assert!(stmt == again);
    assert!(stmt.kind.same(&again.kind));
    // another message, location, order, type or kind makes another command
    assert!(!IVL0Stmt::asserting(&cond, "m").same(&IVL0Stmt::asserting(&cond, "n")));
    assert!(!a().same(&a().with_span(Span::new(1, 2))));
    assert!(!a().seq(&b()).same(&b().seq(&a())));
    assert!(!a().seq(&b()).same(&a().nondet(&b())));
    assert!(!IVL0Stmt::havoc(&Name::new("x"), &Type::Int)
        .same(&IVL0Stmt::havoc(&Name::new("x"), &Type::Bool)));
    assert!(!IVL0Stmt::assuming(&cond).same(&IVL0Stmt::asserting(&cond, "")));
    assert!(!a().same(&IVL0Stmt::assign(&Name::new("a"), &Expr::num(2))));
}
