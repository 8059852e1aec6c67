//! From source statements to guarded commands.
//!
//! Control flow becomes choice between guarded branches, and a loop becomes
//! one step of an induction over its annotation. A statement that has no
//! encoding is refused: nothing is dropped or approximated.

use vstd::prelude::*;
use crate::expr::{expr_views, Expr, ExprView};
use crate::ivl0::{IVL0Stmt, IVL0StmtView};
use crate::ivl0_ext::views;
use crate::span::Span;
use crate::stmt::{CaseView, Stmt, StmtKind, StmtKindView, StmtView};

verus! {

/// Why a statement has no encoding.
#[derive(Clone, Copy, Debug, PartialEq, Eq)]
pub enum LoweringError {
    /// The statement at this location is of a kind that has no encoding.
    Unsupported(Span),
    /// The loop at this location is not annotated with what it maintains.
    MissingInvariant(Span),
}

/// The message of an assertion of the source.
pub open spec fn assert_message() -> Seq<char> {
    "Assert might fail!"@
}

/// The message where what a loop maintains may not hold before it.
pub open spec fn entry_message() -> Seq<char> {
    "Invariant might not hold on entry"@
}

/// The message where the body of a loop may not keep what the loop maintains.
pub open spec fn preserved_message() -> Seq<char> {
    "Invariant might not be preserved"@
}

/// The message where no branch of a match may apply.
pub open spec fn no_case_message() -> Seq<char> {
    "No case of the match applies"@
}

/// The guards of the branches, in order.
pub open spec fn guards(cases: Seq<CaseView>) -> Seq<ExprView> {
    Seq::new(cases.len(), |i: int| cases[i].condition)
}

/// One branch of a match: its guard is taken to hold, then its body runs.
pub open spec fn branch(condition: ExprView, body: IVL0StmtView) -> IVL0StmtView {
    IVL0StmtView::assuming(condition).with_span(condition.span).seq(body)
}

/// The branch that stands for what the match does not cover: where no guard
/// holds, the match is in error.
pub open spec fn default_branch(cases: Seq<CaseView>, span: Span) -> IVL0StmtView {
    IVL0StmtView::assuming(ExprView::any(guards(cases)).not()).seq(
        IVL0StmtView::asserting(ExprView::bool(false), no_case_message()).with_span(span),
    )
}

/// A loop as one step of an induction: what it maintains holds on entry;
/// then, from any state in which that holds, either the guard holds, the
/// body runs and has to establish it again, and the path ends, or the guard
/// fails and what follows the loop goes on.
pub open spec fn loop_encoding(
    guard: ExprView,
    maintained: ExprView,
    havocs: Seq<IVL0StmtView>,
    body: IVL0StmtView,
) -> IVL0StmtView {
    IVL0StmtView::seqs(
        seq![
            IVL0StmtView::asserting(maintained, entry_message()).with_span(maintained.span),
            IVL0StmtView::seqs(havocs),
            IVL0StmtView::assuming(maintained),
            IVL0StmtView::nondets(
                seq![
                    IVL0StmtView::seqs(
                        seq![
                            IVL0StmtView::assuming(guard),
                            body,
                            IVL0StmtView::asserting(maintained, preserved_message()).with_span(
                                maintained.span,
                            ),
                            IVL0StmtView::unreachable(),
                        ],
                    ),
                    IVL0StmtView::assuming(guard.not()),
                ],
            ),
        ],
    )
}

impl StmtView {
    /// A havoc for each variable that the statement may change, in source
    /// order: the targets of its assignments and its declarations.
    pub open spec fn modified(self) -> Seq<IVL0StmtView>
        decreases self,
    {
        match self.kind {
            StmtKindView::Sequence(a, b) => a.modified() + b.modified(),
            StmtKindView::Assignment { name, expr } => seq![IVL0StmtView::havoc(name, expr.ty)],
            StmtKindView::VarDefinition { name, ty, .. } => seq![IVL0StmtView::havoc(name, ty)],
            StmtKindView::Match { cases } => modified_in_cases(cases),
            StmtKindView::Loop { body, .. } => body.modified(),
            _ => Seq::empty(),
        }
    }

    /// The guarded command that the statement stands for, or why it has none.
    pub open spec fn lower(self) -> Result<IVL0StmtView, LoweringError>
        decreases self,
    {
        match self.kind {
            StmtKindView::Sequence(a, b) => match a.lower() {
                Err(e) => Err(e),
                Ok(first) => match b.lower() {
                    Err(e) => Err(e),
                    Ok(second) => Ok(first.seq(second)),
                },
            },
            StmtKindView::Assignment { name, expr } => Ok(
                IVL0StmtView::assign(name, expr).with_span(self.span),
            ),
            StmtKindView::VarDefinition { name, ty, init } => match init {
                Some(expr) => Ok(IVL0StmtView::assign(name, expr).with_span(self.span)),
                None => Ok(IVL0StmtView::havoc(name, ty).with_span(self.span)),
            },
            StmtKindView::Assert { condition } => Ok(
                IVL0StmtView::asserting(condition, assert_message()).with_span(self.span),
            ),
            StmtKindView::Assume { condition } => Ok(
                IVL0StmtView::assuming(condition).with_span(self.span),
            ),
            StmtKindView::Match { cases } => match lower_cases(cases) {
                Err(e) => Err(e),
                Ok(branches) => Ok(
                    IVL0StmtView::nondets(branches.push(default_branch(cases, self.span))),
                ),
            },
            StmtKindView::Loop { guard, invariants, body } => if invariants.len() == 0 {
                Err(LoweringError::MissingInvariant(self.span))
            } else {
                match body.lower() {
                    Err(e) => Err(e),
                    Ok(lowered) => Ok(
                        loop_encoding(guard, ExprView::all(invariants), body.modified(), lowered),
                    ),
                }
            },
            _ => Err(LoweringError::Unsupported(self.span)),
        }
    }
}

/// The havocs of all the branches, in order.
pub open spec fn modified_in_cases(cases: Seq<CaseView>) -> Seq<IVL0StmtView>
    decreases cases,
{
    if cases.len() == 0 {
        Seq::empty()
    } else {
        modified_in_cases(cases.drop_last()) + cases.last().stmt.modified()
    }
}

/// The branches of a match, each lowered, or the first reason why one has no
/// encoding.
pub open spec fn lower_cases(cases: Seq<CaseView>) -> Result<Seq<IVL0StmtView>, LoweringError>
    decreases cases,
{
    if cases.len() == 0 {
        Ok(Seq::empty())
    } else {
        match lower_cases(cases.drop_last()) {
            Err(e) => Err(e),
            Ok(branches) => match cases.last().stmt.lower() {
                Err(e) => Err(e),
                Ok(body) => Ok(branches.push(branch(cases.last().condition, body))),
            },
        }
    }
}

/// The views of a vector that grew by one are the old views and the view of
/// the new command.
proof fn lemma_views_push(stmts: Seq<IVL0Stmt>, last: IVL0Stmt)
    ensures
        views(stmts.push(last)) == views(stmts).push(last@),
{
    assert(views(stmts.push(last)) =~= views(stmts).push(last@));
}

/// Appends to `out` a havoc for each variable that `stmt` may change.
fn havoc_modified(stmt: &Stmt, out: &mut Vec<IVL0Stmt>)
    ensures
        views(final(out)@) == views(old(out)@) + stmt@.modified(),
    decreases stmt,
{
    match &stmt.kind {
        StmtKind::Sequence(a, b) => {
            havoc_modified(a, out);
            havoc_modified(b, out);
            assert(views(out@) =~= views(old(out)@) + stmt@.modified());
        },
        StmtKind::Assignment { name, expr } => {
            let havoc = IVL0Stmt::havoc(name, &expr.ty);
            proof {
                lemma_views_push(out@, havoc);
            }
            out.push(havoc);
            assert(views(out@) =~= views(old(out)@) + stmt@.modified());
        },
        StmtKind::VarDefinition { name, ty, .. } => {
            let havoc = IVL0Stmt::havoc(name, ty);
            proof {
                lemma_views_push(out@, havoc);
            }
            out.push(havoc);
            assert(views(out@) =~= views(old(out)@) + stmt@.modified());
        },
        StmtKind::Match { cases } => {
            let ghost all = stmt@.kind->cases;
            let mut i: usize = 0;
            assert(all.take(0) =~= Seq::empty());
            assert(views(out@) =~= views(old(out)@) + modified_in_cases(all.take(0)));
            while i < cases.len()
                invariant
                    i <= cases.len(),
                    stmt.kind == (StmtKind::Match { cases: *cases }),
                    all == stmt@.kind->cases,
                    views(out@) == views(old(out)@) + modified_in_cases(all.take(i as int)),
                decreases cases.len() - i,
            {
                havoc_modified(&cases[i].stmt, out);
                assert(all.take(i + 1).drop_last() =~= all.take(i as int));
                assert(all.take(i + 1).last() == cases@[i as int]@);
                assert(views(out@) =~= views(old(out)@) + modified_in_cases(all.take(i + 1)));
                i = i + 1;
            }
            assert(all.take(i as int) =~= all);
        },
        StmtKind::Loop { body, .. } => {
            havoc_modified(body, out);
        },
        _ => {
            assert(views(out@) =~= views(old(out)@) + stmt@.modified());
        },
    }
}

/// Encodes a loop from its parts, each already lowered.
fn encode_loop(guard: &Expr, maintained: &Expr, havocs: &Vec<IVL0Stmt>, body: IVL0Stmt) -> (res:
    IVL0Stmt)
    ensures
        res@ == loop_encoding(guard@, maintained@, views(havocs@), body@),
{
    let step = vec![
        IVL0Stmt::assuming(guard),
        body,
        IVL0Stmt::asserting(maintained, "Invariant might not be preserved").with_span(
            maintained.span,
        ),
        IVL0Stmt::unreachable(),
    ];
    assert(views(step@) =~= seq![step@[0]@, step@[1]@, step@[2]@, step@[3]@]);
    let choice = vec![IVL0Stmt::seqs(&step), IVL0Stmt::assuming(&guard.not())];
    assert(views(choice@) =~= seq![choice@[0]@, choice@[1]@]);
    let parts = vec![
        IVL0Stmt::asserting(maintained, "Invariant might not hold on entry").with_span(
            maintained.span,
        ),
        IVL0Stmt::seqs(havocs),
        IVL0Stmt::assuming(maintained),
        IVL0Stmt::nondets(&choice),
    ];
    assert(views(parts@) =~= seq![parts@[0]@, parts@[1]@, parts@[2]@, parts@[3]@]);
    IVL0Stmt::seqs(&parts)
}

/// Lowers a statement to the guarded command that stands for it.
///
/// A sequence becomes a sequence; an assignment or a declaration with an
/// initial value an assignment; a declaration without one a havoc; an
/// assertion and an assumption themselves, the assertion with a fixed
/// message; each at the location of the statement. A match becomes the choice
/// among its branches, each behind its guard, and one branch more in which
/// no guard holds and which is in error. A loop becomes
/// [`loop_encoding`]; one without annotation is refused, and so is every
/// other kind of statement: a break, a continue, a return, and whatever
/// the source holds besides.
pub fn stmt_to_ivl0stmt(stmt: &Stmt) -> (res: Result<IVL0Stmt, LoweringError>)
    ensures
        match res {
            Ok(lowered) => stmt@.lower() == Ok::<IVL0StmtView, LoweringError>(lowered@),
            Err(e) => stmt@.lower() == Err::<IVL0StmtView, LoweringError>(e),
        },
    decreases stmt,
{
    match &stmt.kind {
        StmtKind::Sequence(a, b) => {
            match stmt_to_ivl0stmt(a) {
                Err(e) => Err(e),
                Ok(first) => match stmt_to_ivl0stmt(b) {
                    Err(e) => Err(e),
                    Ok(second) => Ok(first.seq(&second)),
                },
            }
        },
        StmtKind::Assignment { name, expr } => Ok(
            IVL0Stmt::assign(name, expr).with_span(stmt.span),
        ),
        StmtKind::VarDefinition { name, ty, init } => match init {
            Some(expr) => Ok(IVL0Stmt::assign(name, expr).with_span(stmt.span)),
            None => Ok(IVL0Stmt::havoc(name, ty).with_span(stmt.span)),
        },
        StmtKind::Assert { condition } => Ok(
            IVL0Stmt::asserting(condition, "Assert might fail!").with_span(stmt.span),
        ),
        StmtKind::Assume { condition } => Ok(IVL0Stmt::assuming(condition).with_span(stmt.span)),
        StmtKind::Match { cases } => {
            let ghost all = stmt@.kind->cases;
            let mut branches: Vec<IVL0Stmt> = Vec::new();
            let mut conditions: Vec<Expr> = Vec::new();
            let mut i: usize = 0;
            assert(all.take(0) =~= Seq::empty());
            assert(views(branches@) =~= Seq::empty());
            assert(expr_views(conditions@) =~= guards(all.take(0)));
            while i < cases.len()
                invariant
                    i <= cases.len(),
                    stmt.kind == (StmtKind::Match { cases: *cases }),
                    all == stmt@.kind->cases,
                    lower_cases(all.take(i as int)) == Ok::<Seq<IVL0StmtView>, LoweringError>(
                        views(branches@),
                    ),
                    expr_views(conditions@) == guards(all.take(i as int)),
                decreases cases.len() - i,
            {
                let case = &cases[i];
                assert(all.take(i + 1).drop_last() =~= all.take(i as int));
                assert(all.take(i + 1).last() == case@);
                match stmt_to_ivl0stmt(&case.stmt) {
                    Err(e) => {
                        proof {
                            lemma_lower_cases_fails(all, i as int + 1);
                        }
                        return Err(e);
                    },
                    Ok(body) => {
                        let guarded = IVL0Stmt::assuming(&case.condition).with_span(
                            case.condition.span,
                        ).seq(&body);
                        proof {
                            lemma_views_push(branches@, guarded);
                        }
                        branches.push(guarded);
                        let ghost before = conditions@;
                        conditions.push(case.condition.clone());
                        assert(expr_views(conditions@) =~= expr_views(before).push(
                            case.condition@,
                        ));
                        assert(guards(all.take(i + 1)) =~= guards(all.take(i as int)).push(
                            case.condition@,
                        ));
                    },
                }
                i = i + 1;
            }
            assert(all.take(i as int) =~= all);
            let otherwise = IVL0Stmt::assuming(&Expr::any(&conditions).not()).seq(
                &IVL0Stmt::asserting(&Expr::bool(false), "No case of the match applies").with_span(
                    stmt.span,
                ),
            );
            proof {
                lemma_views_push(branches@, otherwise);
            }
            branches.push(otherwise);
            Ok(IVL0Stmt::nondets(&branches))
        },
        StmtKind::Loop { guard, invariants, body } => {
            if invariants.len() == 0 {
                return Err(LoweringError::MissingInvariant(stmt.span));
            }
            match stmt_to_ivl0stmt(body) {
                Err(e) => Err(e),
                Ok(lowered) => {
                    let maintained = Expr::all(invariants);
                    let mut havocs: Vec<IVL0Stmt> = Vec::new();
                    assert(views(havocs@) =~= Seq::empty());
                    havoc_modified(body, &mut havocs);
                    assert(views(havocs@) =~= body@.modified());
                    Ok(encode_loop(guard, &maintained, &havocs, lowered))
                },
            }
        },
        _ => Err(LoweringError::Unsupported(stmt.span)),
    }
}

/// Where a prefix of the branches has no encoding, the whole has none, for
/// the same reason.
proof fn lemma_lower_cases_fails(cases: Seq<CaseView>, n: int)
    requires
        0 <= n <= cases.len(),
        lower_cases(cases.take(n)) is Err,
    ensures
        lower_cases(cases) == lower_cases(cases.take(n)),
    decreases cases.len() - n,
{
    if n < cases.len() {
        assert(cases.take(n + 1).drop_last() =~= cases.take(n));
        lemma_lower_cases_fails(cases, n + 1);
    } else {
        assert(cases.take(n) =~= cases);
    }
}

} // verus!
