//! The weakest-precondition transformer.
//!
//! For a command and a postcondition it gives the formula that has to hold
//! before the command so that no assertion in it fails and the postcondition
//! holds after it, with the message and the location to report under where
//! the formula cannot be proved.

use vstd::prelude::*;
use crate::expr::{bound_of, max_bound, max_nat, Expr, ExprView};
use crate::ivl0::{IVL0Stmt, IVL0StmtKind, IVL0StmtKindView, IVL0StmtView};
use crate::span::Span;

verus! {

/// Why no weakest precondition could be given.
#[derive(Clone, Copy, Debug, PartialEq, Eq)]
pub enum WpError {
    /// A havoc of the command is left without a number for its solver symbol.
    SymbolsExhausted,
}

impl IVL0StmtView {
    /// How many havocs the command holds: one solver symbol is made for each.
    pub open spec fn havocs(self) -> nat
        decreases self,
    {
        match self.kind {
            IVL0StmtKindView::Havoc { .. } => 1,
            IVL0StmtKindView::Sequence(a, b) => a.havocs() + b.havocs(),
            IVL0StmtKindView::NonDet(a, b) => a.havocs() + b.havocs(),
            _ => 0,
        }
    }

    /// The location and the message of the first assertion of the command
    /// in reading order, if it holds one. In a choice the first branch is
    /// read first.
    pub open spec fn first_assertion(self) -> Option<(Span, Seq<char>)>
        decreases self,
    {
        match self.kind {
            IVL0StmtKindView::Assert { message, .. } => Some((self.span, message)),
            IVL0StmtKindView::Sequence(a, b) => match a.first_assertion() {
                Some(found) => Some(found),
                None => b.first_assertion(),
            },
            IVL0StmtKindView::NonDet(a, b) => match a.first_assertion() {
                Some(found) => Some(found),
                None => b.first_assertion(),
            },
            _ => None,
        }
    }

    /// Whether the command holds an assertion.
    pub open spec fn has_assert(self) -> bool {
        self.first_assertion() is Some
    }

    /// The message to report under: that of the first assertion of the
    /// command, or `incoming` where it has none.
    pub open spec fn message(self, incoming: Seq<char>) -> Seq<char> {
        match self.first_assertion() {
            Some((_, message)) => message,
            None => incoming,
        }
    }

    /// The location to report at: that of the first assertion of the
    /// command, or `incoming` where it has none.
    pub open spec fn location(self, incoming: Span) -> Span {
        match self.first_assertion() {
            Some((span, _)) => span,
            None => incoming,
        }
    }

    /// The least number above the number of every solver symbol in the
    /// expressions of the command.
    pub open spec fn symbol_bound(self) -> nat
        decreases self,
    {
        match self.kind {
            IVL0StmtKindView::Assignment { expr, .. } => expr.symbol_bound(),
            IVL0StmtKindView::Havoc { .. } => 0,
            IVL0StmtKindView::Assume { condition } => condition.symbol_bound(),
            IVL0StmtKindView::Assert { condition, .. } => condition.symbol_bound(),
            IVL0StmtKindView::Sequence(a, b) => max_nat(a.symbol_bound(), b.symbol_bound()),
            IVL0StmtKindView::NonDet(a, b) => max_nat(a.symbol_bound(), b.symbol_bound()),
        }
    }

    /// The weakest precondition of the command for `post`, where the solver
    /// symbols from `next` on are unused.
    ///
    /// An assignment substitutes backwards; a havoc puts a new symbol for
    /// its variable; an assumption is the premise of the postcondition and
    /// an assertion is conjoined with it; a sequence composes, and a choice
    /// needs the preconditions of both branches. The result is located where
    /// the command reports: see [`lemma_wp_location`].
    ///
    /// The command is gone through backwards, so the havocs take their
    /// symbols from the last to the first: the second part of a sequence or
    /// of a choice numbers its symbols from `next`, the first part goes on
    /// where the second ended.
    pub open spec fn wp(self, post: ExprView, next: nat) -> ExprView
        decreases self,
    {
        match self.kind {
            IVL0StmtKindView::Assignment { name, expr } => post.subst(name, expr).with_span(
                post.span,
            ),
            IVL0StmtKindView::Havoc { name, ty } => post.subst(
                name,
                ExprView::symbol(name, next, ty),
            ).with_span(post.span),
            IVL0StmtKindView::Assume { condition } => condition.imp(post).with_span(post.span),
            IVL0StmtKindView::Assert { condition, .. } => condition.and(post).with_span(self.span),
            IVL0StmtKindView::Sequence(a, b) => a.wp(b.wp(post, next), next + b.havocs()),
            IVL0StmtKindView::NonDet(a, b) => {
                let first = a.wp(post, next + b.havocs());
                let second = b.wp(post, next);
                first.and(second).with_span(self.location(post.span))
            },
        }
    }

    /// The number from which [`wp`](crate::wp::wp) takes its solver symbols:
    /// above every symbol of the command and of the postcondition.
    pub open spec fn first_symbol(self, post: ExprView) -> nat {
        max_nat(self.symbol_bound(), post.symbol_bound())
    }

    /// Whether there is a number for the symbol of each havoc of the
    /// command, where the numbers from `first` on are taken: a symbol has a
    /// number up to the greatest of `u64`. A command without havoc needs
    /// none.
    pub open spec fn symbols_suffice(self, first: nat) -> bool {
        self.havocs() == 0 || first + self.havocs() <= u64::MAX + 1
    }
}

/// The weakest precondition is located where the command reports: at its
/// first assertion, or where the postcondition is if it has none.
pub proof fn lemma_wp_location(term: IVL0StmtView, post: ExprView, next: nat)
    ensures
        term.wp(post, next).span == term.location(post.span),
    decreases term,
{
    match term.kind {
        IVL0StmtKindView::Sequence(a, b) => {
            lemma_wp_location(*b, post, next);
            lemma_wp_location(*a, b.wp(post, next), next + b.havocs());
        },
        _ => {},
    }
}

impl IVL0Stmt {
    /// Whether the command holds an assertion.
    pub fn has_assert(&self) -> (res: bool)
        ensures
            res == self@.has_assert(),
        decreases self,
    {
        match &self.kind {
            IVL0StmtKind::Assert { .. } => true,
            IVL0StmtKind::Sequence(a, b) => a.has_assert() || b.has_assert(),
            IVL0StmtKind::NonDet(a, b) => a.has_assert() || b.has_assert(),
            _ => false,
        }
    }

    /// The least number above the number of every solver symbol in the
    /// expressions of the command; `None` stands for the number above the
    /// greatest, see [`bound_of`].
    pub fn symbol_bound(&self) -> (res: Option<u64>)
        ensures
            bound_of(res) == self@.symbol_bound(),
        decreases self,
    {
        match &self.kind {
            IVL0StmtKind::Assignment { expr, .. } => expr.symbol_bound(),
            IVL0StmtKind::Havoc { .. } => Some(0),
            IVL0StmtKind::Assume { condition } => condition.symbol_bound(),
            IVL0StmtKind::Assert { condition, .. } => condition.symbol_bound(),
            IVL0StmtKind::Sequence(a, b) => max_bound(a.symbol_bound(), b.symbol_bound()),
            IVL0StmtKind::NonDet(a, b) => max_bound(a.symbol_bound(), b.symbol_bound()),
        }
    }
}

/// The weakest precondition of `term` for `post` with the symbols from
/// `next` on, the message under which it reports, and the first symbol
/// that is still unused afterwards.
fn wp_from(term: &IVL0Stmt, post: &Expr, message: String, next: Option<u64>) -> (res: Result<
    (Expr, String, Option<u64>),
    WpError,
>)
    ensures
        match res {
            Ok((pre, text, rest)) => {
                &&& term@.symbols_suffice(bound_of(next))
                &&& pre@ == term@.wp(post@, bound_of(next))
                &&& text@ == term@.message(message@)
                &&& bound_of(rest) == bound_of(next) + term@.havocs()
            },
            Err(e) => !term@.symbols_suffice(bound_of(next)),
        },
    decreases term,
{
    match &term.kind {
        IVL0StmtKind::Assignment { name, expr } => {
            Ok((post.subst(name, expr).with_span(post.span), message, next))
        },
        IVL0StmtKind::Havoc { name, ty } => {
            match next {
                None => Err(WpError::SymbolsExhausted),
                Some(number) => {
                    let symbol = Expr::symbol(name, number, *ty);
                    let rest = if number == u64::MAX {
                        None
                    } else {
                        Some(number + 1)
                    };
                    Ok((post.subst(name, &symbol).with_span(post.span), message, rest))
                },
            }
        },
        IVL0StmtKind::Assume { condition } => {
            Ok((condition.imp(post).with_span(post.span), message, next))
        },
        IVL0StmtKind::Assert { condition, message: own } => {
            Ok((condition.and(post).with_span(term.span), own.clone(), next))
        },
        IVL0StmtKind::Sequence(a, b) => {
            match wp_from(b, post, message, next) {
                Ok((middle, text, rest)) => wp_from(a, &middle, text, rest),
                Err(e) => Err(e),
            }
        },
        IVL0StmtKind::NonDet(a, b) => {
            match wp_from(b, post, message, next) {
                Ok((second, text, rest)) => {
                    match wp_from(a, post, text, rest) {
                        Ok((first, text, rest)) => {
                            proof {
                                lemma_wp_location(a@, post@, bound_of(next) + b@.havocs());
                                lemma_wp_location(b@, post@, bound_of(next));
                            }
                            let span = if a.has_assert() {
                                first.span
                            } else {
                                second.span
                            };
                            Ok((first.and(&second).with_span(span), text, rest))
                        },
                        Err(e) => Err(e),
                    }
                },
                Err(e) => Err(e),
            }
        },
    }
}

/// The weakest precondition of `ivl0` for `post`, and the message to report
/// under where it cannot be proved.
///
/// The solver symbols that stand for havocked variables are numbered from
/// above every symbol that `ivl0` and `post` hold already, so none is used
/// twice. The call fails exactly where a havoc is left without a number.
pub fn wp(ivl0: &IVL0Stmt, post: &Expr) -> (res: Result<(Expr, String), WpError>)
    ensures
        match res {
            Ok((pre, message)) => {
                &&& ivl0@.symbols_suffice(ivl0@.first_symbol(post@))
                &&& pre@ == ivl0@.wp(post@, ivl0@.first_symbol(post@))
                &&& message@ == ivl0@.message(Seq::empty())
            },
            Err(e) => {
                &&& e == WpError::SymbolsExhausted
                &&& !ivl0@.symbols_suffice(ivl0@.first_symbol(post@))
            },
        },
{
    wp_above(ivl0, post, Some(0))
}

/// As [`wp`], with the solver symbols numbered from `floor` at least: for a
/// caller that holds symbols of its own, which the new ones must differ
/// from. The floor is a bound as [`Expr::symbol_bound`] gives it.
pub fn wp_above(ivl0: &IVL0Stmt, post: &Expr, floor: Option<u64>) -> (res: Result<
    (Expr, String),
    WpError,
>)
    ensures
        match res {
            Ok((pre, message)) => {
                &&& ivl0@.symbols_suffice(max_nat(bound_of(floor), ivl0@.first_symbol(post@)))
                &&& pre@ == ivl0@.wp(post@, max_nat(bound_of(floor), ivl0@.first_symbol(post@)))
                &&& message@ == ivl0@.message(Seq::empty())
            },
            Err(e) => {
                &&& e == WpError::SymbolsExhausted
                &&& !ivl0@.symbols_suffice(max_nat(bound_of(floor), ivl0@.first_symbol(post@)))
            },
        },
{
    let first = max_bound(floor, max_bound(ivl0.symbol_bound(), post.symbol_bound()));
    match wp_from(ivl0, post, String::new(), first) {
        Ok((pre, message, _)) => Ok((pre, message)),
        Err(_) => Err(WpError::SymbolsExhausted),
    }
}

} // verus!
