//! The core of a deductive program verifier.
//!
//! A method body is lowered to a guarded command ([`lowering`]), the weakest
//! precondition of the command gives the verification condition of the
//! method ([`wp`]), and the condition is put to a satisfiability solver,
//! whose answer becomes a diagnostic ([`discharge`]). The solver itself is
//! driven by the caller.
//!
//! Contracts are stated over the mathematical values of the data: the view
//! of an expression, a command or a statement is the same tree with names and
//! messages as sequences of characters and numbers as integers.
//! [`semantics`] says what expressions mean, [`verdicts`] which methods
//! verify and which fail, and [`soundness`] proves that a method whose
//! condition the solver cannot refute does not fail an assertion.

pub mod span;
pub mod expr;
pub mod semantics;
pub mod stmt;
pub mod ivl;
pub mod ivl0;
pub mod ivl0_ext;
pub mod equality;
pub mod render;
pub mod lowering;
pub mod wp;
pub mod report;
pub mod discharge;
pub mod verdicts;
pub mod lint;
pub mod solver;
pub mod soundness;
