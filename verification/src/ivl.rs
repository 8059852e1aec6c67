//! The guarded-command language under its general name.

use vstd::prelude::*;
use crate::ivl0::{IVL0Stmt, IVL0StmtKind};

verus! {

/// A guarded command.
pub type IVLStmt = IVL0Stmt;

/// The kinds of guarded commands.
pub type IVLStmtKind = IVL0StmtKind;

} // verus!
