//! A verified SQL-to-bytecode compiler core for a register-based database
//! virtual machine.
//!
//! The crate models the compiler's resource discipline (registers, cursors,
//! jump labels), a closed instruction set over typed handles, a program
//! builder with composable control-flow combinators, statement translators
//! for schema maintenance (`ALTER TABLE ... RENAME TO`, `ANALYZE`), an
//! in-memory multi-key sorter, and a disassembly view of compiled programs.

pub mod alter;
pub mod analyze;
pub mod ast;
pub mod builder;
pub mod control;
pub mod emitter;
pub mod explain;
pub mod insn;
pub mod resources;
pub mod schema;
pub mod sorter;
pub mod stats;
pub mod text;
pub mod translate;
pub mod typed;
pub mod update;
pub mod value;

use vstd::prelude::*;

verus! {

/// Errors raised while translating a statement or while bookkeeping
/// compiler resources.
#[derive(Debug, Clone, PartialEq, Eq)]
pub enum TranslateError {
    /// A label was resolved that was never allocated.
    UnknownLabel,
    /// A label was bound to a position a second time.
    DuplicateLabelBinding,
    /// The named table does not exist in the schema.
    NoSuchTable(String),
    /// The target name is already used by a table or index.
    NameInUse(String),
    /// The named table is a system table or otherwise may not be altered.
    TableNotAlterable(String),
    /// Neither a table nor an index with the given name exists.
    NoSuchTableOrIndex(String),
    /// The named column does not exist in the target table.
    NoSuchColumn(String),
    /// Statistics collection needs a row identifier on the target table.
    AnalyzeWithoutRowId(String),
    /// The statement form is recognized but not compiled by this core.
    UnsupportedStatement,
}

} // verus!
