//! The statement fragments the compiler consumes.
//!
//! Parsing SQL text into these trees is a collaborator's job; the
//! compiler starts from a parsed statement.  The expression language is
//! the catalog-maintenance dialect: exactly what the self-hosted schema
//! rewrites emit and recompile.
//!
//! The module also gives the WHERE dialect a specification-level meaning
//! ([`eval_cond`]) over an abstract row, so that contracts can state
//! which rows a compiled catalog update touches.

use vstd::prelude::*;

use crate::insn::CollationSeq;
use crate::text::nocase_seq_eq;
use crate::value::{values_eq, Value};

verus! {

/// A possibly database-qualified object name.
#[derive(Debug, PartialEq, Eq)]
pub struct QualifiedName {
    /// The database qualifier, if any.
    pub db_name: Option<String>,
    /// The object name.
    pub name: String,
}

/// An atomic expression: a column reference or a literal.
#[derive(Debug, PartialEq, Eq)]
pub enum SimpleExpr {
    /// A column of the statement's target table, by name.
    Column(String),
    /// A text literal.
    Text(String),
    /// An integer literal.
    Int(i64),
    /// The NULL literal.
    Null,
}

/// A condition of the catalog-maintenance dialect.
#[derive(Debug, PartialEq, Eq)]
pub enum Cond {
    /// Equality of two atomic expressions, under an optional collation.
    Eq {
        /// Left operand.
        lhs: SimpleExpr,
        /// Right operand.
        rhs: SimpleExpr,
        /// Collation for text comparison.
        collation: Option<CollationSeq>,
    },
    /// A pattern match of an atomic expression against a pattern.
    Like {
        /// The matched expression.
        lhs: SimpleExpr,
        /// The pattern.
        pattern: String,
    },
    /// Both conditions hold.
    And(Box<Cond>, Box<Cond>),
    /// At least one condition holds.
    Or(Box<Cond>, Box<Cond>),
}

/// An expression of the catalog-maintenance dialect.
#[derive(Debug, PartialEq, Eq)]
pub enum Expr {
    /// An atomic expression.
    Simple(SimpleExpr),
    /// Text concatenation.
    Concat(Box<Expr>, Box<Expr>),
    /// The suffix of a text value from a 1-based start position.
    Substr(Box<Expr>, Box<Expr>),
    /// A conditional: when the condition holds, the first expression,
    /// otherwise the second.
    CaseWhen {
        /// The tested condition.
        when: Cond,
        /// The value when the condition holds.
        then: Box<Expr>,
        /// The value otherwise.
        otherwise: Box<Expr>,
    },
}

/// One assignment of an UPDATE statement.
#[derive(Debug, PartialEq, Eq)]
pub struct SetClause {
    /// The assigned column, by name.
    pub column: String,
    /// The assigned value.
    pub value: Expr,
}

/// An UPDATE statement of the catalog-maintenance dialect.
#[derive(Debug, PartialEq, Eq)]
pub struct UpdateStmt {
    /// The updated table, by name.
    pub table: String,
    /// The assignments, in order.
    pub sets: Vec<SetClause>,
    /// The restricting condition, if any.
    pub where_clause: Option<Cond>,
}

/// A parsed statement handed to the compiler.
#[derive(Debug, PartialEq, Eq)]
pub enum Stmt {
    /// Rename a table.
    AlterTableRename {
        /// The table to rename.
        table: QualifiedName,
        /// Its new name.
        new_name: String,
    },
    /// Collect statistics for the query planner.
    Analyze {
        /// Restrict collection to one table or index, if given.
        target: Option<QualifiedName>,
    },
    /// Rewrite rows of a table.
    Update(UpdateStmt),
}

/// The position of the first column whose name matches
/// case-insensitively, or -1 if none does.
pub open spec fn col_index(cols: Seq<Seq<char>>, name: Seq<char>) -> int
    decreases cols.len(),
{
    if cols.len() == 0 {
        -1
    } else if nocase_seq_eq(cols[0], name) {
        0
    } else {
        let rest = col_index(cols.drop_first(), name);
        if rest < 0 {
            -1
        } else {
            rest + 1
        }
    }
}

/// The column index is the first case-insensitive match.
pub proof fn lemma_col_index_found(cols: Seq<Seq<char>>, name: Seq<char>, i: int)
    requires
        0 <= i < cols.len(),
        nocase_seq_eq(cols[i], name),
        forall|j: int| 0 <= j < i ==> !nocase_seq_eq(cols[j], name),
    ensures
        col_index(cols, name) == i,
    decreases cols.len(),
{
    if i == 0 {
    } else {
        let rest = cols.drop_first();
        assert(forall|j: int| 0 <= j < rest.len() ==> rest[j] == cols[j + 1]);
        lemma_col_index_found(rest, name, i - 1);
    }
}

/// When no column matches, the column index is -1.
pub proof fn lemma_col_index_missing(cols: Seq<Seq<char>>, name: Seq<char>)
    requires
        forall|j: int| 0 <= j < cols.len() ==> !nocase_seq_eq(cols[j], name),
    ensures
        col_index(cols, name) == -1,
    decreases cols.len(),
{
    if cols.len() > 0 {
        let rest = cols.drop_first();
        assert(forall|j: int| 0 <= j < rest.len() ==> rest[j] == cols[j + 1]);
        lemma_col_index_missing(rest, name);
    }
}

/// The value of an atomic expression over a row, given the target
/// table's column names; `None` when the expression names no column of
/// the row.
pub open spec fn eval_simple(e: SimpleExpr, cols: Seq<Seq<char>>, row: Seq<Value>) -> Option<
    Value,
> {
    match e {
        SimpleExpr::Column(name) => {
            let i = col_index(cols, name@);
            if 0 <= i < row.len() {
                Some(row[i])
            } else {
                None
            }
        },
        SimpleExpr::Text(s) => Some(Value::Text(s)),
        SimpleExpr::Int(v) => Some(Value::Integer(v)),
        SimpleExpr::Null => Some(Value::Null),
    }
}

/// Whether a condition holds of a row: `Some(true)` when it matches,
/// `Some(false)` when it does not, `None` when its value is not
/// determined by this specification (a pattern match, or a reference to
/// a missing column).  An equality with a NULL operand does not match.
pub open spec fn eval_cond(c: Cond, cols: Seq<Seq<char>>, row: Seq<Value>) -> Option<bool>
    decreases c,
{
    match c {
        Cond::Eq { lhs, rhs, collation } => {
            match (eval_simple(lhs, cols, row), eval_simple(rhs, cols, row)) {
                (Some(a), Some(b)) => {
                    if a is Null || b is Null {
                        Some(false)
                    } else {
                        Some(values_eq(collation, false, a, b))
                    }
                },
                _ => None,
            }
        },
        Cond::Like { .. } => None,
        Cond::And(a, b) => {
            match (eval_cond(*a, cols, row), eval_cond(*b, cols, row)) {
                (Some(x), Some(y)) => Some(x && y),
                (Some(false), _) => Some(false),
                (_, Some(false)) => Some(false),
                _ => None,
            }
        },
        Cond::Or(a, b) => {
            match (eval_cond(*a, cols, row), eval_cond(*b, cols, row)) {
                (Some(x), Some(y)) => Some(x || y),
                (Some(true), _) => Some(true),
                (_, Some(true)) => Some(true),
                _ => None,
            }
        },
    }
}

/// Whether an atomic expression only names columns of the given list.
pub open spec fn simple_cols_ok(e: SimpleExpr, cols: Seq<Seq<char>>) -> bool {
    match e {
        SimpleExpr::Column(name) => col_index(cols, name@) >= 0,
        _ => true,
    }
}

/// Whether a condition only names columns of the given list.
pub open spec fn cond_cols_ok(c: Cond, cols: Seq<Seq<char>>) -> bool
    decreases c,
{
    match c {
        Cond::Eq { lhs, rhs, .. } => simple_cols_ok(lhs, cols) && simple_cols_ok(rhs, cols),
        Cond::Like { lhs, .. } => simple_cols_ok(lhs, cols),
        Cond::And(a, b) => cond_cols_ok(*a, cols) && cond_cols_ok(*b, cols),
        Cond::Or(a, b) => cond_cols_ok(*a, cols) && cond_cols_ok(*b, cols),
    }
}

/// Whether an expression only names columns of the given list.
pub open spec fn expr_cols_ok(e: Expr, cols: Seq<Seq<char>>) -> bool
    decreases e,
{
    match e {
        Expr::Simple(s) => simple_cols_ok(s, cols),
        Expr::Concat(a, b) => expr_cols_ok(*a, cols) && expr_cols_ok(*b, cols),
        Expr::Substr(a, b) => expr_cols_ok(*a, cols) && expr_cols_ok(*b, cols),
        Expr::CaseWhen { when, then, otherwise } => cond_cols_ok(when, cols) && expr_cols_ok(
            *then,
            cols,
        ) && expr_cols_ok(*otherwise, cols),
    }
}

/// Whether every column an update names exists in the given list.
pub open spec fn update_cols_ok(u: UpdateStmt, cols: Seq<Seq<char>>) -> bool {
    &&& forall|i: int|
        0 <= i < u.sets@.len() ==> col_index(cols, (#[trigger] u.sets@[i]).column@) >= 0
            && expr_cols_ok(u.sets@[i].value, cols)
    &&& (u.where_clause matches Some(c) ==> cond_cols_ok(c, cols))
}

/// How many scratch registers compiling a condition allocates.
pub open spec fn cond_regs(c: Cond) -> nat
    decreases c,
{
    match c {
        Cond::Eq { .. } => 2,
        Cond::Like { .. } => 3,
        Cond::And(a, b) => cond_regs(*a) + cond_regs(*b),
        Cond::Or(a, b) => cond_regs(*a) + cond_regs(*b),
    }
}

/// How many labels compiling a condition allocates.
pub open spec fn cond_labels(c: Cond) -> nat
    decreases c,
{
    match c {
        Cond::Eq { .. } => 0,
        Cond::Like { .. } => 0,
        Cond::And(a, b) => cond_labels(*a) + cond_labels(*b) + 1,
        Cond::Or(a, b) => cond_labels(*a) + cond_labels(*b) + 1,
    }
}

/// How many scratch registers compiling an expression allocates.
pub open spec fn expr_regs(e: Expr) -> nat
    decreases e,
{
    match e {
        Expr::Simple(_) => 0,
        Expr::Concat(a, b) => expr_regs(*a) + expr_regs(*b) + 2,
        Expr::Substr(a, b) => expr_regs(*a) + expr_regs(*b) + 2,
        Expr::CaseWhen { when, then, otherwise } => cond_regs(when) + expr_regs(*then)
            + expr_regs(*otherwise),
    }
}

/// How many labels compiling an expression allocates.
pub open spec fn expr_labels(e: Expr) -> nat
    decreases e,
{
    match e {
        Expr::Simple(_) => 0,
        Expr::Concat(a, b) => expr_labels(*a) + expr_labels(*b),
        Expr::Substr(a, b) => expr_labels(*a) + expr_labels(*b),
        Expr::CaseWhen { when, then, otherwise } => cond_labels(when) + expr_labels(*then)
            + expr_labels(*otherwise) + 2,
    }
}

/// How many scratch registers compiling an update's assignments
/// allocates, summed from the given position on.
pub open spec fn sets_regs(sets: Seq<SetClause>, from: int) -> nat
    decreases sets.len() - from,
{
    if from < 0 || from >= sets.len() {
        0
    } else {
        expr_regs(sets[from].value) + sets_regs(sets, from + 1)
    }
}

/// How many labels compiling an update's assignments allocates, summed
/// from the given position on.
pub open spec fn sets_labels(sets: Seq<SetClause>, from: int) -> nat
    decreases sets.len() - from,
{
    if from < 0 || from >= sets.len() {
        0
    } else {
        expr_labels(sets[from].value) + sets_labels(sets, from + 1)
    }
}

/// How many scratch registers compiling an update's condition
/// allocates.
pub open spec fn where_regs(u: UpdateStmt) -> nat {
    match u.where_clause {
        Some(c) => cond_regs(c),
        None => 0,
    }
}

/// How many labels compiling an update's condition allocates.
pub open spec fn where_labels(u: UpdateStmt) -> nat {
    match u.where_clause {
        Some(c) => cond_labels(c),
        None => 0,
    }
}

/// Whether the WHERE clause of an update admits a row; an absent clause
/// admits every row.
pub open spec fn where_matches(w: Option<Cond>, cols: Seq<Seq<char>>, row: Seq<Value>) -> bool {
    match w {
        None => true,
        Some(c) => eval_cond(c, cols, row) == Some(true),
    }
}

} // verus!
