//! The closed instruction set of the virtual machine.
//!
//! Every instruction is an immutable tagged variant whose fields are typed
//! resource handles ([`Reg`], [`Cursor`], [`Label`]), literal constants, or
//! small flag enums.  Instructions never carry raw numeric indices: this is
//! the invariant that keeps register, cursor and label spaces apart.
//!
//! Each branch-carrying instruction declares exactly which labels it
//! references ([`Insn::referenced_labels`]); the disassembler and the
//! structural well-formedness checks are built on that declaration.

use vstd::prelude::*;

use crate::resources::{Cursor, Label, Reg};

verus! {

/// A named comparison function for text values.
#[derive(Debug, Clone, Copy, PartialEq, Eq, Structural)]
pub enum CollationSeq {
    /// Byte-for-byte comparison.
    Binary,
    /// ASCII case-insensitive comparison.
    NoCase,
    /// Comparison ignoring trailing spaces.
    Rtrim,
}

/// Flags carried by the six comparison-and-branch instructions.
#[derive(Debug, Clone, Copy, PartialEq, Eq, Structural)]
pub struct CmpInsFlags {
    /// Treat two NULL operands as equal instead of unknown.
    pub null_eq: bool,
    /// Take the jump when either operand is NULL.
    pub jump_if_null: bool,
}

impl CmpInsFlags {
    /// Flags with every bit clear.
    pub fn new() -> (r: CmpInsFlags)
        ensures
            r == (CmpInsFlags { null_eq: false, jump_if_null: false }),
    {
        CmpInsFlags { null_eq: false, jump_if_null: false }
    }

    /// Set the null-equal bit.
    pub fn null_eq(self) -> (r: CmpInsFlags)
        ensures
            r == (CmpInsFlags { null_eq: true, ..self }),
    {
        CmpInsFlags { null_eq: true, ..self }
    }
}

impl Default for CmpInsFlags {
    /// Flags with every bit clear.
    fn default() -> (r: CmpInsFlags)
        ensures
            r == (CmpInsFlags { null_eq: false, jump_if_null: false }),
    {
        CmpInsFlags { null_eq: false, jump_if_null: false }
    }
}

/// Flags for index insertion.
#[derive(Debug, Clone, Copy, PartialEq, Eq, Structural)]
pub struct IdxInsertFlags {
    /// The key is known to sort after every existing entry.
    pub append: bool,
}

impl Default for IdxInsertFlags {
    /// Flags with every bit clear.
    fn default() -> (r: IdxInsertFlags)
        ensures
            r == (IdxInsertFlags { append: false }),
    {
        IdxInsertFlags { append: false }
    }
}

/// Flags for table row insertion.
#[derive(Debug, Clone, Copy, PartialEq, Eq, Structural)]
pub struct InsertFlags {
    /// The key is known to sort after every existing entry.
    pub append: bool,
}

impl Default for InsertFlags {
    /// Flags with every bit clear.
    fn default() -> (r: InsertFlags)
        ensures
            r == (InsertFlags { append: false }),
    {
        InsertFlags { append: false }
    }
}

/// Flags for B-tree creation.
#[derive(Debug, Clone, Copy, PartialEq, Eq, Structural)]
pub struct CreateBTreeFlags {
    /// The new B-tree stores a table (else an index).
    pub is_table: bool,
}

impl CreateBTreeFlags {
    /// Flags for creating a table B-tree.
    pub fn new_table() -> (r: CreateBTreeFlags)
        ensures
            r == (CreateBTreeFlags { is_table: true }),
    {
        CreateBTreeFlags { is_table: true }
    }

    /// Flags for creating an index B-tree.
    pub fn new_index() -> (r: CreateBTreeFlags)
        ensures
            r == (CreateBTreeFlags { is_table: false }),
    {
        CreateBTreeFlags { is_table: false }
    }
}

/// The declared preferred storage class of a column.
#[derive(Debug, Clone, Copy, PartialEq, Eq, Structural)]
pub enum Affinity {
    /// No coercion.
    Blob,
    /// Coerce to text.
    Text,
    /// Coerce to a number when the text looks numeric.
    Numeric,
    /// Coerce to an integer.
    Integer,
    /// Coerce to a real number.
    Real,
}

/// A header field of the database file, addressed by the SetCookie
/// instruction.
#[derive(Debug, Clone, Copy, PartialEq, Eq, Structural)]
pub enum Cookie {
    /// The schema version counter.
    SchemaVersion,
    /// The largest allocated root page.
    LargestRootPage,
}

/// Scalar functions callable through the Function instruction.
#[derive(Debug, Clone, Copy, PartialEq, Eq, Structural)]
pub enum ScalarFunc {
    /// Initialize a statistics accumulator.
    StatInit,
    /// Feed one change index into a statistics accumulator.
    StatPush,
    /// Render a statistics accumulator as a stat string.
    StatGet,
    /// Substring extraction.
    Substr,
    /// Pattern match.
    Like,
    /// String concatenation.
    Concat,
}

/// Algebraic aggregate accumulators.
#[derive(Debug, Clone, Copy, PartialEq, Eq, Structural)]
pub enum AggFunc {
    /// Row count.
    Count,
    /// Sum of values.
    Sum,
    /// Average of values.
    Avg,
    /// Minimum value.
    Min,
    /// Maximum value.
    Max,
}

/// The root page operand of an OpenWrite: either a literal page number or
/// a register holding a freshly created root page.
#[derive(Debug, Clone, Copy, PartialEq, Eq, Structural)]
pub enum RootPage {
    /// A literal page number.
    Page(usize),
    /// A register holding the page number.
    FromRegister(Reg),
}

/// One instruction of the virtual machine.
#[derive(Debug, Clone, PartialEq, Eq)]
pub enum Insn {
    /// Initialize the program state and jump to the given label.
    Init {
        /// First instruction to execute.
        target: Label,
    },
    /// Unconditional jump.
    Goto {
        /// Jump destination.
        target: Label,
    },
    /// Store the return address in a register, then jump to the target.
    Gosub {
        /// Subroutine entry point.
        target: Label,
        /// Register receiving the return address.
        return_reg: Reg,
    },
    /// Return to the address stored in a register.
    Return {
        /// Register holding the return address.
        return_reg: Reg,
        /// Fall through when the register holds no address.
        can_fallthrough: bool,
    },
    /// Halt execution.
    Halt {
        /// Error code; zero means success.
        err_code: usize,
        /// Human-readable description.
        description: String,
    },
    /// Halt when the register is NULL.
    HaltIfNull {
        /// Register to test.
        reg: Reg,
        /// Error code raised on NULL.
        err_code: usize,
        /// Human-readable description.
        description: String,
    },
    /// Execute the following block only the first time control arrives;
    /// afterwards jump past it.
    Once {
        /// Where to jump on re-entry.
        target: Label,
    },
    /// Jump if the two registers compare equal.
    Eq {
        /// Left operand register.
        lhs: Reg,
        /// Right operand register.
        rhs: Reg,
        /// Jump destination.
        target: Label,
        /// Null handling.
        flags: CmpInsFlags,
        /// Collation for text operands.
        collation: Option<CollationSeq>,
    },
    /// Jump if the two registers compare unequal.
    Ne {
        /// Left operand register.
        lhs: Reg,
        /// Right operand register.
        rhs: Reg,
        /// Jump destination.
        target: Label,
        /// Null handling.
        flags: CmpInsFlags,
        /// Collation for text operands.
        collation: Option<CollationSeq>,
    },
    /// Jump if the left register is less than the right.
    Lt {
        /// Left operand register.
        lhs: Reg,
        /// Right operand register.
        rhs: Reg,
        /// Jump destination.
        target: Label,
        /// Null handling.
        flags: CmpInsFlags,
        /// Collation for text operands.
        collation: Option<CollationSeq>,
    },
    /// Jump if the left register is at most the right.
    Le {
        /// Left operand register.
        lhs: Reg,
        /// Right operand register.
        rhs: Reg,
        /// Jump destination.
        target: Label,
        /// Null handling.
        flags: CmpInsFlags,
        /// Collation for text operands.
        collation: Option<CollationSeq>,
    },
    /// Jump if the left register is greater than the right.
    Gt {
        /// Left operand register.
        lhs: Reg,
        /// Right operand register.
        rhs: Reg,
        /// Jump destination.
        target: Label,
        /// Null handling.
        flags: CmpInsFlags,
        /// Collation for text operands.
        collation: Option<CollationSeq>,
    },
    /// Jump if the left register is at least the right.
    Ge {
        /// Left operand register.
        lhs: Reg,
        /// Right operand register.
        rhs: Reg,
        /// Jump destination.
        target: Label,
        /// Null handling.
        flags: CmpInsFlags,
        /// Collation for text operands.
        collation: Option<CollationSeq>,
    },
    /// Jump if the register holds a true value.
    If {
        /// Register to test.
        reg: Reg,
        /// Jump destination.
        target: Label,
        /// Also jump when the register is NULL.
        jump_if_null: bool,
    },
    /// Jump if the register holds a false value.
    IfNot {
        /// Register to test.
        reg: Reg,
        /// Jump destination.
        target: Label,
        /// Also jump when the register is NULL.
        jump_if_null: bool,
    },
    /// Jump if the register is NULL.
    IsNull {
        /// Register to test.
        reg: Reg,
        /// Jump destination.
        target: Label,
    },
    /// Jump if the register is not NULL.
    NotNull {
        /// Register to test.
        reg: Reg,
        /// Jump destination.
        target: Label,
    },
    /// Jump if the register is positive, decrementing it.
    IfPos {
        /// Register to test and decrement.
        reg: Reg,
        /// Jump destination.
        target: Label,
        /// Amount subtracted when the jump is taken.
        decrement_by: usize,
    },
    /// Compare two register vectors, setting the saved comparison result.
    Compare {
        /// First register of the left vector.
        start_reg_a: Reg,
        /// First register of the right vector.
        start_reg_b: Reg,
        /// Number of registers compared.
        count: usize,
    },
    /// Jump on the saved comparison result.
    Jump {
        /// Destination when the left vector was smaller.
        target_lt: Label,
        /// Destination when the vectors were equal.
        target_eq: Label,
        /// Destination when the left vector was greater.
        target_gt: Label,
    },
    /// Open a read cursor on a B-tree.
    OpenRead {
        /// Cursor to open.
        cursor: Cursor,
        /// Root page of the B-tree.
        root_page: usize,
        /// Database index.
        db: usize,
    },
    /// Open a write cursor on a B-tree.
    OpenWrite {
        /// Cursor to open.
        cursor: Cursor,
        /// Root page of the B-tree.
        root_page: RootPage,
        /// Database index.
        db: usize,
    },
    /// Open a pseudo cursor that reads a single row from a register.
    OpenPseudo {
        /// Cursor to open.
        cursor: Cursor,
        /// Register holding the row content.
        content_reg: Reg,
        /// Number of fields in the row.
        num_fields: usize,
    },
    /// Open an ephemeral table.
    OpenEphemeral {
        /// Cursor to open.
        cursor: Cursor,
        /// Whether the ephemeral structure is a table.
        is_table: bool,
    },
    /// Close a cursor.
    Close {
        /// Cursor to close.
        cursor: Cursor,
    },
    /// Position the cursor at the first row, or jump when empty.
    Rewind {
        /// Cursor to rewind.
        cursor: Cursor,
        /// Destination when the cursor is empty.
        if_empty: Label,
    },
    /// Position the cursor at the last row, or jump when empty.
    Last {
        /// Cursor to position.
        cursor: Cursor,
        /// Destination when the cursor is empty.
        if_empty: Label,
    },
    /// Step to the next row and jump back while rows remain.
    Next {
        /// Cursor to step.
        cursor: Cursor,
        /// Destination while rows remain.
        if_next: Label,
    },
    /// Step to the previous row and jump back while rows remain.
    Prev {
        /// Cursor to step.
        cursor: Cursor,
        /// Destination while rows remain.
        if_prev: Label,
    },
    /// Seek a table cursor to a row id, or jump when absent.
    SeekRowid {
        /// Cursor to position.
        cursor: Cursor,
        /// Register holding the row id.
        rowid_reg: Reg,
        /// Destination when the row is absent.
        if_not_found: Label,
    },
    /// Position the cursor past the last entry, for appending.
    SeekEnd {
        /// Cursor to position.
        cursor: Cursor,
    },
    /// Move the cursor to the null row.
    NullRow {
        /// Cursor to position.
        cursor: Cursor,
    },
    /// Defer resolving an index cursor's table row until it is read.
    DeferredSeek {
        /// Index cursor already positioned.
        index_cursor: Cursor,
        /// Table cursor to position lazily.
        table_cursor: Cursor,
    },
    /// Position an index cursor at the first entry not below the key.
    SeekGe {
        /// Cursor to position.
        cursor: Cursor,
        /// First register of the key.
        key_reg: Reg,
        /// Number of key registers.
        num_keys: usize,
        /// Destination when no such entry exists.
        if_not_found: Label,
    },
    /// Position an index cursor at the first entry above the key.
    SeekGt {
        /// Cursor to position.
        cursor: Cursor,
        /// First register of the key.
        key_reg: Reg,
        /// Number of key registers.
        num_keys: usize,
        /// Destination when no such entry exists.
        if_not_found: Label,
    },
    /// Position an index cursor at the last entry not above the key.
    SeekLe {
        /// Cursor to position.
        cursor: Cursor,
        /// First register of the key.
        key_reg: Reg,
        /// Number of key registers.
        num_keys: usize,
        /// Destination when no such entry exists.
        if_not_found: Label,
    },
    /// Position an index cursor at the last entry below the key.
    SeekLt {
        /// Cursor to position.
        cursor: Cursor,
        /// First register of the key.
        key_reg: Reg,
        /// Number of key registers.
        num_keys: usize,
        /// Destination when no such entry exists.
        if_not_found: Label,
    },
    /// Jump if the current index key is above the register key.
    IdxGt {
        /// Index cursor to compare against.
        cursor: Cursor,
        /// First register of the key.
        key_reg: Reg,
        /// Number of key registers.
        num_keys: usize,
        /// Jump destination.
        target: Label,
    },
    /// Jump if the current index key is not below the register key.
    IdxGe {
        /// Index cursor to compare against.
        cursor: Cursor,
        /// First register of the key.
        key_reg: Reg,
        /// Number of key registers.
        num_keys: usize,
        /// Jump destination.
        target: Label,
    },
    /// Jump if the current index key is below the register key.
    IdxLt {
        /// Index cursor to compare against.
        cursor: Cursor,
        /// First register of the key.
        key_reg: Reg,
        /// Number of key registers.
        num_keys: usize,
        /// Jump destination.
        target: Label,
    },
    /// Jump if the current index key is not above the register key.
    IdxLe {
        /// Index cursor to compare against.
        cursor: Cursor,
        /// First register of the key.
        key_reg: Reg,
        /// Number of key registers.
        num_keys: usize,
        /// Jump destination.
        target: Label,
    },
    /// Insert a packed key into an index.
    IdxInsert {
        /// Index cursor to insert through.
        cursor: Cursor,
        /// Register holding the packed key record.
        key_reg: Reg,
        /// Insertion flags.
        flags: IdxInsertFlags,
    },
    /// Delete the entry matching the register key from an index.
    IdxDelete {
        /// Index cursor to delete through.
        cursor: Cursor,
        /// First register of the key.
        start_reg: Reg,
        /// Number of key registers.
        num_regs: usize,
    },
    /// Read the row id out of an index cursor.
    IdxRowId {
        /// Index cursor to read.
        cursor: Cursor,
        /// Destination register.
        dest: Reg,
    },
    /// Read one column of the current row into a register.
    Column {
        /// Cursor to read.
        cursor: Cursor,
        /// Column position.
        column: usize,
        /// Destination register.
        dest: Reg,
    },
    /// Read the row id of the current row into a register.
    RowId {
        /// Cursor to read.
        cursor: Cursor,
        /// Destination register.
        dest: Reg,
    },
    /// Read the whole encoded row into a register.
    RowData {
        /// Cursor to read.
        cursor: Cursor,
        /// Destination register.
        dest: Reg,
    },
    /// Copy a run of registers.
    Copy {
        /// First source register.
        src: Reg,
        /// First destination register.
        dest: Reg,
        /// Number of registers copied.
        count: usize,
    },
    /// Shallow copy of a single register.
    SCopy {
        /// Source register.
        src: Reg,
        /// Destination register.
        dest: Reg,
    },
    /// Move a run of registers, leaving the sources NULL.
    Move {
        /// First source register.
        src: Reg,
        /// First destination register.
        dest: Reg,
        /// Number of registers moved.
        count: usize,
    },
    /// Set a run of registers to NULL.
    Null {
        /// First register to clear.
        dest: Reg,
        /// Number of registers cleared.
        count: usize,
    },
    /// Load an integer constant.
    Integer {
        /// Value to load.
        value: i64,
        /// Destination register.
        dest: Reg,
    },
    /// Load a string constant.
    String8 {
        /// Value to load.
        value: String,
        /// Destination register.
        dest: Reg,
    },
    /// Load a blob constant.
    Blob {
        /// Value to load.
        value: Vec<u8>,
        /// Destination register.
        dest: Reg,
    },
    /// Convert an integer register to a real where applicable.
    RealAffinity {
        /// Register to convert.
        reg: Reg,
    },
    /// Add two registers.
    Add {
        /// Left operand register.
        lhs: Reg,
        /// Right operand register.
        rhs: Reg,
        /// Destination register.
        dest: Reg,
    },
    /// Subtract the right register from the left.
    Subtract {
        /// Left operand register.
        lhs: Reg,
        /// Right operand register.
        rhs: Reg,
        /// Destination register.
        dest: Reg,
    },
    /// Multiply two registers.
    Multiply {
        /// Left operand register.
        lhs: Reg,
        /// Right operand register.
        rhs: Reg,
        /// Destination register.
        dest: Reg,
    },
    /// Divide the left register by the right.
    Divide {
        /// Left operand register.
        lhs: Reg,
        /// Right operand register.
        rhs: Reg,
        /// Destination register.
        dest: Reg,
    },
    /// Remainder of dividing the left register by the right.
    Remainder {
        /// Left operand register.
        lhs: Reg,
        /// Right operand register.
        rhs: Reg,
        /// Destination register.
        dest: Reg,
    },
    /// Bitwise AND of two registers.
    BitAnd {
        /// Left operand register.
        lhs: Reg,
        /// Right operand register.
        rhs: Reg,
        /// Destination register.
        dest: Reg,
    },
    /// Bitwise OR of two registers.
    BitOr {
        /// Left operand register.
        lhs: Reg,
        /// Right operand register.
        rhs: Reg,
        /// Destination register.
        dest: Reg,
    },
    /// Bitwise NOT of a register.
    BitNot {
        /// Operand register.
        reg: Reg,
        /// Destination register.
        dest: Reg,
    },
    /// Arithmetic negation of a register.
    Negative {
        /// Operand register.
        reg: Reg,
        /// Destination register.
        dest: Reg,
    },
    /// Pack a register range into the row-record encoding.
    MakeRecord {
        /// First register of the range.
        start_reg: Reg,
        /// Number of registers packed.
        count: usize,
        /// Destination register for the record.
        dest: Reg,
    },
    /// Emit one output row from a register range.
    ResultRow {
        /// First register of the row.
        start_reg: Reg,
        /// Number of registers in the row.
        count: usize,
    },
    /// Generate the next unused integer key for a table.
    NewRowId {
        /// Table cursor.
        cursor: Cursor,
        /// Destination register for the key.
        dest: Reg,
    },
    /// Insert a record under a key.
    Insert {
        /// Table cursor.
        cursor: Cursor,
        /// Register holding the key.
        key_reg: Reg,
        /// Register holding the packed record.
        record_reg: Reg,
        /// Insertion flags.
        flags: InsertFlags,
        /// Name of the table, for diagnostics.
        table_name: String,
    },
    /// Delete the current row.
    Delete {
        /// Table cursor positioned on the row.
        cursor: Cursor,
        /// Name of the table, for diagnostics.
        table_name: String,
    },
    /// Count the rows of a cursor exactly.
    Count {
        /// Cursor to count.
        cursor: Cursor,
        /// Destination register for the count.
        dest: Reg,
        /// Whether an exact count is required.
        exact: bool,
    },
    /// Coerce a register to an affinity.
    Cast {
        /// Register to coerce.
        reg: Reg,
        /// Target affinity.
        affinity: Affinity,
    },
    /// Initialize an aggregate accumulator.
    AggInit {
        /// Register holding the accumulator.
        dest: Reg,
        /// Aggregate function.
        func: AggFunc,
    },
    /// Feed one row into an aggregate accumulator.
    AggStep {
        /// Aggregate function.
        func: AggFunc,
        /// First argument register.
        args_start: Reg,
        /// Number of argument registers.
        arg_count: usize,
        /// Register holding the accumulator.
        dest: Reg,
    },
    /// Finalize an aggregate accumulator.
    AggFinal {
        /// Register holding the accumulator.
        dest: Reg,
        /// Aggregate function.
        func: AggFunc,
    },
    /// Read an aggregate accumulator without finalizing it.
    AggValue {
        /// Register holding the accumulator.
        dest: Reg,
        /// Aggregate function.
        func: AggFunc,
    },
    /// Open a sorter cursor.
    SorterOpen {
        /// Cursor to open.
        cursor: Cursor,
        /// Number of columns per sorter record.
        num_columns: usize,
    },
    /// Insert a record into a sorter.
    SorterInsert {
        /// Sorter cursor.
        cursor: Cursor,
        /// Register holding the packed record.
        record_reg: Reg,
    },
    /// Sort the buffered records, or jump when the sorter is empty.
    SorterSort {
        /// Sorter cursor.
        cursor: Cursor,
        /// Destination when the sorter is empty.
        if_empty: Label,
    },
    /// Read the current sorter record into a register.
    SorterData {
        /// Sorter cursor.
        cursor: Cursor,
        /// Destination register.
        dest: Reg,
        /// Pseudo cursor to expose the record through.
        pseudo_cursor: Option<Cursor>,
    },
    /// Step to the next sorter record and jump back while records remain.
    SorterNext {
        /// Sorter cursor.
        cursor: Cursor,
        /// Destination while records remain.
        if_next: Label,
    },
    /// Mark the start of a subroutine by clearing its return register.
    BeginSubrtn {
        /// Return-address register to clear.
        dest: Reg,
    },
    /// End a coroutine.
    EndCoroutine {
        /// Register holding the coroutine state.
        yield_reg: Reg,
    },
    /// Initialize a coroutine.
    InitCoroutine {
        /// Register holding the coroutine state.
        yield_reg: Reg,
        /// Destination after initialization.
        jump_on_init: Label,
        /// First instruction of the coroutine body.
        start_label: Label,
    },
    /// Yield from a coroutine.
    Yield {
        /// Register holding the coroutine state.
        yield_reg: Reg,
        /// Destination when the coroutine has ended.
        resume_label: Label,
    },
    /// Start a transaction.
    Transaction {
        /// Database index.
        db: usize,
        /// Whether the transaction writes.
        write: bool,
    },
    /// Set the auto-commit mode.
    AutoCommit {
        /// New auto-commit setting.
        auto_commit: bool,
        /// Roll back instead of committing.
        rollback: bool,
    },
    /// Call a scalar function.
    Function {
        /// Function to call.
        func: ScalarFunc,
        /// First argument register.
        args_start: Reg,
        /// Number of argument registers.
        arg_count: usize,
        /// Destination register for the result.
        dest: Reg,
        /// Bit mask of constant arguments.
        constant_mask: i32,
    },
    /// No operation.
    Noop,
    /// Decrement a register and jump when it reaches zero.
    DecrJumpZero {
        /// Register to decrement.
        reg: Reg,
        /// Destination when the register reaches zero.
        target: Label,
    },
    /// Apply an affinity string to a run of registers.
    ApplyAffinity {
        /// First register of the run.
        start_reg: Reg,
        /// One affinity letter per register.
        affinities: String,
    },
    /// Check a register run against a table's declared column types.
    TypeCheck {
        /// First register of the run.
        start_reg: Reg,
        /// Number of registers checked.
        count: usize,
        /// Name of the table whose declaration is checked against.
        table_name: String,
    },
    /// Allocate a new B-tree and store its root page in a register.
    CreateBtree {
        /// Database index.
        db: usize,
        /// Destination register for the root page.
        root: Reg,
        /// Creation flags.
        flags: CreateBTreeFlags,
    },
    /// Re-read the schema rows matching a predicate.
    ParseSchema {
        /// Database index.
        db: usize,
        /// Restricting predicate over the schema table.
        where_clause: Option<String>,
    },
    /// Write a header field of the database file.
    SetCookie {
        /// Database index.
        db: usize,
        /// Field to write.
        cookie: Cookie,
        /// Value to store.
        value: i32,
        /// Small flag operand.
        p5: u16,
    },
    /// Diagnostic trace message.
    Trace {
        /// Message text.
        message: String,
    },
}

/// The labels referenced by an instruction.
pub open spec fn spec_referenced_labels(i: Insn) -> Seq<Label> {
    match i {
        Insn::Init { target } => seq![target],
        Insn::Goto { target } => seq![target],
        Insn::Gosub { target, .. } => seq![target],
        Insn::Once { target } => seq![target],
        Insn::Eq { target, .. } => seq![target],
        Insn::Ne { target, .. } => seq![target],
        Insn::Lt { target, .. } => seq![target],
        Insn::Le { target, .. } => seq![target],
        Insn::Gt { target, .. } => seq![target],
        Insn::Ge { target, .. } => seq![target],
        Insn::If { target, .. } => seq![target],
        Insn::IfNot { target, .. } => seq![target],
        Insn::IsNull { target, .. } => seq![target],
        Insn::NotNull { target, .. } => seq![target],
        Insn::IfPos { target, .. } => seq![target],
        Insn::Jump { target_lt, target_eq, target_gt } => seq![target_lt, target_eq, target_gt],
        Insn::Rewind { if_empty, .. } => seq![if_empty],
        Insn::Last { if_empty, .. } => seq![if_empty],
        Insn::Next { if_next, .. } => seq![if_next],
        Insn::Prev { if_prev, .. } => seq![if_prev],
        Insn::SeekRowid { if_not_found, .. } => seq![if_not_found],
        Insn::SeekGe { if_not_found, .. } => seq![if_not_found],
        Insn::SeekGt { if_not_found, .. } => seq![if_not_found],
        Insn::SeekLe { if_not_found, .. } => seq![if_not_found],
        Insn::SeekLt { if_not_found, .. } => seq![if_not_found],
        Insn::IdxGt { target, .. } => seq![target],
        Insn::IdxGe { target, .. } => seq![target],
        Insn::IdxLt { target, .. } => seq![target],
        Insn::IdxLe { target, .. } => seq![target],
        Insn::SorterSort { if_empty, .. } => seq![if_empty],
        Insn::SorterNext { if_next, .. } => seq![if_next],
        Insn::DecrJumpZero { target, .. } => seq![target],
        Insn::InitCoroutine { jump_on_init, start_label, .. } => seq![jump_on_init, start_label],
        Insn::Yield { resume_label, .. } => seq![resume_label],
        _ => Seq::<Label>::empty(),
    }
}

/// Whether an instruction can transfer control away from the next
/// instruction.
pub open spec fn spec_is_jump(i: Insn) -> bool {
    spec_referenced_labels(i).len() > 0
}

/// Whether an instruction is a loop entry: it positions an iteration
/// resource and jumps past the loop when the resource is empty.
pub open spec fn is_loop_entry(i: Insn) -> bool {
    i is Rewind || i is Last || i is SorterSort
}

/// The empty-resource target of a loop entry instruction.
pub open spec fn loop_entry_target(i: Insn) -> Label
    recommends
        is_loop_entry(i),
{
    match i {
        Insn::Rewind { if_empty, .. } => if_empty,
        Insn::Last { if_empty, .. } => if_empty,
        Insn::SorterSort { if_empty, .. } => if_empty,
        _ => Label(0),
    }
}

/// Whether an instruction is a loop step: it advances an iteration
/// resource and jumps back while rows remain.
pub open spec fn is_loop_step(i: Insn) -> bool {
    i is Next || i is Prev || i is SorterNext
}

/// The jump-back target of a loop step instruction.
pub open spec fn loop_step_target(i: Insn) -> Label
    recommends
        is_loop_step(i),
{
    match i {
        Insn::Next { if_next, .. } => if_next,
        Insn::Prev { if_prev, .. } => if_prev,
        Insn::SorterNext { if_next, .. } => if_next,
        _ => Label(0),
    }
}

/// The registers an instruction reads.
pub open spec fn spec_reads_registers(i: Insn) -> Seq<Reg> {
    match i {
        Insn::Eq { lhs, rhs, .. } => seq![lhs, rhs],
        Insn::Ne { lhs, rhs, .. } => seq![lhs, rhs],
        Insn::Lt { lhs, rhs, .. } => seq![lhs, rhs],
        Insn::Le { lhs, rhs, .. } => seq![lhs, rhs],
        Insn::Gt { lhs, rhs, .. } => seq![lhs, rhs],
        Insn::Ge { lhs, rhs, .. } => seq![lhs, rhs],
        Insn::Add { lhs, rhs, .. } => seq![lhs, rhs],
        Insn::Subtract { lhs, rhs, .. } => seq![lhs, rhs],
        Insn::Multiply { lhs, rhs, .. } => seq![lhs, rhs],
        Insn::Divide { lhs, rhs, .. } => seq![lhs, rhs],
        Insn::Remainder { lhs, rhs, .. } => seq![lhs, rhs],
        Insn::BitAnd { lhs, rhs, .. } => seq![lhs, rhs],
        Insn::BitOr { lhs, rhs, .. } => seq![lhs, rhs],
        Insn::If { reg, .. } => seq![reg],
        Insn::IfNot { reg, .. } => seq![reg],
        Insn::IsNull { reg, .. } => seq![reg],
        Insn::NotNull { reg, .. } => seq![reg],
        Insn::IfPos { reg, .. } => seq![reg],
        Insn::BitNot { reg, .. } => seq![reg],
        Insn::Negative { reg, .. } => seq![reg],
        Insn::RealAffinity { reg } => seq![reg],
        Insn::Cast { reg, .. } => seq![reg],
        Insn::HaltIfNull { reg, .. } => seq![reg],
        Insn::DecrJumpZero { reg, .. } => seq![reg],
        Insn::Return { return_reg, .. } => seq![return_reg],
        Insn::Copy { src, .. } => seq![src],
        Insn::SCopy { src, .. } => seq![src],
        Insn::Move { src, .. } => seq![src],
        Insn::SeekRowid { rowid_reg, .. } => seq![rowid_reg],
        Insn::SeekGe { key_reg, .. } => seq![key_reg],
        Insn::SeekGt { key_reg, .. } => seq![key_reg],
        Insn::SeekLe { key_reg, .. } => seq![key_reg],
        Insn::SeekLt { key_reg, .. } => seq![key_reg],
        Insn::IdxGt { key_reg, .. } => seq![key_reg],
        Insn::IdxGe { key_reg, .. } => seq![key_reg],
        Insn::IdxLt { key_reg, .. } => seq![key_reg],
        Insn::IdxLe { key_reg, .. } => seq![key_reg],
        Insn::IdxInsert { key_reg, .. } => seq![key_reg],
        Insn::IdxDelete { start_reg, num_regs, .. } => Seq::new(
            num_regs as nat,
            |j: int| Reg((start_reg.0 + j) as usize),
        ),
        Insn::Insert { key_reg, record_reg, .. } => seq![key_reg, record_reg],
        Insn::SorterInsert { record_reg, .. } => seq![record_reg],
        Insn::OpenPseudo { content_reg, .. } => seq![content_reg],
        Insn::InitCoroutine { yield_reg, .. } => seq![yield_reg],
        Insn::EndCoroutine { yield_reg } => seq![yield_reg],
        Insn::Yield { yield_reg, .. } => seq![yield_reg],
        Insn::Function { args_start, arg_count, .. } => Seq::new(
            arg_count as nat,
            |j: int| Reg((args_start.0 + j) as usize),
        ),
        Insn::AggStep { args_start, arg_count, .. } => Seq::new(
            arg_count as nat,
            |j: int| Reg((args_start.0 + j) as usize),
        ),
        Insn::Compare { start_reg_a, start_reg_b, count } => Seq::new(
            count as nat,
            |j: int| Reg((start_reg_a.0 + j) as usize),
        ) + Seq::new(count as nat, |j: int| Reg((start_reg_b.0 + j) as usize)),
        Insn::MakeRecord { start_reg, count, .. } => Seq::new(
            count as nat,
            |j: int| Reg((start_reg.0 + j) as usize),
        ),
        Insn::ResultRow { start_reg, count } => Seq::new(
            count as nat,
            |j: int| Reg((start_reg.0 + j) as usize),
        ),
        Insn::ApplyAffinity { start_reg, .. } => seq![start_reg],
        Insn::TypeCheck { start_reg, count, .. } => Seq::new(
            count as nat,
            |j: int| Reg((start_reg.0 + j) as usize),
        ),
        _ => Seq::<Reg>::empty(),
    }
}

/// The registers an instruction writes.
pub open spec fn spec_writes_registers(i: Insn) -> Seq<Reg> {
    match i {
        Insn::Null { dest, count } => Seq::new(count as nat, |j: int| Reg((dest.0 + j) as usize)),
        Insn::Integer { dest, .. } => seq![dest],
        Insn::String8 { dest, .. } => seq![dest],
        Insn::Blob { dest, .. } => seq![dest],
        Insn::Column { dest, .. } => seq![dest],
        Insn::RowId { dest, .. } => seq![dest],
        Insn::RowData { dest, .. } => seq![dest],
        Insn::IdxRowId { dest, .. } => seq![dest],
        Insn::NewRowId { dest, .. } => seq![dest],
        Insn::SorterData { dest, .. } => seq![dest],
        Insn::BeginSubrtn { dest } => seq![dest],
        Insn::MakeRecord { dest, .. } => seq![dest],
        Insn::AggInit { dest, .. } => seq![dest],
        Insn::AggFinal { dest, .. } => seq![dest],
        Insn::AggValue { dest, .. } => seq![dest],
        Insn::AggStep { dest, .. } => seq![dest],
        Insn::Function { dest, .. } => seq![dest],
        Insn::Count { dest, .. } => seq![dest],
        Insn::CreateBtree { root, .. } => seq![root],
        Insn::Add { dest, .. } => seq![dest],
        Insn::Subtract { dest, .. } => seq![dest],
        Insn::Multiply { dest, .. } => seq![dest],
        Insn::Divide { dest, .. } => seq![dest],
        Insn::Remainder { dest, .. } => seq![dest],
        Insn::BitAnd { dest, .. } => seq![dest],
        Insn::BitOr { dest, .. } => seq![dest],
        Insn::BitNot { dest, .. } => seq![dest],
        Insn::Negative { dest, .. } => seq![dest],
        Insn::Copy { dest, count, .. } => Seq::new(
            count as nat,
            |j: int| Reg((dest.0 + j) as usize),
        ),
        Insn::SCopy { dest, .. } => seq![dest],
        Insn::Move { dest, count, .. } => Seq::new(
            count as nat,
            |j: int| Reg((dest.0 + j) as usize),
        ),
        Insn::Gosub { return_reg, .. } => seq![return_reg],
        Insn::InitCoroutine { yield_reg, .. } => seq![yield_reg],
        Insn::Yield { yield_reg, .. } => seq![yield_reg],
        Insn::Cast { reg, .. } => seq![reg],
        Insn::RealAffinity { reg } => seq![reg],
        Insn::IfPos { reg, .. } => seq![reg],
        Insn::DecrJumpZero { reg, .. } => seq![reg],
        _ => Seq::<Reg>::empty(),
    }
}

/// The cursors an instruction touches.
pub open spec fn spec_cursors(i: Insn) -> Seq<Cursor> {
    match i {
        Insn::OpenRead { cursor, .. } => seq![cursor],
        Insn::OpenWrite { cursor, .. } => seq![cursor],
        Insn::OpenPseudo { cursor, .. } => seq![cursor],
        Insn::OpenEphemeral { cursor, .. } => seq![cursor],
        Insn::Close { cursor } => seq![cursor],
        Insn::Rewind { cursor, .. } => seq![cursor],
        Insn::Last { cursor, .. } => seq![cursor],
        Insn::Next { cursor, .. } => seq![cursor],
        Insn::Prev { cursor, .. } => seq![cursor],
        Insn::SeekRowid { cursor, .. } => seq![cursor],
        Insn::SeekEnd { cursor } => seq![cursor],
        Insn::NullRow { cursor } => seq![cursor],
        Insn::DeferredSeek { index_cursor, table_cursor } => seq![index_cursor, table_cursor],
        Insn::SeekGe { cursor, .. } => seq![cursor],
        Insn::SeekGt { cursor, .. } => seq![cursor],
        Insn::SeekLe { cursor, .. } => seq![cursor],
        Insn::SeekLt { cursor, .. } => seq![cursor],
        Insn::IdxGt { cursor, .. } => seq![cursor],
        Insn::IdxGe { cursor, .. } => seq![cursor],
        Insn::IdxLt { cursor, .. } => seq![cursor],
        Insn::IdxLe { cursor, .. } => seq![cursor],
        Insn::IdxInsert { cursor, .. } => seq![cursor],
        Insn::IdxDelete { cursor, .. } => seq![cursor],
        Insn::IdxRowId { cursor, .. } => seq![cursor],
        Insn::Column { cursor, .. } => seq![cursor],
        Insn::RowId { cursor, .. } => seq![cursor],
        Insn::RowData { cursor, .. } => seq![cursor],
        Insn::NewRowId { cursor, .. } => seq![cursor],
        Insn::Insert { cursor, .. } => seq![cursor],
        Insn::Delete { cursor, .. } => seq![cursor],
        Insn::Count { cursor, .. } => seq![cursor],
        Insn::SorterOpen { cursor, .. } => seq![cursor],
        Insn::SorterInsert { cursor, .. } => seq![cursor],
        Insn::SorterSort { cursor, .. } => seq![cursor],
        Insn::SorterData { cursor, pseudo_cursor, .. } => match pseudo_cursor {
            Some(p) => seq![cursor, p],
            None => seq![cursor],
        },
        Insn::SorterNext { cursor, .. } => seq![cursor],
        _ => Seq::<Cursor>::empty(),
    }
}

/// Every label the instruction references is below the given bound.
pub open spec fn labels_bounded(i: Insn, n: int) -> bool {
    forall|j: int|
        0 <= j < spec_referenced_labels(i).len() ==> (#[trigger] spec_referenced_labels(i)[j]).0
            < n
}

/// Every register the instruction reads or writes is positive (register
/// zero is reserved) and below the given bound.
pub open spec fn regs_bounded(i: Insn, n: int) -> bool {
    match i {
        Insn::Gosub { return_reg, .. } => 0 < return_reg.0 < n,
        Insn::Return { return_reg, .. } => 0 < return_reg.0 < n,
        Insn::HaltIfNull { reg, .. } => 0 < reg.0 < n,
        Insn::Eq { lhs, rhs, .. } => 0 < lhs.0 < n && 0 < rhs.0 < n,
        Insn::Ne { lhs, rhs, .. } => 0 < lhs.0 < n && 0 < rhs.0 < n,
        Insn::Lt { lhs, rhs, .. } => 0 < lhs.0 < n && 0 < rhs.0 < n,
        Insn::Le { lhs, rhs, .. } => 0 < lhs.0 < n && 0 < rhs.0 < n,
        Insn::Gt { lhs, rhs, .. } => 0 < lhs.0 < n && 0 < rhs.0 < n,
        Insn::Ge { lhs, rhs, .. } => 0 < lhs.0 < n && 0 < rhs.0 < n,
        Insn::If { reg, .. } => 0 < reg.0 < n,
        Insn::IfNot { reg, .. } => 0 < reg.0 < n,
        Insn::IsNull { reg, .. } => 0 < reg.0 < n,
        Insn::NotNull { reg, .. } => 0 < reg.0 < n,
        Insn::IfPos { reg, .. } => 0 < reg.0 < n,
        Insn::Compare { start_reg_a, start_reg_b, count } => 0 < start_reg_a.0 && start_reg_a.0
            + count <= n && 0 < start_reg_b.0 && start_reg_b.0 + count <= n,
        Insn::OpenPseudo { content_reg, .. } => 0 < content_reg.0 < n,
        Insn::SeekRowid { rowid_reg, .. } => 0 < rowid_reg.0 < n,
        Insn::SeekGe { key_reg, .. } => 0 < key_reg.0 < n,
        Insn::SeekGt { key_reg, .. } => 0 < key_reg.0 < n,
        Insn::SeekLe { key_reg, .. } => 0 < key_reg.0 < n,
        Insn::SeekLt { key_reg, .. } => 0 < key_reg.0 < n,
        Insn::IdxGt { key_reg, .. } => 0 < key_reg.0 < n,
        Insn::IdxGe { key_reg, .. } => 0 < key_reg.0 < n,
        Insn::IdxLt { key_reg, .. } => 0 < key_reg.0 < n,
        Insn::IdxLe { key_reg, .. } => 0 < key_reg.0 < n,
        Insn::IdxInsert { key_reg, .. } => 0 < key_reg.0 < n,
        Insn::IdxDelete { start_reg, num_regs, .. } => 0 < start_reg.0 && start_reg.0 + num_regs
            <= n,
        Insn::IdxRowId { dest, .. } => 0 < dest.0 < n,
        Insn::Column { dest, .. } => 0 < dest.0 < n,
        Insn::RowId { dest, .. } => 0 < dest.0 < n,
        Insn::RowData { dest, .. } => 0 < dest.0 < n,
        Insn::Copy { src, dest, count } => 0 < src.0 && src.0 + count <= n && 0 < dest.0 && dest.0
            + count <= n,
        Insn::SCopy { src, dest } => 0 < src.0 < n && 0 < dest.0 < n,
        Insn::Move { src, dest, count } => 0 < src.0 && src.0 + count <= n && 0 < dest.0 && dest.0
            + count <= n,
        Insn::Null { dest, count } => 0 < dest.0 && dest.0 + count <= n,
        Insn::Integer { dest, .. } => 0 < dest.0 < n,
        Insn::String8 { dest, .. } => 0 < dest.0 < n,
        Insn::Blob { dest, .. } => 0 < dest.0 < n,
        Insn::RealAffinity { reg } => 0 < reg.0 < n,
        Insn::Add { lhs, rhs, dest } => 0 < lhs.0 < n && 0 < rhs.0 < n && 0 < dest.0 < n,
        Insn::Subtract { lhs, rhs, dest } => 0 < lhs.0 < n && 0 < rhs.0 < n && 0 < dest.0 < n,
        Insn::Multiply { lhs, rhs, dest } => 0 < lhs.0 < n && 0 < rhs.0 < n && 0 < dest.0 < n,
        Insn::Divide { lhs, rhs, dest } => 0 < lhs.0 < n && 0 < rhs.0 < n && 0 < dest.0 < n,
        Insn::Remainder { lhs, rhs, dest } => 0 < lhs.0 < n && 0 < rhs.0 < n && 0 < dest.0 < n,
        Insn::BitAnd { lhs, rhs, dest } => 0 < lhs.0 < n && 0 < rhs.0 < n && 0 < dest.0 < n,
        Insn::BitOr { lhs, rhs, dest } => 0 < lhs.0 < n && 0 < rhs.0 < n && 0 < dest.0 < n,
        Insn::BitNot { reg, dest } => 0 < reg.0 < n && 0 < dest.0 < n,
        Insn::Negative { reg, dest } => 0 < reg.0 < n && 0 < dest.0 < n,
        Insn::MakeRecord { start_reg, count, dest } => 0 < start_reg.0 && start_reg.0 + count <= n
            && 0 < dest.0 < n,
        Insn::ResultRow { start_reg, count } => 0 < start_reg.0 && start_reg.0 + count <= n,
        Insn::NewRowId { dest, .. } => 0 < dest.0 < n,
        Insn::Insert { key_reg, record_reg, .. } => 0 < key_reg.0 < n && 0 < record_reg.0 < n,
        Insn::Count { dest, .. } => 0 < dest.0 < n,
        Insn::Cast { reg, .. } => 0 < reg.0 < n,
        Insn::AggInit { dest, .. } => 0 < dest.0 < n,
        Insn::AggStep { args_start, arg_count, dest, .. } => 0 < args_start.0 && args_start.0
            + arg_count <= n && 0 < dest.0 < n,
        Insn::AggFinal { dest, .. } => 0 < dest.0 < n,
        Insn::AggValue { dest, .. } => 0 < dest.0 < n,
        Insn::SorterInsert { record_reg, .. } => 0 < record_reg.0 < n,
        Insn::SorterData { dest, .. } => 0 < dest.0 < n,
        Insn::BeginSubrtn { dest } => 0 < dest.0 < n,
        Insn::EndCoroutine { yield_reg } => 0 < yield_reg.0 < n,
        Insn::InitCoroutine { yield_reg, .. } => 0 < yield_reg.0 < n,
        Insn::Yield { yield_reg, .. } => 0 < yield_reg.0 < n,
        Insn::Function { args_start, arg_count, dest, .. } => 0 < args_start.0 && args_start.0
            + arg_count <= n && 0 < dest.0 < n,
        Insn::DecrJumpZero { reg, .. } => 0 < reg.0 < n,
        Insn::ApplyAffinity { start_reg, .. } => 0 < start_reg.0 < n,
        Insn::TypeCheck { start_reg, count, .. } => 0 < start_reg.0 && start_reg.0 + count <= n,
        Insn::CreateBtree { root, .. } => 0 < root.0 < n,
        _ => true,
    }
}

/// Every cursor the instruction touches is below the given bound.
pub open spec fn cursors_bounded(i: Insn, n: int) -> bool {
    forall|j: int|
        0 <= j < spec_cursors(i).len() ==> (#[trigger] spec_cursors(i)[j]).0 < n
}

/// An instruction is well formed for a builder state when every handle it
/// carries was allocated by that builder.
pub open spec fn insn_wf(i: Insn, regs: int, cursors: int, labels: int) -> bool {
    labels_bounded(i, labels) && regs_bounded(i, regs) && cursors_bounded(i, cursors)
}

impl Insn {
    /// Check whether this instruction is a jump or branch instruction.
    pub fn is_jump(&self) -> (r: bool)
        ensures
            r == spec_is_jump(*self),
    {
        let r = matches!(
            self,
            Insn::Init { .. }
            | Insn::Goto { .. }
            | Insn::Gosub { .. }
            | Insn::Once { .. }
            | Insn::Eq { .. }
            | Insn::Ne { .. }
            | Insn::Lt { .. }
            | Insn::Le { .. }
            | Insn::Gt { .. }
            | Insn::Ge { .. }
            | Insn::If { .. }
            | Insn::IfNot { .. }
            | Insn::IsNull { .. }
            | Insn::NotNull { .. }
            | Insn::IfPos { .. }
            | Insn::Jump { .. }
            | Insn::Rewind { .. }
            | Insn::Last { .. }
            | Insn::Next { .. }
            | Insn::Prev { .. }
            | Insn::SeekRowid { .. }
            | Insn::SeekGe { .. }
            | Insn::SeekGt { .. }
            | Insn::SeekLe { .. }
            | Insn::SeekLt { .. }
            | Insn::IdxGt { .. }
            | Insn::IdxGe { .. }
            | Insn::IdxLt { .. }
            | Insn::IdxLe { .. }
            | Insn::SorterSort { .. }
            | Insn::SorterNext { .. }
            | Insn::DecrJumpZero { .. }
            | Insn::InitCoroutine { .. }
            | Insn::Yield { .. }
        );
        proof {
            if r {
                assert(spec_referenced_labels(*self).len() > 0);
            } else {
                assert(spec_referenced_labels(*self).len() == 0);
            }
        }
        r
    }

    /// The labels referenced by this instruction.
    pub fn referenced_labels(&self) -> (r: Vec<Label>)
        ensures
            r@ == spec_referenced_labels(*self),
    {
        let mut v: Vec<Label> = Vec::new();
        match self {
            Insn::Init { target } => { v.push(*target); },
            Insn::Goto { target } => { v.push(*target); },
            Insn::Gosub { target, .. } => { v.push(*target); },
            Insn::Once { target } => { v.push(*target); },
            Insn::Eq { target, .. } => { v.push(*target); },
            Insn::Ne { target, .. } => { v.push(*target); },
            Insn::Lt { target, .. } => { v.push(*target); },
            Insn::Le { target, .. } => { v.push(*target); },
            Insn::Gt { target, .. } => { v.push(*target); },
            Insn::Ge { target, .. } => { v.push(*target); },
            Insn::If { target, .. } => { v.push(*target); },
            Insn::IfNot { target, .. } => { v.push(*target); },
            Insn::IsNull { target, .. } => { v.push(*target); },
            Insn::NotNull { target, .. } => { v.push(*target); },
            Insn::IfPos { target, .. } => { v.push(*target); },
            Insn::Jump { target_lt, target_eq, target_gt } => {
                v.push(*target_lt);
                v.push(*target_eq);
                v.push(*target_gt);
            },
            Insn::Rewind { if_empty, .. } => { v.push(*if_empty); },
            Insn::Last { if_empty, .. } => { v.push(*if_empty); },
            Insn::Next { if_next, .. } => { v.push(*if_next); },
            Insn::Prev { if_prev, .. } => { v.push(*if_prev); },
            Insn::SeekRowid { if_not_found, .. } => { v.push(*if_not_found); },
            Insn::SeekGe { if_not_found, .. } => { v.push(*if_not_found); },
            Insn::SeekGt { if_not_found, .. } => { v.push(*if_not_found); },
            Insn::SeekLe { if_not_found, .. } => { v.push(*if_not_found); },
            Insn::SeekLt { if_not_found, .. } => { v.push(*if_not_found); },
            Insn::IdxGt { target, .. } => { v.push(*target); },
            Insn::IdxGe { target, .. } => { v.push(*target); },
            Insn::IdxLt { target, .. } => { v.push(*target); },
            Insn::IdxLe { target, .. } => { v.push(*target); },
            Insn::SorterSort { if_empty, .. } => { v.push(*if_empty); },
            Insn::SorterNext { if_next, .. } => { v.push(*if_next); },
            Insn::DecrJumpZero { target, .. } => { v.push(*target); },
            Insn::InitCoroutine { jump_on_init, start_label, .. } => {
                v.push(*jump_on_init);
                v.push(*start_label);
            },
            Insn::Yield { resume_label, .. } => { v.push(*resume_label); },
            _ => {},
        }
        proof {
            assert(v@ =~= spec_referenced_labels(*self));
        }
        v
    }

    /// The registers this instruction reads.
    pub fn reads_registers(&self) -> (r: Vec<Reg>)
        requires
            regs_bounded(*self, usize::MAX as int),
        ensures
            r@ == spec_reads_registers(*self),
    {
        let mut v: Vec<Reg> = Vec::new();
        match self {
            Insn::Eq { lhs, rhs, .. }
            | Insn::Ne { lhs, rhs, .. }
            | Insn::Lt { lhs, rhs, .. }
            | Insn::Le { lhs, rhs, .. }
            | Insn::Gt { lhs, rhs, .. }
            | Insn::Ge { lhs, rhs, .. }
            | Insn::Add { lhs, rhs, .. }
            | Insn::Subtract { lhs, rhs, .. }
            | Insn::Multiply { lhs, rhs, .. }
            | Insn::Divide { lhs, rhs, .. }
            | Insn::Remainder { lhs, rhs, .. }
            | Insn::BitAnd { lhs, rhs, .. }
            | Insn::BitOr { lhs, rhs, .. } => {
                v.push(*lhs);
                v.push(*rhs);
            },
            Insn::If { reg, .. }
            | Insn::IfNot { reg, .. }
            | Insn::IsNull { reg, .. }
            | Insn::NotNull { reg, .. }
            | Insn::IfPos { reg, .. }
            | Insn::BitNot { reg, .. }
            | Insn::Negative { reg, .. }
            | Insn::RealAffinity { reg }
            | Insn::Cast { reg, .. }
            | Insn::HaltIfNull { reg, .. }
            | Insn::DecrJumpZero { reg, .. } => { v.push(*reg); },
            Insn::Return { return_reg, .. } => { v.push(*return_reg); },
            Insn::Copy { src, .. } | Insn::SCopy { src, .. } | Insn::Move { src, .. } => {
                v.push(*src);
            },
            Insn::SeekRowid { rowid_reg, .. } => { v.push(*rowid_reg); },
            Insn::SeekGe { key_reg, .. }
            | Insn::SeekGt { key_reg, .. }
            | Insn::SeekLe { key_reg, .. }
            | Insn::SeekLt { key_reg, .. }
            | Insn::IdxGt { key_reg, .. }
            | Insn::IdxGe { key_reg, .. }
            | Insn::IdxLt { key_reg, .. }
            | Insn::IdxLe { key_reg, .. }
            | Insn::IdxInsert { key_reg, .. } => { v.push(*key_reg); },
            Insn::IdxDelete { start_reg, num_regs, .. } => {
                push_reg_range(&mut v, *start_reg, *num_regs);
            },
            Insn::Insert { key_reg, record_reg, .. } => {
                v.push(*key_reg);
                v.push(*record_reg);
            },
            Insn::SorterInsert { record_reg, .. } => { v.push(*record_reg); },
            Insn::OpenPseudo { content_reg, .. } => { v.push(*content_reg); },
            Insn::InitCoroutine { yield_reg, .. }
            | Insn::EndCoroutine { yield_reg }
            | Insn::Yield { yield_reg, .. } => { v.push(*yield_reg); },
            Insn::Function { args_start, arg_count, .. } => {
                push_reg_range(&mut v, *args_start, *arg_count);
            },
            Insn::AggStep { args_start, arg_count, .. } => {
                push_reg_range(&mut v, *args_start, *arg_count);
            },
            Insn::Compare { start_reg_a, start_reg_b, count } => {
                push_reg_range(&mut v, *start_reg_a, *count);
                push_reg_range(&mut v, *start_reg_b, *count);
            },
            Insn::MakeRecord { start_reg, count, .. } => {
                push_reg_range(&mut v, *start_reg, *count);
            },
            Insn::ResultRow { start_reg, count } => {
                push_reg_range(&mut v, *start_reg, *count);
            },
            Insn::ApplyAffinity { start_reg, .. } => { v.push(*start_reg); },
            Insn::TypeCheck { start_reg, count, .. } => {
                push_reg_range(&mut v, *start_reg, *count);
            },
            _ => {},
        }
        proof {
            assert(v@ =~= spec_reads_registers(*self));
        }
        v
    }

    /// The registers this instruction writes.
    pub fn writes_registers(&self) -> (r: Vec<Reg>)
        requires
            regs_bounded(*self, usize::MAX as int),
        ensures
            r@ == spec_writes_registers(*self),
    {
        let mut v: Vec<Reg> = Vec::new();
        match self {
            Insn::Null { dest, count } => {
                push_reg_range(&mut v, *dest, *count);
            },
            Insn::Integer { dest, .. }
            | Insn::String8 { dest, .. }
            | Insn::Blob { dest, .. }
            | Insn::Column { dest, .. }
            | Insn::RowId { dest, .. }
            | Insn::RowData { dest, .. }
            | Insn::IdxRowId { dest, .. }
            | Insn::NewRowId { dest, .. }
            | Insn::SorterData { dest, .. }
            | Insn::BeginSubrtn { dest }
            | Insn::MakeRecord { dest, .. }
            | Insn::AggInit { dest, .. }
            | Insn::AggFinal { dest, .. }
            | Insn::AggValue { dest, .. }
            | Insn::AggStep { dest, .. }
            | Insn::Function { dest, .. }
            | Insn::Count { dest, .. }
            | Insn::SCopy { dest, .. }
            | Insn::Add { dest, .. }
            | Insn::Subtract { dest, .. }
            | Insn::Multiply { dest, .. }
            | Insn::Divide { dest, .. }
            | Insn::Remainder { dest, .. }
            | Insn::BitAnd { dest, .. }
            | Insn::BitOr { dest, .. }
            | Insn::BitNot { dest, .. }
            | Insn::Negative { dest, .. } => { v.push(*dest); },
            Insn::CreateBtree { root, .. } => { v.push(*root); },
            Insn::Copy { dest, count, .. } => {
                push_reg_range(&mut v, *dest, *count);
            },
            Insn::Move { dest, count, .. } => {
                push_reg_range(&mut v, *dest, *count);
            },
            Insn::Gosub { return_reg, .. } => { v.push(*return_reg); },
            Insn::InitCoroutine { yield_reg, .. } | Insn::Yield { yield_reg, .. } => {
                v.push(*yield_reg);
            },
            Insn::Cast { reg, .. }
            | Insn::RealAffinity { reg }
            | Insn::IfPos { reg, .. }
            | Insn::DecrJumpZero { reg, .. } => { v.push(*reg); },
            _ => {},
        }
        proof {
            assert(v@ =~= spec_writes_registers(*self));
        }
        v
    }
}

/// Append the registers `start .. start + count` to a vector.
fn push_reg_range(v: &mut Vec<Reg>, start: Reg, count: usize)
    requires
        start.0 + count <= usize::MAX,
    ensures
        final(v)@ == old(v)@ + Seq::new(count as nat, |j: int| Reg((start.0 + j) as usize)),
{
    let mut i: usize = 0;
    while i < count
        invariant
            i <= count,
            start.0 + count <= usize::MAX,
            v@ == old(v)@ + Seq::new(i as nat, |j: int| Reg((start.0 + j) as usize)),
        decreases count - i,
    {
        v.push(Reg(start.0 + i));
        proof {
            assert(v@ =~= old(v)@ + Seq::new(
                (i + 1) as nat,
                |j: int| Reg((start.0 + j) as usize),
            ));
        }
        i = i + 1;
    }
    proof {
        assert(v@ =~= old(v)@ + Seq::new(count as nat, |j: int| Reg((start.0 + j) as usize)));
    }
}

} // verus!
