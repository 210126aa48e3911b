//! Emission helpers: small composable functions over the program
//! builder, one per instruction shape.
//!
//! Every statement translator is written against these helpers and the
//! control-flow combinators of [`crate::control`]; nothing appends to the
//! instruction buffer in any other way.  Each helper states exactly which
//! instruction it appends and that it touches nothing else.

use vstd::prelude::*;

use crate::builder::{extends, ProgramBuilder};
use crate::insn::{
    insn_wf, CmpInsFlags, CollationSeq, Insn, ScalarFunc,
};
use crate::resources::{Cursor, InsnPos, Label, Reg, RegRange};
use crate::TranslateError;

verus! {

/// The second builder equals the first with exactly one instruction
/// appended, all counters and tables untouched.
pub open spec fn emitted(a: ProgramBuilder, b: ProgramBuilder, i: Insn) -> bool {
    &&& b.insns@ == a.insns@.push(i)
    &&& b.labels@ == a.labels@
    &&& b.cursors@ == a.cursors@
    &&& b.next_register == a.next_register
    &&& b.next_cursor == a.next_cursor
    &&& b.next_hash_table == a.next_hash_table
    &&& b.nested == a.nested
    &&& b.change_count_on == a.change_count_on
}

/// Allocate a single register.
pub fn alloc_reg(b: &mut ProgramBuilder) -> (r: Reg)
    requires
        old(b).wf(),
        old(b).next_register < usize::MAX,
    ensures
        final(b).wf(),
        extends(*old(b), *final(b)),
        r.0 == old(b).next_register,
        final(b).next_register == old(b).next_register + 1,
        final(b).insns@ == old(b).insns@,
        final(b).labels@ == old(b).labels@,
        final(b).cursors@ == old(b).cursors@,
        final(b).next_cursor == old(b).next_cursor,
        final(b).nested == old(b).nested,
{
    b.alloc_register()
}

/// Allocate a contiguous range of registers.
pub fn alloc_regs(b: &mut ProgramBuilder, count: usize) -> (r: RegRange)
    requires
        old(b).wf(),
        old(b).next_register + count <= usize::MAX,
    ensures
        final(b).wf(),
        extends(*old(b), *final(b)),
        r.start == old(b).next_register,
        r.count == count,
        final(b).next_register == old(b).next_register + count,
        final(b).insns@ == old(b).insns@,
        final(b).labels@ == old(b).labels@,
        final(b).cursors@ == old(b).cursors@,
        final(b).next_cursor == old(b).next_cursor,
        final(b).nested == old(b).nested,
{
    b.alloc_registers(count)
}

/// Allocate a range of registers and emit the instruction that clears
/// them to NULL.
pub fn alloc_regs_null(b: &mut ProgramBuilder, count: usize) -> (r: RegRange)
    requires
        old(b).wf(),
        0 < count,
        old(b).next_register + count <= usize::MAX,
    ensures
        final(b).wf(),
        extends(*old(b), *final(b)),
        r.start == old(b).next_register,
        r.count == count,
        final(b).next_register == old(b).next_register + count,
        final(b).insns@ == old(b).insns@.push(
            Insn::Null { dest: Reg(r.start), count },
        ),
        final(b).labels@ == old(b).labels@,
        final(b).cursors@ == old(b).cursors@,
        final(b).next_cursor == old(b).next_cursor,
        final(b).nested == old(b).nested,
{
    let range = b.alloc_registers(count);
    b.emit_insn(Insn::Null { dest: Reg(range.start), count });
    range
}

/// Allocate a new, unresolved label.
pub fn alloc_label(b: &mut ProgramBuilder) -> (r: Label)
    requires
        old(b).wf(),
        old(b).labels@.len() < u32::MAX,
    ensures
        final(b).wf(),
        extends(*old(b), *final(b)),
        r.0 == old(b).labels@.len(),
        final(b).labels@ == old(b).labels@.push(None),
        final(b).insns@ == old(b).insns@,
        final(b).cursors@ == old(b).cursors@,
        final(b).next_register == old(b).next_register,
        final(b).next_cursor == old(b).next_cursor,
        final(b).nested == old(b).nested,
{
    b.allocate_label()
}

/// Allocate several new, unresolved labels at once.
pub fn alloc_labels(b: &mut ProgramBuilder, count: usize) -> (r: Vec<Label>)
    requires
        old(b).wf(),
        old(b).labels@.len() + count <= u32::MAX,
    ensures
        final(b).wf(),
        extends(*old(b), *final(b)),
        r@.len() == count,
        forall|i: int| 0 <= i < count ==> r@[i].0 == old(b).labels@.len() + i,
        final(b).labels@.len() == old(b).labels@.len() + count,
        forall|i: int|
            old(b).labels@.len() <= i < final(b).labels@.len() ==> final(b).labels@[i] is None,
        forall|i: int| 0 <= i < old(b).labels@.len() ==> final(b).labels@[i] == old(b).labels@[i],
        final(b).insns@ == old(b).insns@,
        final(b).cursors@ == old(b).cursors@,
        final(b).next_register == old(b).next_register,
        final(b).next_cursor == old(b).next_cursor,
        final(b).nested == old(b).nested,
{
    let mut v: Vec<Label> = Vec::new();
    let mut i: usize = 0;
    proof {
        crate::builder::lemma_extends_refl(*b);
    }
    while i < count
        invariant
            i <= count,
            old(b).wf(),
            old(b).labels@.len() + count <= u32::MAX,
            b.wf(),
            extends(*old(b), *b),
            v@.len() == i,
            forall|j: int| 0 <= j < i ==> v@[j].0 == old(b).labels@.len() + j,
            b.labels@.len() == old(b).labels@.len() + i,
            forall|j: int|
                old(b).labels@.len() <= j < b.labels@.len() ==> b.labels@[j] is None,
            forall|j: int| 0 <= j < old(b).labels@.len() ==> b.labels@[j] == old(b).labels@[j],
            b.insns@ == old(b).insns@,
            b.cursors@ == old(b).cursors@,
            b.next_register == old(b).next_register,
            b.next_cursor == old(b).next_cursor,
            b.next_hash_table == old(b).next_hash_table,
            b.nested == old(b).nested,
            b.change_count_on == old(b).change_count_on,
        decreases count - i,
    {
        let ghost prev = *b;
        let l = b.allocate_label();
        proof {
            crate::builder::lemma_extends_trans(*old(b), prev, *b);
        }
        v.push(l);
        i = i + 1;
    }
    v
}

/// Bind a label to the current instruction position.
pub fn resolve_label(b: &mut ProgramBuilder, label: Label) -> (r: Result<(), TranslateError>)
    requires
        old(b).wf(),
    ensures
        final(b).wf(),
        extends(*old(b), *final(b)),
        r is Ok <==> label.0 < old(b).labels@.len() && old(b).labels@[label.0 as int] is None,
        r is Ok ==> final(b).labels@ == old(b).labels@.update(
            label.0 as int,
            Some(old(b).insns@.len() as usize),
        ),
        r is Err ==> final(b).labels@ == old(b).labels@,
        final(b).insns@ == old(b).insns@,
        final(b).cursors@ == old(b).cursors@,
        final(b).next_register == old(b).next_register,
        final(b).next_cursor == old(b).next_cursor,
        final(b).nested == old(b).nested,
{
    b.resolve_label(label)
}

/// Bind an existing label to the next instruction that will be emitted.
pub fn preassign_label(b: &mut ProgramBuilder, label: Label) -> (r: Result<(), TranslateError>)
    requires
        old(b).wf(),
    ensures
        final(b).wf(),
        extends(*old(b), *final(b)),
        r is Ok <==> label.0 < old(b).labels@.len() && old(b).labels@[label.0 as int] is None,
        r is Ok ==> final(b).labels@ == old(b).labels@.update(
            label.0 as int,
            Some(old(b).insns@.len() as usize),
        ),
        r is Err ==> final(b).labels@ == old(b).labels@,
        final(b).insns@ == old(b).insns@,
        final(b).cursors@ == old(b).cursors@,
        final(b).next_register == old(b).next_register,
        final(b).next_cursor == old(b).next_cursor,
        final(b).nested == old(b).nested,
{
    b.resolve_label(label)
}

/// Allocate a label already bound to the current instruction position.
pub fn preassigned_label(b: &mut ProgramBuilder) -> (r: Label)
    requires
        old(b).wf(),
        old(b).labels@.len() < u32::MAX,
    ensures
        final(b).wf(),
        extends(*old(b), *final(b)),
        r.0 == old(b).labels@.len(),
        final(b).labels@ == old(b).labels@.push(Some(old(b).insns@.len() as usize)),
        final(b).insns@ == old(b).insns@,
        final(b).cursors@ == old(b).cursors@,
        final(b).next_register == old(b).next_register,
        final(b).next_cursor == old(b).next_cursor,
        final(b).nested == old(b).nested,
{
    let label = b.allocate_label();
    match b.resolve_label(label) {
        Ok(()) => {
            proof {
                assert(final(b).labels@ =~= old(b).labels@.push(
                    Some(old(b).insns@.len() as usize),
                ));
            }
            label
        },
        Err(e) => {
            proof {
                assert(false);
            }
            label
        },
    }
}

/// The current instruction position.
pub fn current_offset(b: &ProgramBuilder) -> (r: InsnPos)
    ensures
        r.0 == b.insns@.len(),
{
    InsnPos(b.insns.len())
}

/// Append one instruction.  This is the fundamental emission primitive.
pub fn insn(b: &mut ProgramBuilder, instruction: Insn)
    requires
        old(b).wf(),
        insn_wf(
            instruction,
            old(b).next_register as int,
            old(b).next_cursor as int,
            old(b).labels@.len() as int,
        ),
    ensures
        final(b).wf(),
        extends(*old(b), *final(b)),
        emitted(*old(b), *final(b), instruction),
{
    b.emit_insn(instruction);
}

/// Emit an integer constant into a register.
pub fn integer(b: &mut ProgramBuilder, value: i64, dest: Reg)
    requires
        old(b).wf(),
        0 < dest.0 < old(b).next_register,
    ensures
        final(b).wf(),
        extends(*old(b), *final(b)),
        emitted(*old(b), *final(b), Insn::Integer { value, dest }),
{
    b.emit_insn(Insn::Integer { value, dest });
}

/// Emit a NULL into a single register.
pub fn null(b: &mut ProgramBuilder, dest: Reg)
    requires
        old(b).wf(),
        0 < dest.0 < old(b).next_register,
    ensures
        final(b).wf(),
        extends(*old(b), *final(b)),
        emitted(*old(b), *final(b), Insn::Null { dest, count: 1 }),
{
    b.emit_insn(Insn::Null { dest, count: 1 });
}

/// Emit a NULL into a run of registers.
pub fn null_range(b: &mut ProgramBuilder, dest: Reg, count: usize)
    requires
        old(b).wf(),
        0 < dest.0,
        dest.0 + count <= old(b).next_register,
    ensures
        final(b).wf(),
        extends(*old(b), *final(b)),
        emitted(*old(b), *final(b), Insn::Null { dest, count }),
{
    b.emit_insn(Insn::Null { dest, count });
}

/// Emit a string constant into a register.
pub fn string8(b: &mut ProgramBuilder, value: String, dest: Reg)
    requires
        old(b).wf(),
        0 < dest.0 < old(b).next_register,
    ensures
        final(b).wf(),
        extends(*old(b), *final(b)),
        emitted(*old(b), *final(b), Insn::String8 { value, dest }),
{
    b.emit_insn(Insn::String8 { value, dest });
}

/// Emit an unconditional jump.
pub fn goto(b: &mut ProgramBuilder, target: Label)
    requires
        old(b).wf(),
        target.0 < old(b).labels@.len(),
    ensures
        final(b).wf(),
        extends(*old(b), *final(b)),
        emitted(*old(b), *final(b), Insn::Goto { target }),
{
    b.emit_insn(Insn::Goto { target });
}

/// Emit a jump taken when the register holds a true value.
pub fn if_true(b: &mut ProgramBuilder, reg: Reg, target: Label, jump_if_null: bool)
    requires
        old(b).wf(),
        0 < reg.0 < old(b).next_register,
        target.0 < old(b).labels@.len(),
    ensures
        final(b).wf(),
        extends(*old(b), *final(b)),
        emitted(*old(b), *final(b), Insn::If { reg, target, jump_if_null }),
{
    b.emit_insn(Insn::If { reg, target, jump_if_null });
}

/// Emit a jump taken when the register holds a false value.
pub fn if_not(b: &mut ProgramBuilder, reg: Reg, target: Label, jump_if_null: bool)
    requires
        old(b).wf(),
        0 < reg.0 < old(b).next_register,
        target.0 < old(b).labels@.len(),
    ensures
        final(b).wf(),
        extends(*old(b), *final(b)),
        emitted(*old(b), *final(b), Insn::IfNot { reg, target, jump_if_null }),
{
    b.emit_insn(Insn::IfNot { reg, target, jump_if_null });
}

/// Emit one output row from a register run.
pub fn result_row(b: &mut ProgramBuilder, start_reg: Reg, count: usize)
    requires
        old(b).wf(),
        0 < start_reg.0,
        start_reg.0 + count <= old(b).next_register,
    ensures
        final(b).wf(),
        extends(*old(b), *final(b)),
        emitted(*old(b), *final(b), Insn::ResultRow { start_reg, count }),
{
    b.emit_insn(Insn::ResultRow { start_reg, count });
}

/// Emit a successful halt: error code zero and an empty description.
pub fn halt(b: &mut ProgramBuilder)
    requires
        old(b).wf(),
    ensures
        final(b).wf(),
        extends(*old(b), *final(b)),
        final(b).insns@.len() == old(b).insns@.len() + 1,
        final(b).insns@[old(b).insns@.len() as int] matches Insn::Halt { err_code, description }
            && err_code == 0 && description@ == Seq::<char>::empty(),
        final(b).insns@.subrange(0, old(b).insns@.len() as int) == old(b).insns@,
        final(b).labels@ == old(b).labels@,
        final(b).cursors@ == old(b).cursors@,
        final(b).next_register == old(b).next_register,
        final(b).next_cursor == old(b).next_cursor,
        final(b).nested == old(b).nested,
{
    let description = String::new();
    proof {
        assert(description@ =~= Seq::<char>::empty());
    }
    b.emit_insn(Insn::Halt { err_code: 0, description });
}

/// Emit a deep copy of exactly one register into another.
pub fn copy(b: &mut ProgramBuilder, src: Reg, dest: Reg)
    requires
        old(b).wf(),
        0 < src.0 < old(b).next_register,
        0 < dest.0 < old(b).next_register,
    ensures
        final(b).wf(),
        extends(*old(b), *final(b)),
        emitted(*old(b), *final(b), Insn::Copy { src, dest, count: 1 }),
{
    b.emit_insn(Insn::Copy { src, dest, count: 1 });
}

/// Emit an addition.
pub fn add(b: &mut ProgramBuilder, lhs: Reg, rhs: Reg, dest: Reg)
    requires
        old(b).wf(),
        0 < lhs.0 < old(b).next_register,
        0 < rhs.0 < old(b).next_register,
        0 < dest.0 < old(b).next_register,
    ensures
        final(b).wf(),
        extends(*old(b), *final(b)),
        emitted(*old(b), *final(b), Insn::Add { lhs, rhs, dest }),
{
    b.emit_insn(Insn::Add { lhs, rhs, dest });
}

/// Emit a subtraction.
pub fn subtract(b: &mut ProgramBuilder, lhs: Reg, rhs: Reg, dest: Reg)
    requires
        old(b).wf(),
        0 < lhs.0 < old(b).next_register,
        0 < rhs.0 < old(b).next_register,
        0 < dest.0 < old(b).next_register,
    ensures
        final(b).wf(),
        extends(*old(b), *final(b)),
        emitted(*old(b), *final(b), Insn::Subtract { lhs, rhs, dest }),
{
    b.emit_insn(Insn::Subtract { lhs, rhs, dest });
}

/// Emit a multiplication.
pub fn multiply(b: &mut ProgramBuilder, lhs: Reg, rhs: Reg, dest: Reg)
    requires
        old(b).wf(),
        0 < lhs.0 < old(b).next_register,
        0 < rhs.0 < old(b).next_register,
        0 < dest.0 < old(b).next_register,
    ensures
        final(b).wf(),
        extends(*old(b), *final(b)),
        emitted(*old(b), *final(b), Insn::Multiply { lhs, rhs, dest }),
{
    b.emit_insn(Insn::Multiply { lhs, rhs, dest });
}

/// Emit a division.
pub fn divide(b: &mut ProgramBuilder, lhs: Reg, rhs: Reg, dest: Reg)
    requires
        old(b).wf(),
        0 < lhs.0 < old(b).next_register,
        0 < rhs.0 < old(b).next_register,
        0 < dest.0 < old(b).next_register,
    ensures
        final(b).wf(),
        extends(*old(b), *final(b)),
        emitted(*old(b), *final(b), Insn::Divide { lhs, rhs, dest }),
{
    b.emit_insn(Insn::Divide { lhs, rhs, dest });
}

/// Emit the loop entry that rewinds a cursor to its first row.
pub fn rewind(b: &mut ProgramBuilder, cursor: Cursor, if_empty: Label)
    requires
        old(b).wf(),
        cursor.0 < old(b).next_cursor,
        if_empty.0 < old(b).labels@.len(),
    ensures
        final(b).wf(),
        extends(*old(b), *final(b)),
        emitted(*old(b), *final(b), Insn::Rewind { cursor, if_empty }),
{
    b.emit_insn(Insn::Rewind { cursor, if_empty });
}

/// Emit the loop step that advances a cursor to its next row.
pub fn next(b: &mut ProgramBuilder, cursor: Cursor, if_next: Label)
    requires
        old(b).wf(),
        cursor.0 < old(b).next_cursor,
        if_next.0 < old(b).labels@.len(),
    ensures
        final(b).wf(),
        extends(*old(b), *final(b)),
        emitted(*old(b), *final(b), Insn::Next { cursor, if_next }),
{
    b.emit_insn(Insn::Next { cursor, if_next });
}

/// Emit a column read into a register.
pub fn column(b: &mut ProgramBuilder, cursor: Cursor, column_idx: usize, dest: Reg)
    requires
        old(b).wf(),
        cursor.0 < old(b).next_cursor,
        0 < dest.0 < old(b).next_register,
    ensures
        final(b).wf(),
        extends(*old(b), *final(b)),
        emitted(*old(b), *final(b), Insn::Column { cursor, column: column_idx, dest }),
{
    b.emit_insn(Insn::Column { cursor, column: column_idx, dest });
}

/// Emit a row-id read into a register.
pub fn rowid(b: &mut ProgramBuilder, cursor: Cursor, dest: Reg)
    requires
        old(b).wf(),
        cursor.0 < old(b).next_cursor,
        0 < dest.0 < old(b).next_register,
    ensures
        final(b).wf(),
        extends(*old(b), *final(b)),
        emitted(*old(b), *final(b), Insn::RowId { cursor, dest }),
{
    b.emit_insn(Insn::RowId { cursor, dest });
}

/// Emit a not-equal comparison that jumps when the operands differ.
pub fn ne_jump(
    b: &mut ProgramBuilder,
    lhs: Reg,
    rhs: Reg,
    target: Label,
    flags: CmpInsFlags,
    collation: Option<CollationSeq>,
)
    requires
        old(b).wf(),
        0 < lhs.0 < old(b).next_register,
        0 < rhs.0 < old(b).next_register,
        target.0 < old(b).labels@.len(),
    ensures
        final(b).wf(),
        extends(*old(b), *final(b)),
        emitted(*old(b), *final(b), Insn::Ne { lhs, rhs, target, flags, collation }),
{
    b.emit_insn(Insn::Ne { lhs, rhs, target, flags, collation });
}

/// Emit a jump taken when the register is NULL.
pub fn is_null(b: &mut ProgramBuilder, reg: Reg, target: Label)
    requires
        old(b).wf(),
        0 < reg.0 < old(b).next_register,
        target.0 < old(b).labels@.len(),
    ensures
        final(b).wf(),
        extends(*old(b), *final(b)),
        emitted(*old(b), *final(b), Insn::IsNull { reg, target }),
{
    b.emit_insn(Insn::IsNull { reg, target });
}

/// Emit a scalar function call.
pub fn function_call(
    b: &mut ProgramBuilder,
    func: ScalarFunc,
    args_start: Reg,
    arg_count: usize,
    dest: Reg,
    constant_mask: i32,
)
    requires
        old(b).wf(),
        0 < args_start.0,
        args_start.0 + arg_count <= old(b).next_register,
        0 < dest.0 < old(b).next_register,
    ensures
        final(b).wf(),
        extends(*old(b), *final(b)),
        emitted(
            *old(b),
            *final(b),
            Insn::Function { func, args_start, arg_count, dest, constant_mask },
        ),
{
    b.emit_insn(Insn::Function { func, args_start, arg_count, dest, constant_mask });
}

/// Emit the packing of a register run into a row record.
pub fn make_record(b: &mut ProgramBuilder, start_reg: Reg, count: usize, dest: Reg)
    requires
        old(b).wf(),
        0 < start_reg.0,
        start_reg.0 + count <= old(b).next_register,
        0 < dest.0 < old(b).next_register,
    ensures
        final(b).wf(),
        extends(*old(b), *final(b)),
        emitted(*old(b), *final(b), Insn::MakeRecord { start_reg, count, dest }),
{
    b.emit_insn(Insn::MakeRecord { start_reg, count, dest });
}

/// Emit the generation of a fresh integer key for a table.
pub fn new_rowid(b: &mut ProgramBuilder, cursor: Cursor, dest: Reg)
    requires
        old(b).wf(),
        cursor.0 < old(b).next_cursor,
        0 < dest.0 < old(b).next_register,
    ensures
        final(b).wf(),
        extends(*old(b), *final(b)),
        emitted(*old(b), *final(b), Insn::NewRowId { cursor, dest }),
{
    b.emit_insn(Insn::NewRowId { cursor, dest });
}

/// Emit a row insertion.
pub fn insert(
    b: &mut ProgramBuilder,
    cursor: Cursor,
    key_reg: Reg,
    record_reg: Reg,
    table_name: String,
)
    requires
        old(b).wf(),
        cursor.0 < old(b).next_cursor,
        0 < key_reg.0 < old(b).next_register,
        0 < record_reg.0 < old(b).next_register,
    ensures
        final(b).wf(),
        extends(*old(b), *final(b)),
        emitted(
            *old(b),
            *final(b),
            Insn::Insert {
                cursor,
                key_reg,
                record_reg,
                flags: (crate::insn::InsertFlags { append: false }),
                table_name,
            },
        ),
{
    b.emit_insn(
        Insn::Insert {
            cursor,
            key_reg,
            record_reg,
            flags: crate::insn::InsertFlags { append: false },
            table_name,
        },
    );
}

/// Which of the six ordered comparisons a comparison emission performs.
#[derive(Debug, Clone, Copy, PartialEq, Eq, Structural)]
pub enum CompareType {
    /// Jump when the operands compare equal.
    Eq,
    /// Jump when the operands compare unequal.
    Ne,
    /// Jump when the left operand is less.
    Lt,
    /// Jump when the left operand is at most the right.
    Le,
    /// Jump when the left operand is greater.
    Gt,
    /// Jump when the left operand is at least the right.
    Ge,
}

/// The comparison instruction a compare type stands for, with default
/// flags and no collation.
pub open spec fn compare_insn(cmp_type: CompareType, lhs: Reg, rhs: Reg, target: Label) -> Insn {
    let flags = CmpInsFlags { null_eq: false, jump_if_null: false };
    match cmp_type {
        CompareType::Eq => Insn::Eq { lhs, rhs, target, flags, collation: None },
        CompareType::Ne => Insn::Ne { lhs, rhs, target, flags, collation: None },
        CompareType::Lt => Insn::Lt { lhs, rhs, target, flags, collation: None },
        CompareType::Le => Insn::Le { lhs, rhs, target, flags, collation: None },
        CompareType::Gt => Insn::Gt { lhs, rhs, target, flags, collation: None },
        CompareType::Ge => Insn::Ge { lhs, rhs, target, flags, collation: None },
    }
}

/// Emit one ordered comparison between two registers, jumping to the
/// target when it holds.
pub fn binary_compare(
    b: &mut ProgramBuilder,
    lhs: Reg,
    rhs: Reg,
    target_if_true: Label,
    cmp_type: CompareType,
)
    requires
        old(b).wf(),
        0 < lhs.0 < old(b).next_register,
        0 < rhs.0 < old(b).next_register,
        target_if_true.0 < old(b).labels@.len(),
    ensures
        final(b).wf(),
        extends(*old(b), *final(b)),
        emitted(*old(b), *final(b), compare_insn(cmp_type, lhs, rhs, target_if_true)),
{
    let flags = CmpInsFlags { null_eq: false, jump_if_null: false };
    let insn = match cmp_type {
        CompareType::Eq => Insn::Eq { lhs, rhs, target: target_if_true, flags, collation: None },
        CompareType::Ne => Insn::Ne { lhs, rhs, target: target_if_true, flags, collation: None },
        CompareType::Lt => Insn::Lt { lhs, rhs, target: target_if_true, flags, collation: None },
        CompareType::Le => Insn::Le { lhs, rhs, target: target_if_true, flags, collation: None },
        CompareType::Gt => Insn::Gt { lhs, rhs, target: target_if_true, flags, collation: None },
        CompareType::Ge => Insn::Ge { lhs, rhs, target: target_if_true, flags, collation: None },
    };
    b.emit_insn(insn);
}

} // verus!
