//! The disassembly view: one fixed-shape row per instruction, used for
//! diagnostics and as the golden format for compiler tests.

use vstd::prelude::*;

use crate::builder::Program;
use crate::insn::Insn;
use crate::stats::{dec_digits, push_decimal};

verus! {

/// The mnemonic of an instruction.
pub open spec fn opcode_of(i: Insn) -> Seq<char> {
    match i {
        Insn::Init { .. } => "Init"@,
        Insn::Goto { .. } => "Goto"@,
        Insn::Gosub { .. } => "Gosub"@,
        Insn::Return { .. } => "Return"@,
        Insn::Halt { .. } => "Halt"@,
        Insn::HaltIfNull { .. } => "HaltIfNull"@,
        Insn::Once { .. } => "Once"@,
        Insn::Eq { .. } => "Eq"@,
        Insn::Ne { .. } => "Ne"@,
        Insn::Lt { .. } => "Lt"@,
        Insn::Le { .. } => "Le"@,
        Insn::Gt { .. } => "Gt"@,
        Insn::Ge { .. } => "Ge"@,
        Insn::If { .. } => "If"@,
        Insn::IfNot { .. } => "IfNot"@,
        Insn::IsNull { .. } => "IsNull"@,
        Insn::NotNull { .. } => "NotNull"@,
        Insn::IfPos { .. } => "IfPos"@,
        Insn::Compare { .. } => "Compare"@,
        Insn::Jump { .. } => "Jump"@,
        Insn::OpenRead { .. } => "OpenRead"@,
        Insn::OpenWrite { .. } => "OpenWrite"@,
        Insn::OpenPseudo { .. } => "OpenPseudo"@,
        Insn::OpenEphemeral { .. } => "OpenEphemeral"@,
        Insn::Close { .. } => "Close"@,
        Insn::Rewind { .. } => "Rewind"@,
        Insn::Last { .. } => "Last"@,
        Insn::Next { .. } => "Next"@,
        Insn::Prev { .. } => "Prev"@,
        Insn::SeekRowid { .. } => "SeekRowid"@,
        Insn::SeekEnd { .. } => "SeekEnd"@,
        Insn::NullRow { .. } => "NullRow"@,
        Insn::DeferredSeek { .. } => "DeferredSeek"@,
        Insn::SeekGe { .. } => "SeekGe"@,
        Insn::SeekGt { .. } => "SeekGt"@,
        Insn::SeekLe { .. } => "SeekLe"@,
        Insn::SeekLt { .. } => "SeekLt"@,
        Insn::IdxGt { .. } => "IdxGt"@,
        Insn::IdxGe { .. } => "IdxGe"@,
        Insn::IdxLt { .. } => "IdxLt"@,
        Insn::IdxLe { .. } => "IdxLe"@,
        Insn::IdxInsert { .. } => "IdxInsert"@,
        Insn::IdxDelete { .. } => "IdxDelete"@,
        Insn::IdxRowId { .. } => "IdxRowId"@,
        Insn::Column { .. } => "Column"@,
        Insn::RowId { .. } => "RowId"@,
        Insn::RowData { .. } => "RowData"@,
        Insn::Copy { .. } => "Copy"@,
        Insn::SCopy { .. } => "SCopy"@,
        Insn::Move { .. } => "Move"@,
        Insn::Null { .. } => "Null"@,
        Insn::Integer { .. } => "Integer"@,
        Insn::String8 { .. } => "String8"@,
        Insn::Blob { .. } => "Blob"@,
        Insn::RealAffinity { .. } => "RealAffinity"@,
        Insn::Add { .. } => "Add"@,
        Insn::Subtract { .. } => "Subtract"@,
        Insn::Multiply { .. } => "Multiply"@,
        Insn::Divide { .. } => "Divide"@,
        Insn::Remainder { .. } => "Remainder"@,
        Insn::BitAnd { .. } => "BitAnd"@,
        Insn::BitOr { .. } => "BitOr"@,
        Insn::BitNot { .. } => "BitNot"@,
        Insn::Negative { .. } => "Negative"@,
        Insn::MakeRecord { .. } => "MakeRecord"@,
        Insn::ResultRow { .. } => "ResultRow"@,
        Insn::NewRowId { .. } => "NewRowid"@,
        Insn::Insert { .. } => "Insert"@,
        Insn::Delete { .. } => "Delete"@,
        Insn::Count { .. } => "Count"@,
        Insn::Cast { .. } => "Cast"@,
        Insn::AggInit { .. } => "AggInit"@,
        Insn::AggStep { .. } => "AggStep"@,
        Insn::AggFinal { .. } => "AggFinal"@,
        Insn::AggValue { .. } => "AggValue"@,
        Insn::SorterOpen { .. } => "SorterOpen"@,
        Insn::SorterInsert { .. } => "SorterInsert"@,
        Insn::SorterSort { .. } => "SorterSort"@,
        Insn::SorterData { .. } => "SorterData"@,
        Insn::SorterNext { .. } => "SorterNext"@,
        Insn::BeginSubrtn { .. } => "BeginSubrtn"@,
        Insn::EndCoroutine { .. } => "EndCoroutine"@,
        Insn::InitCoroutine { .. } => "InitCoroutine"@,
        Insn::Yield { .. } => "Yield"@,
        Insn::Transaction { .. } => "Transaction"@,
        Insn::AutoCommit { .. } => "AutoCommit"@,
        Insn::Function { .. } => "Function"@,
        Insn::Noop => "Noop"@,
        Insn::DecrJumpZero { .. } => "DecrJumpZero"@,
        Insn::ApplyAffinity { .. } => "Affinity"@,
        Insn::TypeCheck { .. } => "TypeCheck"@,
        Insn::CreateBtree { .. } => "CreateBtree"@,
        Insn::ParseSchema { .. } => "ParseSchema"@,
        Insn::SetCookie { .. } => "SetCookie"@,
        Insn::Trace { .. } => "Trace"@,
    }
}

impl Insn {
    /// The mnemonic of this instruction.
    pub fn opcode(&self) -> (r: &'static str)
        ensures
            r@ == opcode_of(*self),
    {
        match self {
            Insn::Init { .. } => "Init",
            Insn::Goto { .. } => "Goto",
            Insn::Gosub { .. } => "Gosub",
            Insn::Return { .. } => "Return",
            Insn::Halt { .. } => "Halt",
            Insn::HaltIfNull { .. } => "HaltIfNull",
            Insn::Once { .. } => "Once",
            Insn::Eq { .. } => "Eq",
            Insn::Ne { .. } => "Ne",
            Insn::Lt { .. } => "Lt",
            Insn::Le { .. } => "Le",
            Insn::Gt { .. } => "Gt",
            Insn::Ge { .. } => "Ge",
            Insn::If { .. } => "If",
            Insn::IfNot { .. } => "IfNot",
            Insn::IsNull { .. } => "IsNull",
            Insn::NotNull { .. } => "NotNull",
            Insn::IfPos { .. } => "IfPos",
            Insn::Compare { .. } => "Compare",
            Insn::Jump { .. } => "Jump",
            Insn::OpenRead { .. } => "OpenRead",
            Insn::OpenWrite { .. } => "OpenWrite",
            Insn::OpenPseudo { .. } => "OpenPseudo",
            Insn::OpenEphemeral { .. } => "OpenEphemeral",
            Insn::Close { .. } => "Close",
            Insn::Rewind { .. } => "Rewind",
            Insn::Last { .. } => "Last",
            Insn::Next { .. } => "Next",
            Insn::Prev { .. } => "Prev",
            Insn::SeekRowid { .. } => "SeekRowid",
            Insn::SeekEnd { .. } => "SeekEnd",
            Insn::NullRow { .. } => "NullRow",
            Insn::DeferredSeek { .. } => "DeferredSeek",
            Insn::SeekGe { .. } => "SeekGe",
            Insn::SeekGt { .. } => "SeekGt",
            Insn::SeekLe { .. } => "SeekLe",
            Insn::SeekLt { .. } => "SeekLt",
            Insn::IdxGt { .. } => "IdxGt",
            Insn::IdxGe { .. } => "IdxGe",
            Insn::IdxLt { .. } => "IdxLt",
            Insn::IdxLe { .. } => "IdxLe",
            Insn::IdxInsert { .. } => "IdxInsert",
            Insn::IdxDelete { .. } => "IdxDelete",
            Insn::IdxRowId { .. } => "IdxRowId",
            Insn::Column { .. } => "Column",
            Insn::RowId { .. } => "RowId",
            Insn::RowData { .. } => "RowData",
            Insn::Copy { .. } => "Copy",
            Insn::SCopy { .. } => "SCopy",
            Insn::Move { .. } => "Move",
            Insn::Null { .. } => "Null",
            Insn::Integer { .. } => "Integer",
            Insn::String8 { .. } => "String8",
            Insn::Blob { .. } => "Blob",
            Insn::RealAffinity { .. } => "RealAffinity",
            Insn::Add { .. } => "Add",
            Insn::Subtract { .. } => "Subtract",
            Insn::Multiply { .. } => "Multiply",
            Insn::Divide { .. } => "Divide",
            Insn::Remainder { .. } => "Remainder",
            Insn::BitAnd { .. } => "BitAnd",
            Insn::BitOr { .. } => "BitOr",
            Insn::BitNot { .. } => "BitNot",
            Insn::Negative { .. } => "Negative",
            Insn::MakeRecord { .. } => "MakeRecord",
            Insn::ResultRow { .. } => "ResultRow",
            Insn::NewRowId { .. } => "NewRowid",
            Insn::Insert { .. } => "Insert",
            Insn::Delete { .. } => "Delete",
            Insn::Count { .. } => "Count",
            Insn::Cast { .. } => "Cast",
            Insn::AggInit { .. } => "AggInit",
            Insn::AggStep { .. } => "AggStep",
            Insn::AggFinal { .. } => "AggFinal",
            Insn::AggValue { .. } => "AggValue",
            Insn::SorterOpen { .. } => "SorterOpen",
            Insn::SorterInsert { .. } => "SorterInsert",
            Insn::SorterSort { .. } => "SorterSort",
            Insn::SorterData { .. } => "SorterData",
            Insn::SorterNext { .. } => "SorterNext",
            Insn::BeginSubrtn { .. } => "BeginSubrtn",
            Insn::EndCoroutine { .. } => "EndCoroutine",
            Insn::InitCoroutine { .. } => "InitCoroutine",
            Insn::Yield { .. } => "Yield",
            Insn::Transaction { .. } => "Transaction",
            Insn::AutoCommit { .. } => "AutoCommit",
            Insn::Function { .. } => "Function",
            Insn::Noop => "Noop",
            Insn::DecrJumpZero { .. } => "DecrJumpZero",
            Insn::ApplyAffinity { .. } => "Affinity",
            Insn::TypeCheck { .. } => "TypeCheck",
            Insn::CreateBtree { .. } => "CreateBtree",
            Insn::ParseSchema { .. } => "ParseSchema",
            Insn::SetCookie { .. } => "SetCookie",
            Insn::Trace { .. } => "Trace",
        }
    }
}

/// The three numeric operands of an instruction's disassembly row:
/// registers and cursors first, then jump targets, then counts; zero
/// where an operand slot is unused.
pub open spec fn spec_operands(i: Insn) -> (int, int, int) {
    match i {
        Insn::Goto { target } => (0, target.0 as int, 0),
        Insn::Gosub { target, return_reg } => (return_reg.0 as int, target.0 as int, 0),
        Insn::Rewind { cursor, if_empty } => (cursor.0 as int, if_empty.0 as int, 0),
        Insn::Last { cursor, if_empty } => (cursor.0 as int, if_empty.0 as int, 0),
        Insn::Next { cursor, if_next } => (cursor.0 as int, if_next.0 as int, 0),
        Insn::Prev { cursor, if_prev } => (cursor.0 as int, if_prev.0 as int, 0),
        Insn::SorterSort { cursor, if_empty } => (cursor.0 as int, if_empty.0 as int, 0),
        Insn::SorterNext { cursor, if_next } => (cursor.0 as int, if_next.0 as int, 0),
        Insn::Column { cursor, column, dest } => (cursor.0 as int, column as int, dest.0 as int),
        Insn::RowId { cursor, dest } => (cursor.0 as int, dest.0 as int, 0),
        Insn::Integer { dest, .. } => (dest.0 as int, 0, 0),
        Insn::String8 { dest, .. } => (dest.0 as int, 0, 0),
        Insn::Add { lhs, rhs, dest } => (lhs.0 as int, rhs.0 as int, dest.0 as int),
        Insn::Subtract { lhs, rhs, dest } => (lhs.0 as int, rhs.0 as int, dest.0 as int),
        Insn::Multiply { lhs, rhs, dest } => (lhs.0 as int, rhs.0 as int, dest.0 as int),
        Insn::Divide { lhs, rhs, dest } => (lhs.0 as int, rhs.0 as int, dest.0 as int),
        Insn::Eq { lhs, rhs, target, .. } => (lhs.0 as int, rhs.0 as int, target.0 as int),
        Insn::Ne { lhs, rhs, target, .. } => (lhs.0 as int, rhs.0 as int, target.0 as int),
        Insn::MakeRecord { start_reg, count, dest } => (
            start_reg.0 as int,
            count as int,
            dest.0 as int,
        ),
        Insn::ResultRow { start_reg, count } => (start_reg.0 as int, count as int, 0),
        Insn::Insert { cursor, key_reg, record_reg, .. } => (
            cursor.0 as int,
            key_reg.0 as int,
            record_reg.0 as int,
        ),
        Insn::OpenRead { cursor, root_page, db } => (
            cursor.0 as int,
            root_page as int,
            db as int,
        ),
        Insn::Null { dest, count } => (dest.0 as int, count as int, 0),
        _ => (0, 0, 0),
    }
}

/// The auxiliary text operand of an instruction's disassembly row: the
/// loaded constant or the named table; empty where there is none.
pub open spec fn spec_aux(i: Insn) -> Seq<char> {
    match i {
        Insn::Integer { value, .. } => signed_dec(value as int),
        Insn::String8 { value, .. } => value@,
        Insn::Insert { table_name, .. } => table_name@,
        _ => Seq::<char>::empty(),
    }
}

/// The comment of an instruction's disassembly row: the register
/// equation for the four arithmetic instructions, empty otherwise.
pub open spec fn spec_comment(i: Insn) -> Seq<char> {
    match i {
        Insn::Add { lhs, rhs, dest } => reg_equation(dest.0 as nat, lhs.0 as nat, rhs.0 as nat, '+'),
        Insn::Subtract { lhs, rhs, dest } => reg_equation(
            dest.0 as nat,
            lhs.0 as nat,
            rhs.0 as nat,
            '-',
        ),
        Insn::Multiply { lhs, rhs, dest } => reg_equation(
            dest.0 as nat,
            lhs.0 as nat,
            rhs.0 as nat,
            '*',
        ),
        Insn::Divide { lhs, rhs, dest } => reg_equation(
            dest.0 as nat,
            lhs.0 as nat,
            rhs.0 as nat,
            '/',
        ),
        _ => Seq::<char>::empty(),
    }
}

/// The register equation `r[dest]=r[lhs]<op>r[rhs]`.
pub open spec fn reg_equation(dest: nat, lhs: nat, rhs: nat, op: char) -> Seq<char> {
    "r["@ + dec_digits(dest) + "]=r["@ + dec_digits(lhs) + "]"@ + seq![op] + "r["@ + dec_digits(
        rhs,
    ) + "]"@
}

/// The decimal rendering of a signed number.
pub open spec fn signed_dec(v: int) -> Seq<char> {
    if v >= 0 {
        dec_digits(v as nat)
    } else {
        seq!['-'] + dec_digits((-v) as nat)
    }
}

/// One row of the disassembly listing: the instruction address, the
/// mnemonic, three numeric operands, an auxiliary text operand, a small
/// flag operand, and a human-readable comment.
#[derive(Debug)]
pub struct ExplainRow {
    /// The instruction address.
    pub addr: usize,
    /// The mnemonic.
    pub opcode: &'static str,
    /// The first numeric operand.
    pub p1: usize,
    /// The second numeric operand.
    pub p2: usize,
    /// The third numeric operand.
    pub p3: usize,
    /// The auxiliary text operand.
    pub p4: String,
    /// The small flag operand.
    pub p5: u16,
    /// The human-readable comment.
    pub comment: String,
}

/// Build the disassembly row of one instruction.
///
/// The numeric operands carry the instruction's handles in a fixed
/// order: registers and cursors first, then jump targets, then counts.
pub fn insn_to_explain_row(program: &Program, addr: usize, insn: &Insn) -> (r: ExplainRow)
    ensures
        r.addr == addr,
        r.opcode@ == opcode_of(*insn),
        (r.p1 as int, r.p2 as int, r.p3 as int) == spec_operands(*insn),
        r.p4@ == spec_aux(*insn),
        r.p5 == 0,
        r.comment@ == spec_comment(*insn),
{
    let opcode = insn.opcode();
    let mut p1: usize = 0;
    let mut p2: usize = 0;
    let mut p3: usize = 0;
    let mut p4 = String::new();
    match insn {
        Insn::Goto { target } => {
            p2 = target.0 as usize;
        },
        Insn::Gosub { target, return_reg } => {
            p1 = return_reg.0;
            p2 = target.0 as usize;
        },
        Insn::Rewind { cursor, if_empty } => {
            p1 = cursor.0;
            p2 = if_empty.0 as usize;
        },
        Insn::Last { cursor, if_empty } => {
            p1 = cursor.0;
            p2 = if_empty.0 as usize;
        },
        Insn::Next { cursor, if_next } => {
            p1 = cursor.0;
            p2 = if_next.0 as usize;
        },
        Insn::Prev { cursor, if_prev } => {
            p1 = cursor.0;
            p2 = if_prev.0 as usize;
        },
        Insn::SorterSort { cursor, if_empty } => {
            p1 = cursor.0;
            p2 = if_empty.0 as usize;
        },
        Insn::SorterNext { cursor, if_next } => {
            p1 = cursor.0;
            p2 = if_next.0 as usize;
        },
        Insn::Column { cursor, column, dest } => {
            p1 = cursor.0;
            p2 = *column;
            p3 = dest.0;
        },
        Insn::RowId { cursor, dest } => {
            p1 = cursor.0;
            p2 = dest.0;
        },
        Insn::Integer { value, dest } => {
            p1 = dest.0;
            push_decimal_signed(&mut p4, *value);
        },
        Insn::String8 { value, dest } => {
            p1 = dest.0;
            p4.append(value.as_str());
        },
        Insn::Add { lhs, rhs, dest } => {
            p1 = lhs.0;
            p2 = rhs.0;
            p3 = dest.0;
        },
        Insn::Subtract { lhs, rhs, dest } => {
            p1 = lhs.0;
            p2 = rhs.0;
            p3 = dest.0;
        },
        Insn::Multiply { lhs, rhs, dest } => {
            p1 = lhs.0;
            p2 = rhs.0;
            p3 = dest.0;
        },
        Insn::Divide { lhs, rhs, dest } => {
            p1 = lhs.0;
            p2 = rhs.0;
            p3 = dest.0;
        },
        Insn::Eq { lhs, rhs, target, .. } => {
            p1 = lhs.0;
            p2 = rhs.0;
            p3 = target.0 as usize;
        },
        Insn::Ne { lhs, rhs, target, .. } => {
            p1 = lhs.0;
            p2 = rhs.0;
            p3 = target.0 as usize;
        },
        Insn::MakeRecord { start_reg, count, dest } => {
            p1 = start_reg.0;
            p2 = *count;
            p3 = dest.0;
        },
        Insn::ResultRow { start_reg, count } => {
            p1 = start_reg.0;
            p2 = *count;
        },
        Insn::Insert { cursor, key_reg, record_reg, table_name, .. } => {
            p1 = cursor.0;
            p2 = key_reg.0;
            p3 = record_reg.0;
            p4.append(table_name.as_str());
        },
        Insn::OpenRead { cursor, root_page, db } => {
            p1 = cursor.0;
            p2 = *root_page;
            p3 = *db;
        },
        Insn::Null { dest, count } => {
            p1 = dest.0;
            p2 = *count;
        },
        _ => {},
    }
    let mut comment = String::new();
    proof {
        reveal_strlit("+");
        reveal_strlit("-");
        reveal_strlit("*");
        reveal_strlit("/");
    }
    match insn {
        Insn::Add { lhs, rhs, dest } => {
            push_reg_comment(&mut comment, dest.0, lhs.0, rhs.0, "+");
        },
        Insn::Subtract { lhs, rhs, dest } => {
            push_reg_comment(&mut comment, dest.0, lhs.0, rhs.0, "-");
        },
        Insn::Multiply { lhs, rhs, dest } => {
            push_reg_comment(&mut comment, dest.0, lhs.0, rhs.0, "*");
        },
        Insn::Divide { lhs, rhs, dest } => {
            push_reg_comment(&mut comment, dest.0, lhs.0, rhs.0, "/");
        },
        _ => {},
    }
    proof {
        assert(comment@ =~= spec_comment(*insn));
        assert(p4@ =~= spec_aux(*insn));
    }
    ExplainRow { addr, opcode, p1, p2, p3, p4, p5: 0, comment }
}

/// Append a signed decimal rendering.
fn push_decimal_signed(s: &mut String, v: i64)
    ensures
        final(s)@ == old(s)@ + signed_dec(v as int),
{
    if v < 0 {
        s.append("-");
        proof {
            reveal_strlit("-");
        }
        if v == i64::MIN {
            let half = ((i64::MAX / 2) as u64) + 1;
            push_decimal(s, half + half);
            proof {
                assert(s@ =~= old(s)@ + signed_dec(v as int));
            }
        } else {
            push_decimal(s, (-v) as u64);
            proof {
                assert(s@ =~= old(s)@ + signed_dec(v as int));
            }
        }
    } else {
        push_decimal(s, v as u64);
    }
}

/// Append an arithmetic comment of the shape the listing uses for
/// register arithmetic.
fn push_reg_comment(s: &mut String, dest: usize, lhs: usize, rhs: usize, op: &str)
    requires
        op@.len() == 1,
    ensures
        final(s)@ == old(s)@ + reg_equation(dest as nat, lhs as nat, rhs as nat, op@[0]),
{
    s.append("r[");
    push_decimal(s, dest as u64);
    s.append("]=r[");
    push_decimal(s, lhs as u64);
    s.append("]");
    s.append(op);
    s.append("r[");
    push_decimal(s, rhs as u64);
    s.append("]");
    proof {
        reveal_strlit("r[");
        reveal_strlit("]=r[");
        reveal_strlit("]");
        assert(op@ =~= seq![op@[0]]);
        assert(s@ =~= old(s)@ + reg_equation(dest as nat, lhs as nat, rhs as nat, op@[0]));
    }
}

/// The rendering of one disassembly row: the address, the mnemonic and
/// the numeric operands separated by single spaces, then the auxiliary
/// operand, the flag operand and the comment.
pub open spec fn row_text(r: ExplainRow) -> Seq<char> {
    dec_digits(r.addr as nat) + seq![' '] + r.opcode@ + seq![' '] + dec_digits(r.p1 as nat)
        + seq![' '] + dec_digits(r.p2 as nat) + seq![' '] + dec_digits(r.p3 as nat) + seq![' ']
        + r.p4@ + seq![' '] + dec_digits(r.p5 as nat) + seq![' '] + r.comment@
}

/// Render one disassembly row as a line of text.
pub fn insn_to_str(row: &ExplainRow) -> (r: String)
    ensures
        r@ == row_text(*row),
{
    let mut out = String::new();
    push_decimal(&mut out, row.addr as u64);
    out.append(" ");
    out.append(row.opcode);
    out.append(" ");
    push_decimal(&mut out, row.p1 as u64);
    out.append(" ");
    push_decimal(&mut out, row.p2 as u64);
    out.append(" ");
    push_decimal(&mut out, row.p3 as u64);
    out.append(" ");
    out.append(row.p4.as_str());
    out.append(" ");
    push_decimal(&mut out, row.p5 as u64);
    out.append(" ");
    out.append(row.comment.as_str());
    proof {
        reveal_strlit(" ");
        assert(out@ =~= row_text(*row));
    }
    out
}

} // verus!
