//! The program builder: mutable state that every statement translator
//! threads while compiling, and the immutable [`Program`] it freezes into.
//!
//! The builder owns four monotone counters (registers, cursors, labels,
//! hash tables), the append-only instruction buffer, the label table and
//! the cursor metadata table.  Its well-formedness invariant
//! [`ProgramBuilder::wf`] states the typed-handle discipline: every handle
//! an emitted instruction carries was allocated by this builder, and every
//! bound label points into the instruction buffer.

use vstd::prelude::*;

use crate::insn::{insn_wf, Insn};
use crate::resources::{
    unresolved_in, Cursor, CursorKind, CursorTable, HashTableId, InsnPos, Label, LabelTable,
    LoopLabels, Reg, RegRange,
};
use crate::TranslateError;

verus! {

/// Builder state for one compilation.
#[derive(Debug)]
pub struct ProgramBuilder {
    /// Next register index to hand out; starts at 1, register 0 is
    /// reserved.
    pub next_register: usize,
    /// Next cursor id to hand out.
    pub next_cursor: usize,
    /// Next hash table id to hand out.
    pub next_hash_table: usize,
    /// Append-only instruction buffer.
    pub insns: Vec<Insn>,
    /// Allocation and resolution state of every label.
    pub labels: LabelTable,
    /// Metadata for every cursor allocated with a kind.
    pub cursors: CursorTable,
    /// Depth of nested sub-statement compilation.
    pub nested: usize,
    /// Whether row-count reporting is emitted for this program.
    pub change_count_on: bool,
}

impl ProgramBuilder {
    /// The typed-handle discipline: every handle carried by an emitted
    /// instruction was allocated by this builder, and every bound label
    /// points into the instruction buffer.
    pub open spec fn wf(self) -> bool {
        &&& 1 <= self.next_register
        &&& self.cursors@.len() <= self.next_cursor
        &&& forall|i: int|
            0 <= i < self.insns@.len() ==> insn_wf(
                #[trigger] self.insns@[i],
                self.next_register as int,
                self.next_cursor as int,
                self.labels@.len() as int,
            )
        &&& forall|i: int|
            0 <= i < self.labels@.len() ==> ((#[trigger] self.labels@[i]) matches Some(p) ==> p
                <= self.insns@.len())
    }
}

/// The second builder state is reachable from the first by allocation and
/// emission alone: counters only grow, the instruction buffer is extended,
/// bound labels stay bound to the same position, recorded cursor metadata
/// stays, and the nesting depth and the row-count flag are untouched.
pub open spec fn extends(a: ProgramBuilder, b: ProgramBuilder) -> bool {
    &&& a.insns@.len() <= b.insns@.len()
    &&& b.insns@.subrange(0, a.insns@.len() as int) == a.insns@
    &&& a.next_register <= b.next_register
    &&& a.next_cursor <= b.next_cursor
    &&& a.next_hash_table <= b.next_hash_table
    &&& a.labels@.len() <= b.labels@.len()
    &&& forall|i: int|
        0 <= i < a.labels@.len() && (#[trigger] a.labels@[i]) is Some ==> b.labels@[i]
            == a.labels@[i]
    &&& a.cursors@.len() <= b.cursors@.len()
    &&& forall|i: int| 0 <= i < a.cursors@.len() ==> (#[trigger] b.cursors@[i]) == a.cursors@[i]
    &&& b.nested == a.nested
    &&& b.change_count_on == a.change_count_on
}

/// Extension is reflexive.
pub proof fn lemma_extends_refl(a: ProgramBuilder)
    ensures
        extends(a, a),
{
    assert(a.insns@.subrange(0, a.insns@.len() as int) =~= a.insns@);
}

/// Extension is transitive; this form is instantiated automatically
/// wherever two adjoining extensions are in scope.
pub broadcast proof fn lemma_extends_trans_auto(a: ProgramBuilder, b: ProgramBuilder, c: ProgramBuilder)
    requires
        #[trigger] extends(a, b),
        #[trigger] extends(b, c),
    ensures
        extends(a, c),
{
    lemma_extends_trans(a, b, c);
}

/// Extension is transitive.
pub proof fn lemma_extends_trans(a: ProgramBuilder, b: ProgramBuilder, c: ProgramBuilder)
    requires
        extends(a, b),
        extends(b, c),
    ensures
        extends(a, c),
{
    assert(c.insns@.subrange(0, a.insns@.len() as int) =~= b.insns@.subrange(
        0,
        a.insns@.len() as int,
    ));
}

impl ProgramBuilder {
    /// Create a fresh builder: no instructions, no labels, no cursors,
    /// register numbering starting at 1.
    pub fn new() -> (r: ProgramBuilder)
        ensures
            r.wf(),
            r.next_register == 1,
            r.next_cursor == 0,
            r.next_hash_table == 0,
            r.insns@ == Seq::<Insn>::empty(),
            r.labels@ == Seq::<Option<usize>>::empty(),
            r.cursors@ == Seq::<Option<CursorKind>>::empty(),
            r.nested == 0,
            r.change_count_on == false,
    {
        ProgramBuilder {
            next_register: 1,
            next_cursor: 0,
            next_hash_table: 0,
            insns: Vec::new(),
            labels: LabelTable::new(),
            cursors: CursorTable::new(),
            nested: 0,
            change_count_on: false,
        }
    }

    /// Create a builder whose register and cursor numbering continues
    /// from the given counters.
    pub fn with_counters(next_register: usize, next_cursor: usize) -> (r: ProgramBuilder)
        requires
            1 <= next_register,
        ensures
            r.wf(),
            r.next_register == next_register,
            r.next_cursor == next_cursor,
            r.next_hash_table == 0,
            r.insns@ == Seq::<Insn>::empty(),
            r.labels@ == Seq::<Option<usize>>::empty(),
            r.cursors@ == Seq::<Option<CursorKind>>::empty(),
            r.nested == 0,
            r.change_count_on == false,
    {
        ProgramBuilder {
            next_register,
            next_cursor,
            next_hash_table: 0,
            insns: Vec::new(),
            labels: LabelTable::new(),
            cursors: CursorTable::new(),
            nested: 0,
            change_count_on: false,
        }
    }

    /// Allocate a single register.  Allocation is a counter: no register
    /// index is ever issued twice.
    pub fn alloc_register(&mut self) -> (r: Reg)
        requires
            old(self).wf(),
            old(self).next_register < usize::MAX,
        ensures
            final(self).wf(),
            extends(*old(self), *final(self)),
            r.0 == old(self).next_register,
            final(self).next_register == old(self).next_register + 1,
            final(self).insns@ == old(self).insns@,
            final(self).labels@ == old(self).labels@,
            final(self).cursors@ == old(self).cursors@,
            final(self).next_cursor == old(self).next_cursor,
            final(self).next_hash_table == old(self).next_hash_table,
            final(self).nested == old(self).nested,
            final(self).change_count_on == old(self).change_count_on,
    {
        let r = Reg(self.next_register);
        self.next_register = self.next_register + 1;
        proof {
            assert(self.insns@.subrange(0, old(self).insns@.len() as int) =~= old(self).insns@);
            lemma_wf_counters_mono(*old(self), *self);
        }
        r
    }

    /// Allocate a contiguous range of registers.
    pub fn alloc_registers(&mut self, count: usize) -> (r: RegRange)
        requires
            old(self).wf(),
            old(self).next_register + count <= usize::MAX,
        ensures
            final(self).wf(),
            extends(*old(self), *final(self)),
            r.start == old(self).next_register,
            r.count == count,
            final(self).next_register == old(self).next_register + count,
            final(self).insns@ == old(self).insns@,
            final(self).labels@ == old(self).labels@,
            final(self).cursors@ == old(self).cursors@,
            final(self).next_cursor == old(self).next_cursor,
            final(self).next_hash_table == old(self).next_hash_table,
            final(self).nested == old(self).nested,
            final(self).change_count_on == old(self).change_count_on,
    {
        let start = self.next_register;
        self.next_register = self.next_register + count;
        proof {
            assert(self.insns@.subrange(0, old(self).insns@.len() as int) =~= old(self).insns@);
            lemma_wf_counters_mono(*old(self), *self);
        }
        RegRange { start, count }
    }

    /// Allocate a cursor id without metadata.
    pub fn alloc_cursor(&mut self) -> (r: Cursor)
        requires
            old(self).wf(),
            old(self).next_cursor < usize::MAX,
        ensures
            final(self).wf(),
            extends(*old(self), *final(self)),
            r.0 == old(self).next_cursor,
            final(self).next_cursor == old(self).next_cursor + 1,
            final(self).insns@ == old(self).insns@,
            final(self).labels@ == old(self).labels@,
            final(self).cursors@ == old(self).cursors@,
            final(self).next_register == old(self).next_register,
            final(self).next_hash_table == old(self).next_hash_table,
            final(self).nested == old(self).nested,
            final(self).change_count_on == old(self).change_count_on,
    {
        let r = Cursor(self.next_cursor);
        self.next_cursor = self.next_cursor + 1;
        proof {
            assert(self.insns@.subrange(0, old(self).insns@.len() as int) =~= old(self).insns@);
            lemma_wf_counters_mono(*old(self), *self);
        }
        r
    }

    /// Allocate a cursor id and record its metadata for diagnostics and
    /// for the runtime's cursor-to-schema binding.
    pub fn alloc_cursor_with_kind(&mut self, kind: CursorKind) -> (r: Cursor)
        requires
            old(self).wf(),
            old(self).next_cursor < usize::MAX,
        ensures
            final(self).wf(),
            extends(*old(self), *final(self)),
            r.0 == old(self).next_cursor,
            final(self).next_cursor == old(self).next_cursor + 1,
            final(self).cursors@.len() == r.0 + 1,
            final(self).cursors@[r.0 as int] == Some(kind),
            final(self).insns@ == old(self).insns@,
            final(self).labels@ == old(self).labels@,
            final(self).next_register == old(self).next_register,
            final(self).next_hash_table == old(self).next_hash_table,
            final(self).nested == old(self).nested,
            final(self).change_count_on == old(self).change_count_on,
    {
        let r = Cursor(self.next_cursor);
        self.next_cursor = self.next_cursor + 1;
        self.cursors.register(r, kind);
        proof {
            assert(self.insns@.subrange(0, old(self).insns@.len() as int) =~= old(self).insns@);
            lemma_wf_counters_mono(*old(self), *self);
        }
        r
    }

    /// Allocate a hash table id.
    pub fn alloc_hash_table_id(&mut self) -> (r: HashTableId)
        requires
            old(self).wf(),
            old(self).next_hash_table < usize::MAX,
        ensures
            final(self).wf(),
            extends(*old(self), *final(self)),
            r.0 == old(self).next_hash_table,
            final(self).next_hash_table == old(self).next_hash_table + 1,
            final(self).insns@ == old(self).insns@,
            final(self).labels@ == old(self).labels@,
            final(self).cursors@ == old(self).cursors@,
            final(self).next_register == old(self).next_register,
            final(self).next_cursor == old(self).next_cursor,
            final(self).nested == old(self).nested,
            final(self).change_count_on == old(self).change_count_on,
    {
        let r = HashTableId(self.next_hash_table);
        self.next_hash_table = self.next_hash_table + 1;
        proof {
            assert(self.insns@.subrange(0, old(self).insns@.len() as int) =~= old(self).insns@);
            lemma_wf_counters_mono(*old(self), *self);
        }
        r
    }

    /// Allocate a new, unresolved label.
    pub fn allocate_label(&mut self) -> (r: Label)
        requires
            old(self).wf(),
            old(self).labels@.len() < u32::MAX,
        ensures
            final(self).wf(),
            extends(*old(self), *final(self)),
            r.0 == old(self).labels@.len(),
            final(self).labels@ == old(self).labels@.push(None),
            final(self).insns@ == old(self).insns@,
            final(self).cursors@ == old(self).cursors@,
            final(self).next_register == old(self).next_register,
            final(self).next_cursor == old(self).next_cursor,
            final(self).next_hash_table == old(self).next_hash_table,
            final(self).nested == old(self).nested,
            final(self).change_count_on == old(self).change_count_on,
    {
        let r = self.labels.allocate();
        proof {
            assert(self.insns@.subrange(0, old(self).insns@.len() as int) =~= old(self).insns@);
            lemma_wf_counters_mono(*old(self), *self);
        }
        r
    }

    /// Bind a label to the current instruction position, that is, to the
    /// next instruction that will be emitted.  Binding an already bound
    /// label, or one that was never allocated, is an error.
    pub fn resolve_label(&mut self, label: Label) -> (r: Result<(), TranslateError>)
        requires
            old(self).wf(),
        ensures
            final(self).wf(),
            extends(*old(self), *final(self)),
            r is Ok <==> label.0 < old(self).labels@.len() && old(self).labels@[label.0 as int]
                is None,
            (r matches Err(e) && e == TranslateError::UnknownLabel) <==> label.0 >= old(
                self,
            ).labels@.len(),
            (r matches Err(e) && e == TranslateError::DuplicateLabelBinding) <==> (label.0 < old(
                self,
            ).labels@.len() && old(self).labels@[label.0 as int] is Some),
            r is Ok ==> final(self).labels@ == old(self).labels@.update(
                label.0 as int,
                Some(old(self).insns@.len() as usize),
            ),
            r is Err ==> final(self).labels@ == old(self).labels@,
            final(self).insns@ == old(self).insns@,
            final(self).cursors@ == old(self).cursors@,
            final(self).next_register == old(self).next_register,
            final(self).next_cursor == old(self).next_cursor,
            final(self).next_hash_table == old(self).next_hash_table,
            final(self).nested == old(self).nested,
            final(self).change_count_on == old(self).change_count_on,
    {
        let pos = InsnPos(self.insns.len());
        let r = self.labels.resolve(label, pos);
        proof {
            assert(self.insns@.subrange(0, old(self).insns@.len() as int) =~= old(self).insns@);
            lemma_wf_counters_mono(*old(self), *self);
        }
        r
    }

    /// Append one instruction to the buffer.  The instruction must be
    /// well formed for the current builder state: every handle it carries
    /// was allocated by this builder.
    pub fn emit_insn(&mut self, insn: Insn)
        requires
            old(self).wf(),
            insn_wf(
                insn,
                old(self).next_register as int,
                old(self).next_cursor as int,
                old(self).labels@.len() as int,
            ),
        ensures
            final(self).wf(),
            extends(*old(self), *final(self)),
            final(self).insns@ == old(self).insns@.push(insn),
            final(self).labels@ == old(self).labels@,
            final(self).cursors@ == old(self).cursors@,
            final(self).next_register == old(self).next_register,
            final(self).next_cursor == old(self).next_cursor,
            final(self).next_hash_table == old(self).next_hash_table,
            final(self).nested == old(self).nested,
            final(self).change_count_on == old(self).change_count_on,
    {
        self.insns.push(insn);
        proof {
            assert(self.insns@.subrange(0, old(self).insns@.len() as int) =~= old(self).insns@);
            lemma_wf_counters_mono(*old(self), *self);
        }
    }

    /// The current instruction position: the index of the next
    /// instruction that will be emitted.
    pub fn offset(&self) -> (r: usize)
        ensures
            r == self.insns@.len(),
    {
        self.insns.len()
    }

    /// How many instructions have been emitted so far.
    pub fn instruction_count(&self) -> (r: usize)
        ensures
            r == self.insns@.len(),
    {
        self.insns.len()
    }

    /// The instruction buffer.
    pub fn instructions(&self) -> (r: &Vec<Insn>)
        ensures
            r@ == self.insns@,
    {
        &self.insns
    }

    /// The current nesting depth of sub-statement compilation.
    pub fn nesting_depth(&self) -> (r: usize)
        ensures
            r == self.nested,
    {
        self.nested
    }

    /// Whether every allocated label has been bound to a position.
    pub fn all_labels_resolved(&self) -> (r: bool)
        ensures
            r <==> (forall|i: int| 0 <= i < self.labels@.len() ==> self.labels@[i] is Some),
    {
        self.labels.all_resolved()
    }

    /// How many allocated labels are still unbound.
    pub fn unresolved_label_count(&self) -> (r: usize)
        ensures
            r == unresolved_in(self.labels@),
    {
        self.labels.unresolved_count()
    }

    /// Emit the instruction that starts a transaction.
    pub fn emit_transaction(&mut self, write: bool)
        requires
            old(self).wf(),
        ensures
            final(self).wf(),
            extends(*old(self), *final(self)),
            final(self).insns@ == old(self).insns@.push(
                Insn::Transaction { db: 0, write },
            ),
            final(self).labels@ == old(self).labels@,
            final(self).cursors@ == old(self).cursors@,
            final(self).next_register == old(self).next_register,
            final(self).next_cursor == old(self).next_cursor,
            final(self).next_hash_table == old(self).next_hash_table,
            final(self).nested == old(self).nested,
            final(self).change_count_on == old(self).change_count_on,
    {
        self.emit_insn(Insn::Transaction { db: 0, write });
    }

    /// Freeze the builder into an immutable program.
    ///
    /// Every allocated label must have been bound: this is checked by
    /// [`crate::translate::translate`] before any program is handed out.
    pub fn build(self) -> (r: Program)
        requires
            self.wf(),
            forall|i: int| 0 <= i < self.labels@.len() ==> self.labels@[i] is Some,
        ensures
            r.insns@ == self.insns@,
            r.labels@ == self.labels@,
            r.cursors@ == self.cursors@,
            r.nested == self.nested,
            r.change_count_on == self.change_count_on,
            r.complete(),
            r.wf(),
    {
        proof {
            crate::resources::lemma_unresolved_in_zero(self.labels@);
        }
        Program {
            insns: self.insns,
            labels: self.labels,
            cursors: self.cursors,
            nested: self.nested,
            change_count_on: self.change_count_on,
        }
    }
}

/// LAW — register monotonicity.  Register allocation is a counter:
/// within one compilation no register index is issued twice, and a
/// range allocation of `n` registers followed by a single allocation
/// yields exactly the register index just past the range.  The
/// hypotheses are the contracts of [`ProgramBuilder::alloc_registers`]
/// and [`ProgramBuilder::alloc_register`] run in sequence.
pub proof fn lemma_register_monotonicity(
    b1: ProgramBuilder,
    b2: ProgramBuilder,
    b3: ProgramBuilder,
    rr: RegRange,
    r: Reg,
    n: usize,
)
    requires
        rr.start == b1.next_register,
        rr.count == n,
        b2.next_register == b1.next_register + n,
        r.0 == b2.next_register,
        b3.next_register == b2.next_register + 1,
    ensures
        r.0 == rr.start + n,
        rr.start + rr.count <= r.0,
        r.0 < b3.next_register,
{
}

/// The well-formedness invariant only constrains handles from above, so
/// growing the counters preserves it as long as the instruction buffer,
/// the label states and the cursor table do not shrink.
proof fn lemma_wf_counters_mono(a: ProgramBuilder, b: ProgramBuilder)
    requires
        a.wf(),
        1 <= b.next_register,
        a.next_register <= b.next_register,
        a.next_cursor <= b.next_cursor,
        a.cursors@.len() <= b.cursors@.len(),
        b.cursors@.len() <= b.next_cursor,
        a.labels@.len() <= b.labels@.len(),
        b.insns@.len() >= a.insns@.len(),
        b.insns@.subrange(0, a.insns@.len() as int) == a.insns@,
        forall|i: int|
            a.insns@.len() <= i < b.insns@.len() ==> insn_wf(
                #[trigger] b.insns@[i],
                b.next_register as int,
                b.next_cursor as int,
                b.labels@.len() as int,
            ),
        forall|i: int|
            0 <= i < b.labels@.len() ==> ((#[trigger] b.labels@[i]) matches Some(p) ==> p
                <= b.insns@.len()),
    ensures
        b.wf(),
{
    assert forall|i: int| 0 <= i < b.insns@.len() implies insn_wf(
        #[trigger] b.insns@[i],
        b.next_register as int,
        b.next_cursor as int,
        b.labels@.len() as int,
    ) by {
        if i < a.insns@.len() {
            assert(b.insns@[i] == a.insns@.subrange(0, a.insns@.len() as int)[i]);
            assert(b.insns@[i] == a.insns@[i]);
            assert(insn_wf(
                a.insns@[i],
                a.next_register as int,
                a.next_cursor as int,
                a.labels@.len() as int,
            ));
        }
    }
}

/// The immutable output of one compilation: the instruction buffer, the
/// cursor metadata, the label table (every label bound), the nesting
/// counter and the row-count flag.
#[derive(Debug)]
pub struct Program {
    /// The ordered instruction sequence.
    pub insns: Vec<Insn>,
    /// The label table; in a complete program every label is bound.
    pub labels: LabelTable,
    /// Metadata of every cursor allocated with a kind.
    pub cursors: CursorTable,
    /// Nesting depth at which compilation finished.
    pub nested: usize,
    /// Whether row-count reporting is emitted.
    pub change_count_on: bool,
}

impl Program {
    /// A program is complete when every allocated label is bound.
    pub open spec fn complete(self) -> bool {
        forall|i: int| 0 <= i < self.labels@.len() ==> self.labels@[i] is Some
    }

    /// The handle discipline carried over from the builder.
    pub open spec fn wf(self) -> bool {
        forall|i: int|
            0 <= i < self.labels@.len() ==> ((#[trigger] self.labels@[i]) matches Some(p) ==> p
                <= self.insns@.len())
    }

    /// How many allocated labels are still unbound; zero for every
    /// program a translator hands out.
    pub fn unresolved_count(&self) -> (r: usize)
        ensures
            r == unresolved_in(self.labels@),
            r == 0 <==> self.complete(),
    {
        proof {
            crate::resources::lemma_unresolved_in_zero(self.labels@);
        }
        self.labels.unresolved_count()
    }

    /// How many instructions the program holds.
    pub fn instruction_count(&self) -> (r: usize)
        ensures
            r == self.insns@.len(),
    {
        self.insns.len()
    }

    /// The instruction sequence.
    pub fn instructions(&self) -> (r: &Vec<Insn>)
        ensures
            r@ == self.insns@,
    {
        &self.insns
    }

    /// The nesting depth at which compilation finished.
    pub fn nesting_depth(&self) -> (r: usize)
        ensures
            r == self.nested,
    {
        self.nested
    }

    /// The position a label was bound to, if it is bound.
    pub fn resolved_position(&self, label: Label) -> (r: Option<InsnPos>)
        ensures
            match r {
                Some(p) => label.0 < self.labels@.len() && self.labels@[label.0 as int] == Some(
                    p.0,
                ),
                None => label.0 >= self.labels@.len() || self.labels@[label.0 as int] is None,
            },
    {
        self.labels.get_resolved(label)
    }

    /// The metadata recorded for a cursor.
    pub fn cursor_kind(&self, cursor: Cursor) -> (r: Option<&CursorKind>)
        ensures
            match r {
                Some(k) => cursor.0 < self.cursors@.len() && self.cursors@[cursor.0 as int]
                    == Some(*k),
                None => cursor.0 >= self.cursors@.len() || self.cursors@[cursor.0 as int] is None,
            },
    {
        self.cursors.get(cursor)
    }
}

/// Allocate the three labels that shape a loop: `start`, `next`, `end`,
/// in that order.
pub fn alloc_loop_labels(b: &mut ProgramBuilder) -> (r: LoopLabels)
    requires
        old(b).wf(),
        old(b).labels@.len() + 3 <= u32::MAX,
    ensures
        final(b).wf(),
        extends(*old(b), *final(b)),
        r.start.0 == old(b).labels@.len(),
        r.next.0 == old(b).labels@.len() + 1,
        r.end.0 == old(b).labels@.len() + 2,
        final(b).labels@ == old(b).labels@.push(None).push(None).push(None),
        final(b).insns@ == old(b).insns@,
        final(b).cursors@ == old(b).cursors@,
        final(b).next_register == old(b).next_register,
        final(b).next_cursor == old(b).next_cursor,
        final(b).next_hash_table == old(b).next_hash_table,
        final(b).nested == old(b).nested,
        final(b).change_count_on == old(b).change_count_on,
{
    let start = b.allocate_label();
    let next = b.allocate_label();
    let end = b.allocate_label();
    LoopLabels { start, next, end }
}

} // verus!
