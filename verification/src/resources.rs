//! Typed resource handles and the bookkeeping tables behind them.
//!
//! The compiler hands out three kinds of numeric resources: registers,
//! cursors and labels.  Each gets its own newtype so that the numeric
//! spaces cannot be mixed up.  The label table tracks which labels have
//! been bound to an instruction position; a program is complete only when
//! every allocated label has been bound exactly once.

use vstd::prelude::*;

use crate::TranslateError;

verus! {

/// A typed reference to an allocated register.
///
/// Register indices are 1-based; register 0 is reserved.
#[derive(Debug, Clone, Copy, PartialEq, Eq, Hash, Structural)]
pub struct Reg(pub usize);

impl Reg {
    /// Get the underlying register index.
    pub fn index(&self) -> (r: usize)
        ensures
            r == self.0,
    {
        self.0
    }
}

/// A contiguous range of registers.
#[derive(Debug, Clone, Copy, PartialEq, Eq, Structural)]
pub struct RegRange {
    /// Index of the first register of the span.
    pub start: usize,
    /// Number of registers in the span.
    pub count: usize,
}

impl RegRange {
    /// Get the starting register index.
    pub fn start(&self) -> (r: usize)
        ensures
            r == self.start,
    {
        self.start
    }

    /// Get the number of registers in the range.
    pub fn count(&self) -> (r: usize)
        ensures
            r == self.count,
    {
        self.count
    }

    /// Get the register at a specific offset within the range.
    pub fn get(&self, offset: usize) -> (r: Reg)
        requires
            offset < self.count,
            self.start + offset <= usize::MAX,
        ensures
            r.0 == self.start + offset,
    {
        Reg(self.start + offset)
    }

    /// Get the first register in the range.
    pub fn first(&self) -> (r: Reg)
        ensures
            r.0 == self.start,
    {
        Reg(self.start)
    }

    /// All registers of the range, in ascending order.
    pub fn iter(&self) -> (r: Vec<Reg>)
        requires
            self.start + self.count <= usize::MAX,
        ensures
            r@.len() == self.count,
            forall|i: int| 0 <= i < self.count ==> r@[i].0 == self.start + i,
    {
        let mut regs: Vec<Reg> = Vec::new();
        let mut i: usize = 0;
        while i < self.count
            invariant
                i <= self.count,
                self.start + self.count <= usize::MAX,
                regs@.len() == i,
                forall|j: int| 0 <= j < i ==> regs@[j].0 == self.start + j,
            decreases self.count - i,
        {
            regs.push(Reg(self.start + i));
            i = i + 1;
        }
        regs
    }

    /// Check if the range is empty.
    pub fn is_empty(&self) -> (r: bool)
        ensures
            r == (self.count == 0),
    {
        self.count == 0
    }
}

/// A typed reference to an allocated cursor.
#[derive(Debug, Clone, Copy, PartialEq, Eq, Hash, Structural)]
pub struct Cursor(pub usize);

impl Cursor {
    /// Get the underlying cursor ID.
    pub fn id(&self) -> (r: usize)
        ensures
            r == self.0,
    {
        self.0
    }
}

/// A typed reference to a label (jump target).
///
/// Labels support forward references: an instruction may name a label
/// before the label has been bound to a position.
#[derive(Debug, Clone, Copy, PartialEq, Eq, Hash, Structural)]
pub struct Label(pub u32);

impl Label {
    /// Get the underlying label number.
    pub fn number(&self) -> (r: u32)
        ensures
            r == self.0,
    {
        self.0
    }

    /// Convert to a branch offset for use in instructions.
    pub fn to_branch_offset(self) -> (r: BranchOffset)
        ensures
            r == BranchOffset::ToLabel(self),
    {
        BranchOffset::ToLabel(self)
    }
}

/// A jump destination as carried by an instruction: either a still
/// symbolic label or an already fixed instruction position.
#[derive(Debug, Clone, Copy, PartialEq, Eq, Structural)]
pub enum BranchOffset {
    /// A symbolic target, resolved through the label table.
    ToLabel(Label),
    /// A concrete instruction position.
    Fixed(usize),
}

/// A typed reference to a hash table.
#[derive(Debug, Clone, Copy, PartialEq, Eq, Hash, Structural)]
pub struct HashTableId(pub usize);

impl HashTableId {
    /// Get the underlying hash table ID.
    pub fn id(&self) -> (r: usize)
        ensures
            r == self.0,
    {
        self.0
    }
}

/// Instruction position in the instruction buffer.
#[derive(Debug, Clone, Copy, PartialEq, Eq, Structural)]
pub struct InsnPos(pub usize);

impl InsnPos {
    /// Get the underlying position.
    pub fn offset(&self) -> (r: usize)
        ensures
            r == self.0,
    {
        self.0
    }
}

/// The three labels that shape every loop emission.
///
/// `start` is bound to the first body instruction, `next` to the step
/// instruction, and `end` to the first instruction after the loop.
#[derive(Debug, Clone, Copy, PartialEq, Eq, Structural)]
pub struct LoopLabels {
    /// Jump target for returning to the top of the loop body.
    pub start: Label,
    /// Position of the step instruction.
    pub next: Label,
    /// Jump target for leaving the loop.
    pub end: Label,
}

/// Describes what kind of iteration resource a cursor refers to.
#[derive(Debug, Clone, PartialEq, Eq)]
pub enum CursorKind {
    /// A B-tree table cursor.
    BTreeTable {
        /// Root page of the table's B-tree.
        root_page: usize,
        /// Name of the table.
        table_name: String,
    },
    /// A B-tree index cursor.
    BTreeIndex {
        /// Root page of the index's B-tree.
        root_page: usize,
        /// Name of the index.
        index_name: String,
    },
    /// A pseudo cursor reading a single row from a register.
    Pseudo {
        /// Register holding the row content.
        content_reg: Reg,
        /// Number of columns in the row.
        num_columns: usize,
    },
    /// A sorter cursor.
    Sorter {
        /// Number of columns per sorter record.
        num_columns: usize,
    },
    /// An ephemeral table cursor.
    Ephemeral {
        /// Whether the ephemeral structure is a table (else an index).
        is_table: bool,
    },
    /// A virtual table cursor.
    VirtualTable {
        /// Name of the module implementing the virtual table.
        module_name: String,
    },
}

/// Resolution state of one label.
#[derive(Debug, Clone, PartialEq, Eq)]
pub enum LabelState {
    /// Allocated but not yet bound to a position.
    Unresolved,
    /// Bound to an instruction position.
    Resolved(InsnPos),
}

/// Table tracking every allocated label and its resolution state.
///
/// The view of a label table is a sequence with one entry per allocated
/// label: `None` while unresolved, `Some(pos)` once bound.
#[derive(Debug)]
pub struct LabelTable {
    labels: Vec<LabelState>,
}

impl View for LabelTable {
    type V = Seq<Option<usize>>;

    closed spec fn view(&self) -> Seq<Option<usize>> {
        self.labels@.map(
            |i: int, s: LabelState|
                match s {
                    LabelState::Unresolved => None,
                    LabelState::Resolved(p) => Some(p.0),
                },
        )
    }
}

/// How many entries of a label-state sequence are still unresolved.
pub open spec fn unresolved_in(s: Seq<Option<usize>>) -> nat
    decreases s.len(),
{
    if s.len() == 0 {
        0
    } else {
        unresolved_in(s.drop_last()) + if s.last() is None {
            1nat
        } else {
            0nat
        }
    }
}

/// An unresolved count of zero means every label is resolved, and the
/// other way round.
pub proof fn lemma_unresolved_in_zero(s: Seq<Option<usize>>)
    ensures
        unresolved_in(s) == 0 <==> (forall|i: int| 0 <= i < s.len() ==> s[i] is Some),
    decreases s.len(),
{
    if s.len() > 0 {
        lemma_unresolved_in_zero(s.drop_last());
        assert(forall|i: int| 0 <= i < s.len() - 1 ==> s.drop_last()[i] == s[i]);
        if unresolved_in(s) == 0 {
            assert forall|i: int| 0 <= i < s.len() implies s[i] is Some by {
                if i < s.len() - 1 {
                    assert(s.drop_last()[i] is Some);
                }
            }
        }
    }
}

impl LabelTable {
    /// Create a new empty label table.
    pub fn new() -> (r: LabelTable)
        ensures
            r@ == Seq::<Option<usize>>::empty(),
    {
        let r = LabelTable { labels: Vec::new() };
        proof {
            assert(r@ =~= Seq::<Option<usize>>::empty());
        }
        r
    }

    /// Allocate a new label, returning its reference.
    pub fn allocate(&mut self) -> (r: Label)
        requires
            old(self)@.len() < u32::MAX,
        ensures
            r.0 == old(self)@.len(),
            final(self)@ == old(self)@.push(None),
    {
        let label = Label(self.labels.len() as u32);
        self.labels.push(LabelState::Unresolved);
        proof {
            assert(self@ =~= old(self)@.push(None));
        }
        label
    }

    /// Resolve a label to an instruction position.
    ///
    /// Fails if the label was never allocated or was already resolved.
    pub fn resolve(&mut self, label: Label, pos: InsnPos) -> (r: Result<(), TranslateError>)
        ensures
            r is Ok <==> label.0 < old(self)@.len() && old(self)@[label.0 as int] is None,
            r is Ok ==> final(self)@ == old(self)@.update(label.0 as int, Some(pos.0)),
            r is Err ==> final(self)@ == old(self)@,
            (r matches Err(e) && e == TranslateError::UnknownLabel) <==> label.0 >= old(
                self,
            )@.len(),
            (r matches Err(e) && e == TranslateError::DuplicateLabelBinding) <==> (label.0 < old(
                self,
            )@.len() && old(self)@[label.0 as int] is Some),
    {
        let idx = label.0 as usize;
        if idx >= self.labels.len() {
            return Err(TranslateError::UnknownLabel);
        }
        match self.labels[idx] {
            LabelState::Resolved(_) => Err(TranslateError::DuplicateLabelBinding),
            LabelState::Unresolved => {
                self.labels.set(idx, LabelState::Resolved(pos));
                proof {
                    assert(self@ =~= old(self)@.update(label.0 as int, Some(pos.0)));
                }
                Ok(())
            },
        }
    }

    /// Get the resolved position for a label, if resolved.
    pub fn get_resolved(&self, label: Label) -> (r: Option<InsnPos>)
        ensures
            match r {
                Some(p) => label.0 < self@.len() && self@[label.0 as int] == Some(p.0),
                None => label.0 >= self@.len() || self@[label.0 as int] is None,
            },
    {
        let idx = label.0 as usize;
        if idx >= self.labels.len() {
            return None;
        }
        match self.labels[idx] {
            LabelState::Resolved(p) => Some(p),
            LabelState::Unresolved => None,
        }
    }

    /// How many labels have been allocated so far.
    pub fn len(&self) -> (r: usize)
        ensures
            r == self@.len(),
    {
        self.labels.len()
    }

    /// Check if all labels have been resolved.
    pub fn all_resolved(&self) -> (r: bool)
        ensures
            r <==> (forall|i: int| 0 <= i < self@.len() ==> self@[i] is Some),
    {
        let mut i: usize = 0;
        while i < self.labels.len()
            invariant
                i <= self@.len(),
                self@.len() == self.labels.len(),
                forall|j: int| 0 <= j < i ==> self@[j] is Some,
            decreases self@.len() - i,
        {
            match self.labels[i] {
                LabelState::Unresolved => {
                    assert(self@[i as int] is None);
                    return false;
                },
                LabelState::Resolved(_) => {
                    assert(self@[i as int] is Some);
                },
            }
            i = i + 1;
        }
        true
    }

    /// Get the count of unresolved labels.
    pub fn unresolved_count(&self) -> (r: usize)
        ensures
            r == unresolved_in(self@),
    {
        let mut i: usize = 0;
        let mut count: usize = 0;
        while i < self.labels.len()
            invariant
                i <= self@.len(),
                self@.len() == self.labels.len(),
                count == unresolved_in(self@.subrange(0, i as int)),
                count <= i,
            decreases self@.len() - i,
        {
            let unresolved = match self.labels[i] {
                LabelState::Unresolved => true,
                LabelState::Resolved(_) => false,
            };
            proof {
                assert(self@.subrange(0, i + 1).drop_last() =~= self@.subrange(0, i as int));
                assert(self@.subrange(0, i + 1).last() == self@[i as int]);
                assert(self@[i as int] is None <==> unresolved);
            }
            if unresolved {
                count = count + 1;
            }
            i = i + 1;
        }
        proof {
            assert(self@.subrange(0, self@.len() as int) =~= self@);
        }
        count
    }
}

/// Table tracking every allocated cursor and its metadata.
#[derive(Debug)]
pub struct CursorTable {
    cursors: Vec<Option<CursorKind>>,
}

impl View for CursorTable {
    type V = Seq<Option<CursorKind>>;

    closed spec fn view(&self) -> Seq<Option<CursorKind>> {
        self.cursors@
    }
}

impl CursorTable {
    /// Create a new empty cursor table.
    pub fn new() -> (r: CursorTable)
        ensures
            r@ == Seq::<Option<CursorKind>>::empty(),
    {
        let r = CursorTable { cursors: Vec::new() };
        proof {
            assert(r@ =~= Seq::<Option<CursorKind>>::empty());
        }
        r
    }

    /// Register a cursor with its metadata, growing the table as needed.
    pub fn register(&mut self, cursor: Cursor, kind: CursorKind)
        requires
            old(self)@.len() <= cursor.0,
            cursor.0 < usize::MAX,
        ensures
            final(self)@.len() == cursor.0 + 1,
            final(self)@[cursor.0 as int] == Some(kind),
            forall|i: int|
                0 <= i < old(self)@.len() ==> final(self)@[i] == old(self)@[i],
            forall|i: int|
                old(self)@.len() <= i < cursor.0 ==> final(self)@[i] is None,
    {
        while self.cursors.len() < cursor.0
            invariant
                old(self)@.len() <= self@.len() <= cursor.0,
                cursor.0 < usize::MAX,
                forall|i: int| 0 <= i < old(self)@.len() ==> self@[i] == old(self)@[i],
                forall|i: int| old(self)@.len() <= i < self@.len() ==> self@[i] is None,
            decreases cursor.0 - self.cursors.len(),
        {
            self.cursors.push(None);
        }
        self.cursors.push(Some(kind));
    }

    /// Get the metadata recorded for a cursor.
    pub fn get(&self, cursor: Cursor) -> (r: Option<&CursorKind>)
        ensures
            match r {
                Some(k) => cursor.0 < self@.len() && self@[cursor.0 as int] == Some(*k),
                None => cursor.0 >= self@.len() || self@[cursor.0 as int] is None,
            },
    {
        if cursor.0 >= self.cursors.len() {
            return None;
        }
        match &self.cursors[cursor.0] {
            Some(k) => Some(k),
            None => None,
        }
    }

    /// How many cursor slots the table holds.
    pub fn len(&self) -> (r: usize)
        ensures
            r == self@.len(),
    {
        self.cursors.len()
    }
}

} // verus!
