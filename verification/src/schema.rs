//! A read-only model of the schema catalog the compiler consults:
//! tables, their indexes, and case-insensitive name lookup.

use vstd::prelude::*;

use crate::insn::CollationSeq;
use crate::text::{eq_ignore_case, is_prefix, nocase_seq_eq, starts_with_str};

verus! {

/// The catalog table that stores the schema rows.
pub open spec fn catalog_table_name() -> Seq<char> {
    "sqlite_schema"@
}

/// The name prefix reserved for system tables.
pub open spec fn reserved_prefix() -> Seq<char> {
    "sqlite_"@
}

/// One column of a table.
#[derive(Debug, Clone, PartialEq, Eq)]
pub struct ColumnInfo {
    /// Declared column name.
    pub name: String,
    /// Declared collation, if any.
    pub collation: Option<CollationSeq>,
}

/// A table backed by a B-tree.
#[derive(Debug, PartialEq, Eq)]
pub struct BTreeTable {
    /// Table name.
    pub name: String,
    /// Root page of the table's B-tree.
    pub root_page: usize,
    /// Whether the rows carry an integer row identifier.
    pub has_rowid: bool,
    /// Declared columns, in order.
    pub columns: Vec<ColumnInfo>,
}

/// How a virtual table is used.
#[derive(Debug, Clone, Copy, PartialEq, Eq, Structural)]
pub enum VTabKind {
    /// An ordinary virtual table.
    VirtualTable,
    /// A table-valued function; such a table cannot be altered.
    TableValuedFunction,
}

/// A table implemented by a virtual-table module.
#[derive(Debug, PartialEq, Eq)]
pub struct VirtualTable {
    /// Table name.
    pub name: String,
    /// Name of the implementing module.
    pub module_name: String,
    /// How the virtual table is used.
    pub kind: VTabKind,
}

/// A table of the schema: either a B-tree table or a virtual table.
#[derive(Debug, PartialEq, Eq)]
pub enum Table {
    /// A table backed by a B-tree.
    BTree(BTreeTable),
    /// A table implemented by a virtual-table module.
    Virtual(VirtualTable),
}

/// The name of a table, whichever kind it is.
pub open spec fn table_name(t: Table) -> Seq<char> {
    match t {
        Table::BTree(bt) => bt.name@,
        Table::Virtual(vt) => vt.name@,
    }
}

impl Table {
    /// The table's name.
    pub fn name(&self) -> (r: &String)
        ensures
            r@ == table_name(*self),
    {
        match self {
            Table::BTree(bt) => &bt.name,
            Table::Virtual(vt) => &vt.name,
        }
    }
}

/// One column of an index key.
#[derive(Debug, Clone, PartialEq, Eq)]
pub struct IndexColumn {
    /// Name of the indexed table column.
    pub name: String,
    /// Position of the column in the table.
    pub pos_in_table: usize,
    /// Declared collation for this key column, if any.
    pub collation: Option<CollationSeq>,
    /// Whether the key column sorts descending.
    pub descending: bool,
}

/// An index over a table.
#[derive(Debug, PartialEq, Eq)]
pub struct Index {
    /// Index name.
    pub name: String,
    /// Name of the indexed table.
    pub table_name: String,
    /// Root page of the index's B-tree.
    pub root_page: usize,
    /// The key columns, in key order.
    pub columns: Vec<IndexColumn>,
    /// Whether the index uses a custom index method; statistics
    /// collection skips such indexes.
    pub has_custom_method: bool,
}

/// The schema catalog: tables, indexes, and the schema version counter.
#[derive(Debug)]
pub struct Schema {
    /// All tables.
    pub tables: Vec<Table>,
    /// All indexes, each naming its table.
    pub indexes: Vec<Index>,
    /// The schema version counter.
    pub schema_version: usize,
}

/// Whether the schema holds a table whose name matches
/// case-insensitively.
pub open spec fn has_table_nocase(s: Schema, name: Seq<char>) -> bool {
    exists|i: int|
        0 <= i < s.tables@.len() && nocase_seq_eq(table_name(#[trigger] s.tables@[i]), name)
}

/// Whether the schema holds a B-tree table whose name matches
/// case-insensitively.
pub open spec fn has_btree_table_nocase(s: Schema, name: Seq<char>) -> bool {
    exists|i: int|
        0 <= i < s.tables@.len() && ((#[trigger] s.tables@[i]) matches Table::BTree(bt)
            && nocase_seq_eq(bt.name@, name))
}

/// Whether the schema holds an index whose name matches
/// case-insensitively.
pub open spec fn has_index_nocase(s: Schema, name: Seq<char>) -> bool {
    exists|i: int|
        0 <= i < s.indexes@.len() && nocase_seq_eq((#[trigger] s.indexes@[i]).name@, name)
}

impl Schema {
    /// An empty schema.
    pub fn new() -> (r: Schema)
        ensures
            r.tables@ == Seq::<Table>::empty(),
            r.indexes@ == Seq::<Index>::empty(),
            r.schema_version == 0,
    {
        let r = Schema { tables: Vec::new(), indexes: Vec::new(), schema_version: 0 };
        proof {
            assert(r.tables@ =~= Seq::<Table>::empty());
            assert(r.indexes@ =~= Seq::<Index>::empty());
        }
        r
    }

    /// Look a table up by name, case-insensitively.
    pub fn get_table(&self, name: &str) -> (r: Option<&Table>)
        ensures
            match r {
                Some(t) => has_table_nocase(*self, name@) && nocase_seq_eq(
                    table_name(*t),
                    name@,
                ) && (exists|i: int| 0 <= i < self.tables@.len() && self.tables@[i] == *t),
                None => !has_table_nocase(*self, name@),
            },
    {
        let n = self.tables.len();
        let mut i: usize = 0;
        while i < n
            invariant
                i <= n,
                n == self.tables@.len(),
                forall|j: int|
                    0 <= j < i ==> !nocase_seq_eq(table_name(#[trigger] self.tables@[j]), name@),
            decreases n - i,
        {
            let t = &self.tables[i];
            if eq_ignore_case(t.name().as_str(), name) {
                return Some(t);
            }
            i = i + 1;
        }
        None
    }

    /// Look a B-tree table up by name, case-insensitively.
    pub fn get_btree_table(&self, name: &str) -> (r: Option<&BTreeTable>)
        ensures
            match r {
                Some(bt) => has_btree_table_nocase(*self, name@) && nocase_seq_eq(
                    bt.name@,
                    name@,
                ) && (exists|i: int|
                    0 <= i < self.tables@.len() && self.tables@[i] == Table::BTree(*bt)),
                None => !has_btree_table_nocase(*self, name@),
            },
    {
        let n = self.tables.len();
        let mut i: usize = 0;
        while i < n
            invariant
                i <= n,
                n == self.tables@.len(),
                forall|j: int|
                    0 <= j < i ==> !((#[trigger] self.tables@[j]) matches Table::BTree(bt)
                        && nocase_seq_eq(bt.name@, name@)),
            decreases n - i,
        {
            match &self.tables[i] {
                Table::BTree(bt) => {
                    if eq_ignore_case(bt.name.as_str(), name) {
                        return Some(bt);
                    }
                },
                Table::Virtual(_) => {},
            }
            i = i + 1;
        }
        None
    }

    /// Find a B-tree table by name, case-insensitively, returning its
    /// position among the tables.
    pub fn find_btree_table(&self, name: &str) -> (r: Option<usize>)
        ensures
            match r {
                Some(i) => i < self.tables@.len() && (self.tables@[i as int] matches Table::BTree(
                    bt,
                ) && nocase_seq_eq(bt.name@, name@)),
                None => !has_btree_table_nocase(*self, name@),
            },
    {
        let n = self.tables.len();
        let mut i: usize = 0;
        while i < n
            invariant
                i <= n,
                n == self.tables@.len(),
                forall|j: int|
                    0 <= j < i ==> !((#[trigger] self.tables@[j]) matches Table::BTree(bt)
                        && nocase_seq_eq(bt.name@, name@)),
            decreases n - i,
        {
            match &self.tables[i] {
                Table::BTree(bt) => {
                    if eq_ignore_case(bt.name.as_str(), name) {
                        return Some(i);
                    }
                },
                Table::Virtual(_) => {},
            }
            i = i + 1;
        }
        None
    }

    /// Whether any index carries the given name, case-insensitively.
    pub fn has_index_named(&self, name: &str) -> (r: bool)
        ensures
            r == has_index_nocase(*self, name@),
    {
        let n = self.indexes.len();
        let mut i: usize = 0;
        while i < n
            invariant
                i <= n,
                n == self.indexes@.len(),
                forall|j: int|
                    0 <= j < i ==> !nocase_seq_eq((#[trigger] self.indexes@[j]).name@, name@),
            decreases n - i,
        {
            if eq_ignore_case(self.indexes[i].name.as_str(), name) {
                return true;
            }
            i = i + 1;
        }
        false
    }

    /// Find an index by name, case-insensitively, returning its position.
    pub fn find_index(&self, name: &str) -> (r: Option<usize>)
        ensures
            match r {
                Some(i) => i < self.indexes@.len() && nocase_seq_eq(
                    self.indexes@[i as int].name@,
                    name@,
                ),
                None => !has_index_nocase(*self, name@),
            },
    {
        let n = self.indexes.len();
        let mut i: usize = 0;
        while i < n
            invariant
                i <= n,
                n == self.indexes@.len(),
                forall|j: int|
                    0 <= j < i ==> !nocase_seq_eq((#[trigger] self.indexes@[j]).name@, name@),
            decreases n - i,
        {
            if eq_ignore_case(self.indexes[i].name.as_str(), name) {
                return Some(i);
            }
            i = i + 1;
        }
        None
    }

    /// The positions of every index on the named table, matched
    /// case-insensitively, in catalog order.
    pub fn get_indices(&self, table: &str) -> (r: Vec<usize>)
        ensures
            forall|j: int|
                0 <= j < r@.len() ==> (#[trigger] r@[j]) < self.indexes@.len() && nocase_seq_eq(
                    self.indexes@[r@[j] as int].table_name@,
                    table@,
                ),
            forall|i: int|
                0 <= i < self.indexes@.len() && nocase_seq_eq(
                    (#[trigger] self.indexes@[i]).table_name@,
                    table@,
                ) ==> r@.contains(i as usize),
            forall|j1: int, j2: int| 0 <= j1 < j2 < r@.len() ==> r@[j1] < r@[j2],
    {
        let n = self.indexes.len();
        let mut r: Vec<usize> = Vec::new();
        let mut i: usize = 0;
        while i < n
            invariant
                i <= n,
                n == self.indexes@.len(),
                forall|j: int|
                    0 <= j < r@.len() ==> (#[trigger] r@[j]) < i && nocase_seq_eq(
                        self.indexes@[r@[j] as int].table_name@,
                        table@,
                    ),
                forall|k: int|
                    0 <= k < i && nocase_seq_eq(
                        (#[trigger] self.indexes@[k]).table_name@,
                        table@,
                    ) ==> r@.contains(k as usize),
                forall|j1: int, j2: int| 0 <= j1 < j2 < r@.len() ==> r@[j1] < r@[j2],
            decreases n - i,
        {
            if eq_ignore_case(self.indexes[i].table_name.as_str(), table) {
                let ghost r0 = r@;
                r.push(i);
                proof {
                    assert forall|k: int|
                        0 <= k < i + 1 && nocase_seq_eq(
                            (#[trigger] self.indexes@[k]).table_name@,
                            table@,
                        ) implies r@.contains(k as usize) by {
                        if k < i {
                            assert(r0.contains(k as usize));
                            let w = choose|w: int| 0 <= w < r0.len() && r0[w] == k as usize;
                            assert(r@[w] == k as usize);
                        } else {
                            assert(r@[r@.len() - 1] == k as usize);
                        }
                    }
                }
            }
            i = i + 1;
        }
        r
    }
}

/// The names of a column list, in order.
pub open spec fn column_names(cols: Seq<ColumnInfo>) -> Seq<Seq<char>> {
    cols.map(|i: int, c: ColumnInfo| c.name@)
}

/// Whether a table name carries the reserved system prefix.
pub fn is_reserved_table_name(name: &str) -> (r: bool)
    ensures
        r == is_prefix(reserved_prefix(), name@),
{
    starts_with_str(name, "sqlite_")
}

} // verus!
