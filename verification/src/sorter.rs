//! The in-memory multi-key sorter behind ORDER BY, GROUP BY and
//! statistics collection.
//!
//! Records are buffered unsorted; one call to [`Sorter::sort`] orders
//! the buffer stably by the declared per-column ascending flags,
//! comparing text under the sorter's collation and everything else by
//! natural value order, stopping at the first non-equal column;
//! key-equal records keep their insertion order.  After sorting, the
//! buffer is reversed once so that [`Sorter::next`] can pop from the
//! end in constant time while producing records in the declared
//! order.

use vstd::prelude::*;
use vstd::multiset::Multiset;
use vstd::relations::sorted_by;
use vstd::seq_lib::lemma_multiset_commutative;

use crate::insn::CollationSeq;
use crate::value::{cmp_values, flip, value_cmp, Cmp, Value};

verus! {

/// One buffered record: a row of runtime values.
#[derive(Debug, PartialEq, Eq)]
pub struct Record {
    /// The record's values, in column order.
    pub values: Vec<Value>,
}

impl Record {
    /// The value at a column position.
    pub fn get_value(&self, idx: usize) -> (r: &Value)
        requires
            idx < self.values@.len(),
        ensures
            *r == self.values@[idx as int],
    {
        &self.values[idx]
    }
}

/// Multi-key three-way comparison of two records from key position `i`
/// on: compare column `i` under the collation, mirrored for a
/// descending column, and move to the next column on equality.
pub open spec fn rec_cmp_from(
    order: Seq<bool>,
    coll: CollationSeq,
    a: Seq<Value>,
    b: Seq<Value>,
    i: int,
) -> Cmp
    decreases order.len() - i,
{
    if i < 0 || i >= order.len() {
        Cmp::Equal
    } else {
        let c = value_cmp(coll, a[i], b[i]);
        let c2 = if order[i] {
            c
        } else {
            flip(c)
        };
        if c2 != Cmp::Equal {
            c2
        } else {
            rec_cmp_from(order, coll, a, b, i + 1)
        }
    }
}

/// Multi-key three-way comparison of two records.
pub open spec fn rec_cmp(order: Seq<bool>, coll: CollationSeq, a: Seq<Value>, b: Seq<Value>) -> Cmp {
    rec_cmp_from(order, coll, a, b, 0)
}

/// The sorter's order: the first record sorts no later than the second.
pub open spec fn record_le(order: Seq<bool>, coll: CollationSeq, a: Record, b: Record) -> bool {
    rec_cmp(order, coll, a.values@, b.values@) != Cmp::Greater
}

/// LAW — sorter order totality.  Any two records are comparable: one of
/// them sorts no later than the other, whatever the per-column flags
/// and the collation.
pub proof fn lemma_record_le_total(order: Seq<bool>, coll: CollationSeq, a: Record, b: Record)
    ensures
        record_le(order, coll, a, b) || record_le(order, coll, b, a),
{
    lemma_rec_cmp_flip(order, coll, a.values@, b.values@, 0);
}

/// Swapping the operands mirrors the record comparison.
pub proof fn lemma_rec_cmp_flip(
    order: Seq<bool>,
    coll: CollationSeq,
    a: Seq<Value>,
    b: Seq<Value>,
    i: int,
)
    ensures
        rec_cmp_from(order, coll, b, a, i) == flip(rec_cmp_from(order, coll, a, b, i)),
    decreases order.len() - i,
{
    if 0 <= i < order.len() {
        crate::value::lemma_value_cmp_flip(coll, a[i], b[i]);
        lemma_rec_cmp_flip(order, coll, a, b, i + 1);
    }
}

/// LAW — sorter order transitivity.  The sorter's order is transitive,
/// whatever the per-column flags and the collation.
pub proof fn lemma_record_le_trans(
    order: Seq<bool>,
    coll: CollationSeq,
    a: Record,
    b: Record,
    c: Record,
)
    requires
        record_le(order, coll, a, b),
        record_le(order, coll, b, c),
    ensures
        record_le(order, coll, a, c),
{
    lemma_rec_cmp_trans(order, coll, a.values@, b.values@, c.values@, 0);
}

/// The record comparison is transitive from any key position on.
proof fn lemma_rec_cmp_trans(
    order: Seq<bool>,
    coll: CollationSeq,
    a: Seq<Value>,
    b: Seq<Value>,
    c: Seq<Value>,
    i: int,
)
    requires
        rec_cmp_from(order, coll, a, b, i) != Cmp::Greater,
        rec_cmp_from(order, coll, b, c, i) != Cmp::Greater,
    ensures
        rec_cmp_from(order, coll, a, c, i) != Cmp::Greater,
    decreases order.len() - i,
{
    if 0 <= i < order.len() {
        let ab = value_cmp(coll, a[i], b[i]);
        let bc = value_cmp(coll, b[i], c[i]);
        let ac = value_cmp(coll, a[i], c[i]);
        crate::value::lemma_value_cmp_flip(coll, a[i], b[i]);
        crate::value::lemma_value_cmp_flip(coll, b[i], c[i]);
        crate::value::lemma_value_cmp_flip(coll, a[i], c[i]);
        if ab == Cmp::Equal {
            crate::value::lemma_value_cmp_eq_trans(coll, a[i], b[i], c[i]);
        }
        if bc == Cmp::Equal {
            crate::value::lemma_value_cmp_eq_trans(coll, b[i], c[i], a[i]);
        }
        if ab == Cmp::Equal && bc == Cmp::Equal {
            lemma_rec_cmp_trans(order, coll, a, b, c, i + 1);
        } else if order[i] {
            crate::value::lemma_value_cmp_trans(coll, a[i], b[i], c[i]);
            if ac == Cmp::Equal {
                crate::value::lemma_value_cmp_eq_trans(coll, a[i], c[i], b[i]);
            }
        } else {
            crate::value::lemma_value_cmp_trans(coll, c[i], b[i], a[i]);
            if ac == Cmp::Equal {
                crate::value::lemma_value_cmp_eq_trans(coll, a[i], c[i], b[i]);
            }
        }
    }
}

/// Compare two records three ways under the declared flags.
pub fn cmp_records(order: &Vec<bool>, coll: CollationSeq, a: &Record, b: &Record) -> (r: Cmp)
    requires
        a.values@.len() >= order@.len(),
        b.values@.len() >= order@.len(),
    ensures
        r == rec_cmp(order@, coll, a.values@, b.values@),
{
    let n = order.len();
    let mut i: usize = 0;
    while i < n
        invariant
            i <= n,
            n == order@.len(),
            a.values@.len() >= n,
            b.values@.len() >= n,
            rec_cmp(order@, coll, a.values@, b.values@) == rec_cmp_from(
                order@,
                coll,
                a.values@,
                b.values@,
                i as int,
            ),
        decreases n - i,
    {
        let c = cmp_values(coll, a.get_value(i), b.get_value(i));
        let c2 = if order[i] {
            c
        } else {
            match c {
                Cmp::Less => Cmp::Greater,
                Cmp::Equal => Cmp::Equal,
                Cmp::Greater => Cmp::Less,
            }
        };
        if !matches!(c2, Cmp::Equal) {
            return c2;
        }
        i = i + 1;
    }
    Cmp::Equal
}

/// The position at which a stable insertion places a record: just
/// before the first already-placed record that sorts strictly after
/// it, and therefore after every record that sorts no later — in
/// particular after every key-equal record placed earlier.
pub open spec fn stable_ins_pos(
    order: Seq<bool>,
    coll: CollationSeq,
    s: Seq<Record>,
    x: Record,
) -> int
    decreases s.len(),
{
    if s.len() == 0 {
        0
    } else if rec_cmp(order, coll, s[0].values@, x.values@) == Cmp::Greater {
        0
    } else {
        1 + stable_ins_pos(order, coll, s.drop_first(), x)
    }
}

/// Insert a record at its stable position.
pub open spec fn stable_insert(
    order: Seq<bool>,
    coll: CollationSeq,
    s: Seq<Record>,
    x: Record,
) -> Seq<Record> {
    s.insert(stable_ins_pos(order, coll, s, x), x)
}

/// The stable sort of a record sequence: every record inserted at its
/// stable position, in buffer order.  Because each record lands after
/// every key-equal record buffered before it, key-equal records keep
/// their relative insertion order.
pub open spec fn stable_sorted(
    order: Seq<bool>,
    coll: CollationSeq,
    input: Seq<Record>,
) -> Seq<Record>
    decreases input.len(),
{
    if input.len() == 0 {
        Seq::<Record>::empty()
    } else {
        stable_insert(order, coll, stable_sorted(order, coll, input.drop_last()), input.last())
    }
}

/// The stable position is the first whose record sorts strictly after
/// the inserted one.
proof fn lemma_stable_ins_pos(
    order: Seq<bool>,
    coll: CollationSeq,
    s: Seq<Record>,
    x: Record,
    k: int,
)
    requires
        0 <= k <= s.len(),
        forall|j: int|
            0 <= j < k ==> rec_cmp(order, coll, (#[trigger] s[j]).values@, x.values@)
                != Cmp::Greater,
        k < s.len() ==> rec_cmp(order, coll, s[k].values@, x.values@) == Cmp::Greater,
    ensures
        stable_ins_pos(order, coll, s, x) == k,
    decreases k,
{
    if k > 0 {
        let rest = s.drop_first();
        assert(forall|j: int| 0 <= j < rest.len() ==> rest[j] == s[j + 1]);
        lemma_stable_ins_pos(order, coll, rest, x, k - 1);
    }
}

/// LAW — sorter stability.  A stable insertion places the new record
/// after every already-placed record that does not sort strictly after
/// it; since key-equal records never sort strictly after one another,
/// key-equal records keep their relative insertion order.
pub proof fn lemma_stable_insert_after_equals(
    order: Seq<bool>,
    coll: CollationSeq,
    s: Seq<Record>,
    x: Record,
)
    ensures
        0 <= stable_ins_pos(order, coll, s, x) <= s.len(),
        forall|j: int|
            0 <= j < stable_ins_pos(order, coll, s, x) ==> rec_cmp(
                order,
                coll,
                (#[trigger] s[j]).values@,
                x.values@,
            ) != Cmp::Greater,
    decreases s.len(),
{
    if s.len() > 0 && rec_cmp(order, coll, s[0].values@, x.values@) != Cmp::Greater {
        let rest = s.drop_first();
        assert(forall|j: int| 0 <= j < rest.len() ==> rest[j] == s[j + 1]);
        lemma_stable_insert_after_equals(order, coll, rest, x);
        assert forall|j: int|
            0 <= j < stable_ins_pos(order, coll, s, x) implies rec_cmp(
            order,
            coll,
            (#[trigger] s[j]).values@,
            x.values@,
        ) != Cmp::Greater by {
            if j > 0 {
                assert(rec_cmp(order, coll, rest[j - 1].values@, x.values@) != Cmp::Greater);
            }
        }
    }
}

/// The in-memory multi-key sorter.
#[derive(Debug)]
pub struct Sorter {
    /// The buffered records; unsorted until [`Sorter::sort`], in
    /// reversed sorted order afterwards.
    pub records: Vec<Record>,
    /// The record produced by the latest [`Sorter::next`].
    pub current: Option<Record>,
    /// The per-column ascending flags of the declared key.
    pub order: Vec<bool>,
    /// The collation for text comparison.
    pub collation: CollationSeq,
}

impl Sorter {
    /// Create an empty sorter for the declared key.
    pub fn new(order: Vec<bool>, collation: CollationSeq) -> (r: Sorter)
        ensures
            r.records@ == Seq::<Record>::empty(),
            r.current is None,
            r.order@ == order@,
            r.collation == collation,
    {
        let r = Sorter { records: Vec::new(), current: None, order, collation };
        proof {
            assert(r.records@ =~= Seq::<Record>::empty());
        }
        r
    }

    /// Whether the buffer is empty.
    pub fn is_empty(&self) -> (r: bool)
        ensures
            r == (self.records@.len() == 0),
    {
        self.records.len() == 0
    }

    /// Whether the latest step produced a record.
    pub fn has_more(&self) -> (r: bool)
        ensures
            r == (self.current is Some),
    {
        self.current.is_some()
    }

    /// Buffer one record; no ordering is maintained incrementally.
    pub fn insert(&mut self, record: Record)
        requires
            old(self).records@.len() < usize::MAX,
        ensures
            final(self).records@ == old(self).records@.push(record),
            final(self).current == old(self).current,
            final(self).order@ == old(self).order@,
            final(self).collation == old(self).collation,
    {
        self.records.push(record);
    }

    /// The record produced by the latest step, if any.
    pub fn record(&self) -> (r: Option<&Record>)
        ensures
            match r {
                Some(rec) => self.current matches Some(c) && c == *rec,
                None => self.current is None,
            },
    {
        self.current.as_ref()
    }

    /// Step to the next record in the declared order.
    pub fn next(&mut self)
        ensures
            old(self).records@.len() == 0 ==> final(self).current is None,
            old(self).records@.len() > 0 ==> final(self).current == Some(
                old(self).records@.last(),
            ),
            final(self).records@ == if old(self).records@.len() == 0 {
                old(self).records@
            } else {
                old(self).records@.drop_last()
            },
            final(self).order@ == old(self).order@,
            final(self).collation == old(self).collation,
    {
        self.current = self.records.pop();
    }

    /// Sort the buffer stably by the declared key and position on the
    /// first record: after this call, the current record followed by
    /// the remaining buffer read backwards is exactly the stable sort
    /// of the buffered records — non-decreasing in the declared key
    /// (so non-increasing on each descending column), key-equal
    /// records in their insertion order — and nothing was added or
    /// lost.
    pub fn sort(&mut self)
        requires
            forall|j: int|
                0 <= j < old(self).records@.len() ==> (#[trigger] old(
                    self,
                ).records@[j]).values@.len() >= old(self).order@.len(),
        ensures
            final(self).order@ == old(self).order@,
            final(self).collation == old(self).collation,
            produced(*final(self)) == stable_sorted(
                old(self).order@,
                old(self).collation,
                old(self).records@,
            ),
            sorted_by(
                produced(*final(self)),
                |x: Record, y: Record| record_le(old(self).order@, old(self).collation, x, y),
            ),
            produced(*final(self)).to_multiset() == old(self).records@.to_multiset(),
            produced(*final(self)).len() == old(self).records@.len(),
    {
        broadcast use vstd::seq_lib::group_seq_properties;

        let ghost leq = |x: Record, y: Record| record_le(
            old(self).order@,
            old(self).collation,
            x,
            y,
        );
        let ghost orig = self.records@;
        // Order the buffer by repeated insertion into a fresh vector.
        let mut out: Vec<Record> = Vec::new();
        proof {
            assert(out@.to_multiset() =~= Multiset::<Record>::empty());
            assert(self.records@.to_multiset().add(out@.to_multiset()) =~= orig.to_multiset());
        }
        while self.records.len() > 0
            invariant
                forall|j: int|
                    0 <= j < self.records@.len() ==> (#[trigger] self.records@[j]).values@.len()
                        >= self.order@.len(),
                forall|j: int|
                    0 <= j < out@.len() ==> (#[trigger] out@[j]).values@.len()
                        >= self.order@.len(),
                self.order@ == old(self).order@,
                self.collation == old(self).collation,
                self.current == old(self).current,
                sorted_by(out@, leq),
                leq == |x: Record, y: Record| record_le(
                    old(self).order@,
                    old(self).collation,
                    x,
                    y,
                ),
                self.records@.to_multiset().add(out@.to_multiset()) == orig.to_multiset(),
                self.records@.len() + out@.len() == orig.len(),
                self.records@ == orig.subrange(
                    orig.len() - self.records@.len(),
                    orig.len() as int,
                ),
                out@ == stable_sorted(
                    old(self).order@,
                    old(self).collation,
                    orig.subrange(0, orig.len() - self.records@.len()),
                ),
            decreases self.records@.len(),
        {
            let ghost rec_pre = self.records@;
            let ghost processed = orig.len() - rec_pre.len();
            let x = self.records.remove(0);
            proof {
                assert(x == orig[processed as int]);
                assert(self.records@ =~= orig.subrange(
                    orig.len() - self.records@.len(),
                    orig.len() as int,
                ));
                rec_pre.to_multiset_ensures();
                assert(rec_pre.remove(0).to_multiset() =~= rec_pre.to_multiset().remove(
                    rec_pre[0],
                ));
                assert(rec_pre.contains(rec_pre[0]));
                assert(rec_pre.to_multiset().count(rec_pre[0]) > 0);
            }
            // Find the first position whose record sorts after `x`.
            let n_out = out.len();
            let mut k: usize = 0;
            let mut found = false;
            while k < n_out && !found
                invariant
                    k <= n_out,
                    n_out == out@.len(),
                    x.values@.len() >= self.order@.len(),
                    forall|j: int|
                        0 <= j < out@.len() ==> (#[trigger] out@[j]).values@.len()
                            >= self.order@.len(),
                    self.order@ == old(self).order@,
                    self.collation == old(self).collation,
                    forall|j: int| 0 <= j < k ==> leq(#[trigger] out@[j], x),
                    found ==> k < n_out && leq(x, out@[k as int]) && rec_cmp(
                        old(self).order@,
                        old(self).collation,
                        out@[k as int].values@,
                        x.values@,
                    ) == Cmp::Greater,
                    leq == |x: Record, y: Record| record_le(
                        old(self).order@,
                        old(self).collation,
                        x,
                        y,
                    ),
                decreases n_out - k, (if found { 0int } else { 1int }),
            {
                let c = cmp_records(&self.order, self.collation, &out[k], &x);
                if matches!(c, Cmp::Greater) {
                    proof {
                        lemma_rec_cmp_flip(
                            old(self).order@,
                            old(self).collation,
                            out@[k as int].values@,
                            x.values@,
                            0,
                        );
                        assert(leq(x, out@[k as int]));
                    }
                    found = true;
                } else {
                    proof {
                        assert(leq(out@[k as int], x));
                    }
                    k = k + 1;
                }
            }
            let ghost out_pre = out@;
            proof {
                assert(forall|j: int| 0 <= j < k ==> leq(#[trigger] out_pre[j], x));
                if k < out_pre.len() {
                    assert(leq(x, out_pre[k as int]));
                }
            }
            out.insert(k, x);
            proof {
                assert forall|p: Record, q: Record, w: Record|
                    #[trigger] leq(p, q) && #[trigger] leq(q, w) implies leq(p, w) by {
                    lemma_record_le_trans(old(self).order@, old(self).collation, p, q, w);
                }
                lemma_insert_keeps_sorted(out_pre, k as int, x, leq);
                lemma_insert_multiset(out_pre, k as int, x);
                assert(self.records@.to_multiset().add(out@.to_multiset())
                    =~= orig.to_multiset());
                lemma_stable_ins_pos(old(self).order@, old(self).collation, out_pre, x, k as int);
                assert(out@ == stable_insert(old(self).order@, old(self).collation, out_pre, x));
                assert(orig.subrange(0, processed as int + 1).drop_last() =~= orig.subrange(
                    0,
                    processed as int,
                ));
                assert(orig.subrange(0, processed as int + 1).last() == x);
                assert(out@ == stable_sorted(
                    old(self).order@,
                    old(self).collation,
                    orig.subrange(0, processed as int + 1),
                ));
            }
        }
        // Reverse once so that stepping pops the least record first.
        let mut rev: Vec<Record> = Vec::new();
        let ghost sorted_out = out@;
        proof {
            assert(rev@ =~= Seq::<Record>::empty());
            assert(sorted_out.skip(0) =~= sorted_out);
        }
        while out.len() > 0
            invariant
                out@ == sorted_out.subrange(0, out@.len() as int),
                rev@.len() == sorted_out.len() - out@.len(),
                forall|j: int|
                    0 <= j < rev@.len() ==> rev@[j] == sorted_out[sorted_out.len() - 1 - j],
            decreases out@.len(),
        {
            let ghost out_pre = out@;
            let x = match out.pop() {
                Some(x) => x,
                None => {
                    proof {
                        assert(false);
                    }
                    return ;
                },
            };
            proof {
                assert(out_pre[out_pre.len() - 1] == sorted_out[out_pre.len() - 1]);
                assert(out@ =~= sorted_out.subrange(0, out@.len() as int));
            }
            rev.push(x);
        }
        proof {
            assert(rev@ =~= sorted_out.reverse());
        }
        self.records = rev;
        // Position on the first record in the declared order.
        let ghost before_next = *self;
        self.next();
        proof {
            assert(produced(*self) =~= sorted_out);
            sorted_out.lemma_reverse_to_multiset();
        }
    }
}

/// The records a sorter will still produce, in production order: the
/// current record followed by the buffer read backwards.
pub open spec fn produced(s: Sorter) -> Seq<Record> {
    match s.current {
        Some(c) => seq![c] + s.records@.reverse(),
        None => s.records@.reverse(),
    }
}

/// Inserting at the found position keeps the vector sorted.
proof fn lemma_insert_keeps_sorted(
    s: Seq<Record>,
    k: int,
    x: Record,
    leq: spec_fn(Record, Record) -> bool,
)
    requires
        0 <= k <= s.len(),
        sorted_by(s, leq),
        forall|j: int| 0 <= j < k ==> leq(#[trigger] s[j], x),
        k < s.len() ==> leq(x, s[k]),
        forall|p: Record, q: Record, w: Record|
            #[trigger] leq(p, q) && #[trigger] leq(q, w) ==> leq(p, w),
    ensures
        sorted_by(s.insert(k, x), leq),
{
    let t = s.insert(k, x);
    assert forall|i: int, j: int| 0 <= i < j < t.len() implies leq(t[i], t[j]) by {
        if i < k && j < k {
            assert(t[i] == s[i] && t[j] == s[j]);
        } else if i < k && j == k {
            assert(t[i] == s[i] && t[j] == x);
        } else if i < k && j > k {
            assert(t[i] == s[i] && t[j] == s[j - 1]);
        } else if i == k && j > k {
            assert(t[i] == x && t[j] == s[j - 1]);
            assert(leq(x, s[k]));
            if j - 1 > k {
                assert(leq(s[k], s[j - 1]));
            }
        } else {
            assert(t[i] == s[i - 1] && t[j] == s[j - 1]);
        }
    }
}

/// Inserting adds exactly one occurrence to the multiset.
proof fn lemma_insert_multiset(s: Seq<Record>, k: int, x: Record)
    requires
        0 <= k <= s.len(),
    ensures
        s.insert(k, x).to_multiset() == s.to_multiset().insert(x),
{
    let left = s.subrange(0, k);
    let right = s.subrange(k, s.len() as int);
    assert(s.insert(k, x) =~= left + (seq![x] + right));
    assert(s =~= left + right);
    lemma_multiset_commutative(left, seq![x] + right);
    lemma_multiset_commutative(seq![x], right);
    lemma_multiset_commutative(left, right);
    assert(seq![x].to_multiset() =~= Multiset::<Record>::empty().insert(x)) by {
        seq![x].to_multiset_ensures();
        assert(seq![x] =~= Seq::<Record>::empty().push(x));
        Seq::<Record>::empty().to_multiset_ensures();
    }
    assert(s.insert(k, x).to_multiset() =~= s.to_multiset().insert(x));
}

} // verus!
