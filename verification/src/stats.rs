//! The pure model of statistics collection: the distinct-prefix
//! accumulator driven by the change indices of an index scan, and the
//! stat strings it renders.
//!
//! [`crate::analyze`] emits the bytecode that drives this computation
//! row by row at run time; this module states what that computation
//! produces, so that its delete-then-reinsert semantics can be tested
//! and its idempotence proved.

use vstd::prelude::*;

use crate::insn::CollationSeq;
use crate::text::nocase_seq_eq;
use crate::value::{value_eq, values_eq, Value};

verus! {

/// The decimal digit character of one digit value.
pub open spec fn digit_char(d: int) -> char {
    if d == 0 {
        '0'
    } else if d == 1 {
        '1'
    } else if d == 2 {
        '2'
    } else if d == 3 {
        '3'
    } else if d == 4 {
        '4'
    } else if d == 5 {
        '5'
    } else if d == 6 {
        '6'
    } else if d == 7 {
        '7'
    } else if d == 8 {
        '8'
    } else {
        '9'
    }
}

/// The decimal rendering of a number, most significant digit first.
pub open spec fn dec_digits(n: nat) -> Seq<char>
    decreases n,
{
    if n < 10 {
        seq![digit_char(n as int)]
    } else {
        dec_digits(n / 10).push(digit_char((n % 10) as int))
    }
}

/// The digit characters of a digit sequence.
pub open spec fn digits_to_chars(s: Seq<u8>) -> Seq<char> {
    s.map(|i: int, d: u8| digit_char(d as int))
}

/// One digit as a string slice.
fn digit_str(d: u8) -> (r: &'static str)
    requires
        d < 10,
    ensures
        r@ == seq![digit_char(d as int)],
{
    proof {
        reveal_strlit("0");
        reveal_strlit("1");
        reveal_strlit("2");
        reveal_strlit("3");
        reveal_strlit("4");
        reveal_strlit("5");
        reveal_strlit("6");
        reveal_strlit("7");
        reveal_strlit("8");
        reveal_strlit("9");
    }
    let r = match d {
        0 => "0",
        1 => "1",
        2 => "2",
        3 => "3",
        4 => "4",
        5 => "5",
        6 => "6",
        7 => "7",
        8 => "8",
        _ => "9",
    };
    proof {
        assert(r@ =~= seq![digit_char(d as int)]);
    }
    r
}

/// Append the decimal rendering of a number to a string.
pub fn push_decimal(s: &mut String, n: u64)
    ensures
        final(s)@ == old(s)@ + dec_digits(n as nat),
{
    let mut digits: Vec<u8> = Vec::new();
    let mut m = n;
    loop
        invariant_except_break
            digits@.len() > 0 ==> dec_digits(n as nat) == dec_digits(m as nat)
                + digits_to_chars(digits@.reverse()),
            digits@.len() == 0 ==> m == n,
            forall|i: int| 0 <= i < digits@.len() ==> (#[trigger] digits@[i]) < 10,
            digits@.len() > 0 ==> m > 0 || dec_digits(n as nat) == digits_to_chars(
                digits@.reverse(),
            ),
        ensures
            forall|i: int| 0 <= i < digits@.len() ==> (#[trigger] digits@[i]) < 10,
            dec_digits(n as nat) == digits_to_chars(digits@.reverse()),
        decreases m,
    {
        let ghost d0 = digits@;
        let d = (m % 10) as u8;
        digits.push(d);
        proof {
            assert(digits@.reverse() =~= seq![d].add(d0.reverse()));
            if m >= 10 {
                assert(dec_digits((m / 10) as nat).push(digit_char((m % 10) as int))
                    == dec_digits(m as nat));
                assert(dec_digits((m / 10) as nat) + digits_to_chars(digits@.reverse())
                    =~= dec_digits(m as nat) + digits_to_chars(d0.reverse()));
            } else {
                assert(dec_digits(m as nat) + digits_to_chars(d0.reverse())
                    =~= digits_to_chars(digits@.reverse()));
            }
        }
        if m < 10 {
            break ;
        }
        m = m / 10;
    }
    let mut i: usize = 0;
    let n_digits = digits.len();
    let ghost rendered = dec_digits(n as nat);
    while i < n_digits
        invariant
            i <= n_digits,
            n_digits == digits@.len(),
            forall|j: int| 0 <= j < digits@.len() ==> (#[trigger] digits@[j]) < 10,
            rendered == digits_to_chars(digits@.reverse()),
            s@ == old(s)@ + rendered.subrange(0, i as int),
        decreases n_digits - i,
    {
        let d = digits[n_digits - 1 - i];
        s.append(digit_str(d));
        proof {
            assert(rendered[i as int] == digit_char(digits@[digits@.len() - 1 - i] as int));
            assert(s@ =~= old(s)@ + rendered.subrange(0, i + 1));
        }
        i = i + 1;
    }
    proof {
        assert(rendered.subrange(0, rendered.len() as int) =~= rendered);
    }
}

/// The rounded-up quotient.
pub open spec fn spec_ceil_div(t: nat, d: nat) -> nat
    recommends
        d > 0,
{
    ((t + d - 1) / (d as int)) as nat
}

/// Divide, rounding up.
pub fn ceil_div(t: u64, d: u64) -> (r: u64)
    requires
        d > 0,
    ensures
        r == spec_ceil_div(t as nat, d as nat),
{
    let q = t / d;
    let rem = t % d;
    if rem == 0 {
        proof {
            assert((t + d - 1) / (d as int) == (t as int) / (d as int)) by (nonlinear_arith)
                requires
                    d > 0,
                    t % d == 0,
            ;
        }
        q
    } else {
        proof {
            assert((t + d - 1) / (d as int) == (t as int) / (d as int) + 1) by (nonlinear_arith)
                requires
                    d > 0,
                    t % d != 0,
            ;
            assert(t / d < u64::MAX) by (nonlinear_arith)
                requires
                    d > 0,
                    t % d != 0,
                    t <= u64::MAX,
            ;
        }
        q + 1
    }
}

/// The change index of one row against its predecessor: the first key
/// position at which the rows differ, or the key width when the whole
/// key repeats.  Equality is per column, null-aware (NULL repeats NULL)
/// and collation-aware.
pub open spec fn spec_change_index(
    prev: Seq<Value>,
    cur: Seq<Value>,
    colls: Seq<Option<CollationSeq>>,
    i: int,
) -> int
    decreases colls.len() - i,
{
    if i < 0 || i >= colls.len() {
        colls.len() as int
    } else if !values_eq(colls[i], true, prev[i], cur[i]) {
        i
    } else {
        spec_change_index(prev, cur, colls, i + 1)
    }
}

/// How many of the first `upto` rows open a new distinct prefix of
/// width `i + 1`: the first row always does; a later row does when its
/// change index against its predecessor is at most `i`.
pub open spec fn spec_distinct(
    rows: Seq<Seq<Value>>,
    colls: Seq<Option<CollationSeq>>,
    i: int,
    upto: int,
) -> nat
    decreases upto,
{
    if upto <= 0 || upto > rows.len() {
        0
    } else {
        spec_distinct(rows, colls, i, upto - 1) + if upto == 1 || spec_change_index(
            rows[upto - 2],
            rows[upto - 1],
            colls,
            0,
        ) <= i {
            1nat
        } else {
            0nat
        }
    }
}

/// A distinct-prefix count never exceeds the row count.
pub proof fn lemma_distinct_le_rows(
    rows: Seq<Seq<Value>>,
    colls: Seq<Option<CollationSeq>>,
    i: int,
    upto: int,
)
    requires
        0 <= upto,
    ensures
        spec_distinct(rows, colls, i, upto) <= upto,
        upto >= 1 && upto <= rows.len() ==> spec_distinct(rows, colls, i, upto) >= 1,
    decreases upto,
{
    if upto > 0 && upto <= rows.len() {
        lemma_distinct_le_rows(rows, colls, i, upto - 1);
    }
}

/// The stat string of one index over its sorted rows: the total row
/// count followed by, per key column, the rounded-up average number of
/// rows per distinct prefix of that width.
pub open spec fn spec_stat_string(
    rows: Seq<Seq<Value>>,
    colls: Seq<Option<CollationSeq>>,
    upto_col: int,
) -> Seq<char>
    decreases upto_col,
{
    if upto_col <= 0 {
        dec_digits(rows.len())
    } else {
        spec_stat_string(rows, colls, upto_col - 1) + seq![' '] + dec_digits(
            spec_ceil_div(
                rows.len(),
                spec_distinct(rows, colls, upto_col - 1, rows.len() as int),
            ),
        )
    }
}

/// Compute the change index of one row against its predecessor.
pub fn change_index(
    prev: &Vec<Value>,
    cur: &Vec<Value>,
    colls: &Vec<Option<CollationSeq>>,
) -> (r: usize)
    requires
        prev@.len() >= colls@.len(),
        cur@.len() >= colls@.len(),
    ensures
        r == spec_change_index(prev@, cur@, colls@, 0),
        r <= colls@.len(),
{
    let n = colls.len();
    let mut i: usize = 0;
    while i < n
        invariant
            i <= n,
            n == colls@.len(),
            prev@.len() >= n,
            cur@.len() >= n,
            spec_change_index(prev@, cur@, colls@, 0) == spec_change_index(
                prev@,
                cur@,
                colls@,
                i as int,
            ),
        decreases n - i,
    {
        if !value_eq(colls[i], true, &prev[i], &cur[i]) {
            return i;
        }
        i = i + 1;
    }
    n
}

/// Compute the stat string of one index from its rows in key order:
/// the total row count and, per key column, the rounded-up average
/// number of rows per distinct prefix.
pub fn index_stat_string(rows: &Vec<Vec<Value>>, colls: &Vec<Option<CollationSeq>>) -> (r: String)
    requires
        rows@.len() > 0,
        forall|j: int| 0 <= j < rows@.len() ==> (#[trigger] rows@[j])@.len() >= colls@.len(),
    ensures
        r@ == spec_stat_string(
            rows@.map(|i: int, v: Vec<Value>| v@),
            colls@,
            colls@.len() as int,
        ),
{
    let ghost rs = rows@.map(|i: int, v: Vec<Value>| v@);
    let nrows = rows.len();
    let ncols = colls.len();
    // Count the distinct prefixes of every width in one scan.
    let mut distinct: Vec<u64> = Vec::new();
    let mut c: usize = 0;
    while c < ncols
        invariant
            c <= ncols,
            distinct@.len() == c,
            forall|i: int| 0 <= i < c ==> (#[trigger] distinct@[i]) == 1,
        decreases ncols - c,
    {
        distinct.push(1);
        c = c + 1;
    }
    proof {
        assert forall|i: int| 0 <= i < ncols implies (#[trigger] distinct@[i])
            == spec_distinct(rs, colls@, i, 1) by {
            assert(spec_distinct(rs, colls@, i, 0) == 0);
        }
        assert(rs[0] == rows@[0]@);
    }
    let mut j: usize = 1;
    while j < nrows
        invariant
            1 <= j <= nrows,
            nrows == rows@.len(),
            ncols == colls@.len(),
            rs == rows@.map(|i: int, v: Vec<Value>| v@),
            forall|jj: int| 0 <= jj < rows@.len() ==> (#[trigger] rows@[jj])@.len() >= ncols,
            distinct@.len() == ncols,
            forall|i: int|
                0 <= i < ncols ==> (#[trigger] distinct@[i]) == spec_distinct(
                    rs,
                    colls@,
                    i,
                    j as int,
                ),
            j <= u64::MAX,
        decreases nrows - j,
    {
        let chng = change_index(&rows[j - 1], &rows[j], colls);
        proof {
            assert(rs[j - 1] == rows@[j - 1]@);
            assert(rs[j as int] == rows@[j as int]@);
        }
        let mut i: usize = chng;
        while i < ncols
            invariant
                chng <= i <= ncols,
                ncols == colls@.len(),
                distinct@.len() == ncols,
                chng == spec_change_index(rs[j as int - 1], rs[j as int], colls@, 0),
                1 <= j < rows@.len(),
                rs.len() == rows@.len(),
                nrows == rows@.len(),
                j < nrows,
                forall|ii: int|
                    0 <= ii < chng ==> (#[trigger] distinct@[ii]) == spec_distinct(
                        rs,
                        colls@,
                        ii,
                        j as int,
                    ),
                forall|ii: int|
                    chng <= ii < i ==> (#[trigger] distinct@[ii]) == spec_distinct(
                        rs,
                        colls@,
                        ii,
                        j as int + 1,
                    ),
                forall|ii: int|
                    i <= ii < ncols ==> (#[trigger] distinct@[ii]) == spec_distinct(
                        rs,
                        colls@,
                        ii,
                        j as int,
                    ),
            decreases ncols - i,
        {
            proof {
                lemma_distinct_le_rows(rs, colls@, i as int, j as int);
                assert(distinct@[i as int] <= j <= u64::MAX - 1);
            }
            let d = distinct[i];
            distinct.set(i, d + 1);
            i = i + 1;
        }
        proof {
            assert forall|ii: int| 0 <= ii < chng implies (#[trigger] distinct@[ii])
                == spec_distinct(rs, colls@, ii, j as int + 1) by {
                assert(spec_change_index(rs[j as int - 1], rs[j as int], colls@, 0) > ii);
            }
        }
        j = j + 1;
    }
    // Render: total, then one rounded-up average per key column.
    let mut out = String::new();
    let total = nrows as u64;
    push_decimal(&mut out, total);
    proof {
        assert(out@ =~= spec_stat_string(rs, colls@, 0));
        assert(rs.len() == nrows);
        assert forall|ii: int| 0 <= ii < ncols implies 1 <= (#[trigger] distinct@[ii]) by {
            lemma_distinct_le_rows(rs, colls@, ii, rs.len() as int);
        }
    }
    let mut i: usize = 0;
    while i < ncols
        invariant
            i <= ncols,
            ncols == colls@.len(),
            distinct@.len() == ncols,
            nrows == rs.len(),
            1 <= nrows,
            total == nrows as u64,
            forall|ii: int|
                0 <= ii < ncols ==> (#[trigger] distinct@[ii]) == spec_distinct(
                    rs,
                    colls@,
                    ii,
                    rs.len() as int,
                ),
            forall|ii: int| 0 <= ii < ncols ==> 1 <= (#[trigger] distinct@[ii]),
            out@ == spec_stat_string(rs, colls@, i as int),
        decreases ncols - i,
    {
        out.append(" ");
        let avg = ceil_div(total, distinct[i]);
        push_decimal(&mut out, avg);
        proof {
            reveal_strlit(" ");
            assert(out@ =~= spec_stat_string(rs, colls@, i + 1));
        }
        i = i + 1;
    }
    out
}

/// One row of the statistics catalog.
#[derive(Debug, PartialEq, Eq)]
pub struct StatRow {
    /// The analyzed table.
    pub tbl: String,
    /// The analyzed index, or none for the table-level row.
    pub idx: Option<String>,
    /// The stat string.
    pub stat: String,
}

/// Whether a statistics row belongs to the named table,
/// case-insensitively.
pub open spec fn stat_row_for(r: StatRow, tbl: Seq<char>) -> bool {
    nocase_seq_eq(r.tbl@, tbl)
}

/// The catalog with every row of the named table removed.
pub open spec fn remove_stats(c: Seq<StatRow>, tbl: Seq<char>) -> Seq<StatRow> {
    c.filter(|r: StatRow| !stat_row_for(r, tbl))
}

/// The catalog after one statistics collection for a table: the prior
/// rows of that table removed, the freshly computed rows appended.
pub open spec fn apply_stats(c: Seq<StatRow>, tbl: Seq<char>, fresh: Seq<StatRow>) -> Seq<
    StatRow,
> {
    remove_stats(c, tbl) + fresh
}

/// LAW — statistics idempotence.  Collecting statistics twice for an
/// unchanged table leaves the catalog exactly as one collection does:
/// the delete-then-reinsert semantics replaces the table's rows, so a
/// second identical collection changes nothing.
pub proof fn lemma_apply_stats_idempotent(c: Seq<StatRow>, tbl: Seq<char>, fresh: Seq<StatRow>)
    requires
        forall|i: int| 0 <= i < fresh.len() ==> stat_row_for(#[trigger] fresh[i], tbl),
    ensures
        apply_stats(apply_stats(c, tbl, fresh), tbl, fresh) == apply_stats(c, tbl, fresh),
{
    let pred = |r: StatRow| !stat_row_for(r, tbl);
    let kept = remove_stats(c, tbl);
    lemma_filter_concat(kept, fresh, pred);
    lemma_filter_idempotent(c, pred);
    lemma_filter_none(fresh, pred);
    assert(remove_stats(apply_stats(c, tbl, fresh), tbl) =~= kept);
}

/// Filtering distributes over concatenation.
proof fn lemma_filter_concat(a: Seq<StatRow>, b: Seq<StatRow>, pred: spec_fn(StatRow) -> bool)
    ensures
        (a + b).filter(pred) == a.filter(pred) + b.filter(pred),
{
    Seq::<StatRow>::filter_distributes_over_add(a, b, pred);
}

/// A sequence every entry of which satisfies the predicate filters to
/// itself.
proof fn lemma_filter_all(a: Seq<StatRow>, pred: spec_fn(StatRow) -> bool)
    requires
        forall|i: int| 0 <= i < a.len() ==> pred(#[trigger] a[i]),
    ensures
        a.filter(pred) == a,
    decreases a.len(),
{
    reveal(Seq::filter);
    if a.len() > 0 {
        assert(forall|i: int|
            0 <= i < a.drop_last().len() ==> #[trigger] a.drop_last()[i] == a[i]);
        lemma_filter_all(a.drop_last(), pred);
        assert(a.drop_last().push(a.last()) =~= a);
    }
}

/// Filtering twice filters once.
proof fn lemma_filter_idempotent(a: Seq<StatRow>, pred: spec_fn(StatRow) -> bool)
    ensures
        a.filter(pred).filter(pred) == a.filter(pred),
{
    broadcast use Seq::lemma_filter_pred;

    lemma_filter_all(a.filter(pred), pred);
}

/// A sequence none of whose entries satisfy the predicate filters to
/// nothing.
proof fn lemma_filter_none(a: Seq<StatRow>, pred: spec_fn(StatRow) -> bool)
    requires
        forall|i: int| 0 <= i < a.len() ==> !pred(#[trigger] a[i]),
    ensures
        a.filter(pred) == Seq::<StatRow>::empty(),
    decreases a.len(),
{
    reveal(Seq::filter);
    if a.len() > 0 {
        assert(forall|i: int|
            0 <= i < a.drop_last().len() ==> #[trigger] a.drop_last()[i] == a[i]);
        lemma_filter_none(a.drop_last(), pred);
    }
}

/// The table-level statistics row: the row count as the stat string,
/// no row at all for an empty table.
pub fn table_stat_row(tbl: &str, row_count: u64) -> (r: Option<StatRow>)
    ensures
        (row_count == 0) <==> r is None,
        r matches Some(row) ==> row.tbl@ == tbl@ && row.idx is None && row.stat@ == dec_digits(
            row_count as nat,
        ),
{
    if row_count == 0 {
        None
    } else {
        let mut stat = String::new();
        push_decimal(&mut stat, row_count);
        Some(StatRow { tbl: crate::text::clone_string(tbl), idx: None, stat })
    }
}

/// Apply one statistics collection to the catalog: remove the prior
/// rows of the table, append the freshly computed ones.
pub fn replace_stats(catalog: Vec<StatRow>, tbl: &str, fresh: Vec<StatRow>) -> (r: Vec<StatRow>)
    ensures
        r@ == apply_stats(catalog@, tbl@, fresh@),
{
    let ghost orig = catalog@;
    let ghost pred = |row: StatRow| !stat_row_for(row, tbl@);
    let mut catalog = catalog;
    let mut kept: Vec<StatRow> = Vec::new();
    proof {
        reveal(Seq::filter);
        assert(kept@ =~= orig.subrange(0, 0).filter(pred));
    }
    while catalog.len() > 0
        invariant
            catalog@.len() <= orig.len(),
            catalog@ == orig.subrange(orig.len() - catalog@.len(), orig.len() as int),
            kept@ == orig.subrange(0, orig.len() - catalog@.len()).filter(pred),
            pred == |row: StatRow| !stat_row_for(row, tbl@),
        decreases catalog@.len(),
    {
        let ghost done = orig.subrange(0, orig.len() - catalog@.len());
        let row = catalog.remove(0);
        proof {
            assert(row == orig[done.len() as int]);
            assert(catalog@ =~= orig.subrange(orig.len() - catalog@.len(), orig.len() as int));
            reveal(Seq::filter);
            assert(done.push(row) =~= orig.subrange(0, done.len() as int + 1));
            assert(done.push(row).drop_last() =~= done);
        }
        if !crate::text::eq_ignore_case(row.tbl.as_str(), tbl) {
            proof {
                assert(pred(row));
            }
            kept.push(row);
        } else {
            proof {
                assert(!pred(row));
            }
        }
        proof {
            assert(kept@ == orig.subrange(0, orig.len() - catalog@.len()).filter(pred));
        }
    }
    proof {
        assert(orig.subrange(0, orig.len() as int) =~= orig);
        assert(kept@ == remove_stats(orig, tbl@));
    }
    let mut fresh = fresh;
    let ghost fr = fresh@;
    let mut i: usize = 0;
    let nf = fresh.len();
    while i < nf
        invariant
            i <= nf,
            nf == fr.len(),
            fresh@ == fr.subrange(i as int, fr.len() as int),
            kept@ == remove_stats(orig, tbl@) + fr.subrange(0, i as int),
        decreases nf - i,
    {
        let row = fresh.remove(0);
        proof {
            assert(row == fr[i as int]);
            assert(fresh@ =~= fr.subrange(i + 1, fr.len() as int));
        }
        kept.push(row);
        proof {
            assert(kept@ =~= remove_stats(orig, tbl@) + fr.subrange(0, i + 1));
        }
        i = i + 1;
    }
    proof {
        assert(fr.subrange(0, fr.len() as int) =~= fr);
    }
    kept
}

} // verus!
