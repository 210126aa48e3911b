//! The dynamically typed values the virtual machine computes with, and
//! collation-aware, null-aware equality over them.

use vstd::prelude::*;

use crate::insn::CollationSeq;
use crate::text::{eq_ignore_case, nocase_seq_eq, str_eq};

verus! {

/// A runtime value: registers and record fields are dynamically typed.
#[derive(Debug, Clone, PartialEq, Eq)]
pub enum Value {
    /// The SQL NULL.
    Null,
    /// A signed integer.
    Integer(i64),
    /// A text value.
    Text(String),
    /// A byte-string value.
    Blob(Vec<u8>),
}

/// The length of a character sequence with trailing spaces removed.
pub open spec fn trimmed_len(s: Seq<char>) -> int
    decreases s.len(),
{
    if s.len() == 0 || s.last() != ' ' {
        s.len() as int
    } else {
        trimmed_len(s.drop_last())
    }
}

/// A character sequence with its trailing spaces removed.
pub open spec fn trim_trailing(s: Seq<char>) -> Seq<char> {
    s.subrange(0, trimmed_len(s))
}

/// The trimmed length is the unique position that cuts exactly the
/// trailing run of spaces.
pub proof fn lemma_trimmed_len_characterization(s: Seq<char>, k: int)
    requires
        0 <= k <= s.len(),
        forall|j: int| k <= j < s.len() ==> s[j] == ' ',
        k > 0 ==> s[k - 1] != ' ',
    ensures
        trimmed_len(s) == k,
    decreases s.len(),
{
    if s.len() == k {
        if k > 0 {
            assert(s.last() == s[k - 1]);
        }
    } else {
        assert(s.last() == ' ');
        let t = s.drop_last();
        assert(forall|j: int| k <= j < t.len() ==> t[j] == s[j]);
        if k > 0 {
            assert(t[k - 1] == s[k - 1]);
        }
        lemma_trimmed_len_characterization(t, k);
    }
}

/// The trimmed length is between zero and the length.
pub proof fn lemma_trimmed_len_bounds(s: Seq<char>)
    ensures
        0 <= trimmed_len(s) <= s.len(),
    decreases s.len(),
{
    if !(s.len() == 0 || s.last() != ' ') {
        lemma_trimmed_len_bounds(s.drop_last());
    }
}

/// Equality of two character sequences under a collation.
pub open spec fn coll_eq(coll: Option<CollationSeq>, a: Seq<char>, b: Seq<char>) -> bool {
    match coll {
        None => a == b,
        Some(CollationSeq::Binary) => a == b,
        Some(CollationSeq::NoCase) => nocase_seq_eq(a, b),
        Some(CollationSeq::Rtrim) => trim_trailing(a) == trim_trailing(b),
    }
}

/// Null-aware, collation-aware equality of two values: two NULLs compare
/// equal exactly when `null_eq` is set; text compares under the
/// collation; differently typed values never compare equal.
pub open spec fn values_eq(coll: Option<CollationSeq>, null_eq: bool, a: Value, b: Value) -> bool {
    match (a, b) {
        (Value::Null, Value::Null) => null_eq,
        (Value::Integer(x), Value::Integer(y)) => x == y,
        (Value::Text(s), Value::Text(t)) => coll_eq(coll, s@, t@),
        (Value::Blob(x), Value::Blob(y)) => x@ == y@,
        _ => false,
    }
}

/// The position after which only spaces follow.
pub fn trimmed_length(s: &str) -> (r: usize)
    ensures
        r == trimmed_len(s@),
{
    let n = s.unicode_len();
    let mut k: usize = n;
    while k > 0
        invariant
            k <= n,
            n == s@.len(),
            forall|j: int| k <= j < n ==> s@[j] == ' ',
        decreases k,
    {
        if s.get_char(k - 1) != ' ' {
            proof {
                lemma_trimmed_len_characterization(s@, k as int);
            }
            return k;
        }
        k = k - 1;
    }
    proof {
        lemma_trimmed_len_characterization(s@, 0);
    }
    0
}

/// Equality of two strings under a collation.
pub fn coll_str_eq(coll: Option<CollationSeq>, a: &str, b: &str) -> (r: bool)
    ensures
        r == coll_eq(coll, a@, b@),
{
    let c = match coll {
        None => CollationSeq::Binary,
        Some(cc) => cc,
    };
    proof {
        assert(coll_eq(coll, a@, b@) == coll_eq(Some(c), a@, b@));
    }
    match c {
        CollationSeq::Binary => {
            let r = str_eq(a, b);
            proof {
                assert(coll_eq(Some(c), a@, b@) == (a@ == b@));
            }
            r
        },
        CollationSeq::NoCase => eq_ignore_case(a, b),
        CollationSeq::Rtrim => {
            proof {
                lemma_trimmed_len_bounds(a@);
                lemma_trimmed_len_bounds(b@);
            }
            let ka = trimmed_length(a);
            let kb = trimmed_length(b);
            if ka != kb {
                proof {
                    assert(trim_trailing(a@).len() != trim_trailing(b@).len());
                }
                return false;
            }
            let mut i: usize = 0;
            while i < ka
                invariant
                    i <= ka,
                    ka == trimmed_len(a@),
                    kb == trimmed_len(b@),
                    ka == kb,
                    ka <= a@.len(),
                    kb <= b@.len(),
                    coll_eq(coll, a@, b@) == (trim_trailing(a@) == trim_trailing(b@)),
                    forall|j: int| 0 <= j < i ==> a@[j] == b@[j],
                decreases ka - i,
            {
                if a.get_char(i) != b.get_char(i) {
                    proof {
                        assert(trim_trailing(a@)[i as int] != trim_trailing(b@)[i as int]);
                        assert(trim_trailing(a@) != trim_trailing(b@));
                    }
                    return false;
                }
                i = i + 1;
            }
            proof {
                assert(trim_trailing(a@) =~= trim_trailing(b@));
            }
            true
        },
    }
}

/// Equality of two byte strings.
pub fn bytes_eq(a: &Vec<u8>, b: &Vec<u8>) -> (r: bool)
    ensures
        r == (a@ == b@),
{
    if a.len() != b.len() {
        return false;
    }
    let mut i: usize = 0;
    while i < a.len()
        invariant
            i <= a@.len(),
            a@.len() == b@.len(),
            forall|j: int| 0 <= j < i ==> a@[j] == b@[j],
        decreases a@.len() - i,
    {
        if a[i] != b[i] {
            return false;
        }
        i = i + 1;
    }
    proof {
        assert(a@ =~= b@);
    }
    true
}

/// Null-aware, collation-aware equality of two values.
pub fn value_eq(coll: Option<CollationSeq>, null_eq: bool, a: &Value, b: &Value) -> (r: bool)
    ensures
        r == values_eq(coll, null_eq, *a, *b),
{
    match (a, b) {
        (Value::Null, Value::Null) => null_eq,
        (Value::Integer(x), Value::Integer(y)) => *x == *y,
        (Value::Text(s), Value::Text(t)) => coll_str_eq(coll, s.as_str(), t.as_str()),
        (Value::Blob(x), Value::Blob(y)) => bytes_eq(x, y),
        _ => false,
    }
}

/// A three-way comparison result.
#[derive(Debug, Clone, Copy, PartialEq, Eq, Structural)]
pub enum Cmp {
    /// The left operand sorts first.
    Less,
    /// The operands sort equally.
    Equal,
    /// The right operand sorts first.
    Greater,
}

/// The mirrored comparison result.
pub open spec fn flip(c: Cmp) -> Cmp {
    match c {
        Cmp::Less => Cmp::Greater,
        Cmp::Equal => Cmp::Equal,
        Cmp::Greater => Cmp::Less,
    }
}

/// Lexicographic three-way comparison of two code sequences.
pub open spec fn lex_cmp(a: Seq<int>, b: Seq<int>) -> Cmp
    decreases a.len(),
{
    if a.len() == 0 && b.len() == 0 {
        Cmp::Equal
    } else if a.len() == 0 {
        Cmp::Less
    } else if b.len() == 0 {
        Cmp::Greater
    } else if a[0] < b[0] {
        Cmp::Less
    } else if a[0] > b[0] {
        Cmp::Greater
    } else {
        lex_cmp(a.drop_first(), b.drop_first())
    }
}

/// Swapping the operands mirrors the lexicographic comparison.
pub proof fn lemma_lex_cmp_flip(a: Seq<int>, b: Seq<int>)
    ensures
        lex_cmp(b, a) == flip(lex_cmp(a, b)),
    decreases a.len(),
{
    if a.len() > 0 && b.len() > 0 && a[0] == b[0] {
        lemma_lex_cmp_flip(a.drop_first(), b.drop_first());
    }
}

/// Equal-comparing sequences compare equally against any third.
pub proof fn lemma_lex_cmp_eq_trans(a: Seq<int>, b: Seq<int>, c: Seq<int>)
    requires
        lex_cmp(a, b) == Cmp::Equal,
    ensures
        lex_cmp(a, c) == lex_cmp(b, c),
    decreases a.len(),
{
    if a.len() > 0 && b.len() > 0 && a[0] == b[0] {
        if c.len() > 0 && a[0] == c[0] {
            lemma_lex_cmp_eq_trans(a.drop_first(), b.drop_first(), c.drop_first());
        }
    }
}

/// The lexicographic order is transitive.
pub proof fn lemma_lex_cmp_trans(a: Seq<int>, b: Seq<int>, c: Seq<int>)
    requires
        lex_cmp(a, b) != Cmp::Greater,
        lex_cmp(b, c) != Cmp::Greater,
    ensures
        lex_cmp(a, c) != Cmp::Greater,
    decreases a.len(),
{
    if a.len() > 0 && b.len() > 0 && c.len() > 0 {
        if a[0] == b[0] && b[0] == c[0] {
            lemma_lex_cmp_trans(a.drop_first(), b.drop_first(), c.drop_first());
        }
    }
}

/// The type rank of a value: NULL sorts before numbers, numbers before
/// text, text before byte strings.
pub open spec fn rank(v: Value) -> int {
    match v {
        Value::Null => 0,
        Value::Integer(_) => 1,
        Value::Text(_) => 2,
        Value::Blob(_) => 3,
    }
}

/// The comparison key of a text value under a collation: its character
/// codes, case-folded for the case-insensitive collation, with trailing
/// spaces removed for the trailing-space-insensitive one.
pub open spec fn coll_key(coll: CollationSeq, s: Seq<char>) -> Seq<int> {
    match coll {
        CollationSeq::Binary => s.map(|i: int, c: char| c as int),
        CollationSeq::NoCase => s.map(|i: int, c: char| crate::text::lower_code(c)),
        CollationSeq::Rtrim => trim_trailing(s).map(|i: int, c: char| c as int),
    }
}

/// The byte codes of a byte string.
pub open spec fn byte_codes(b: Seq<u8>) -> Seq<int> {
    b.map(|i: int, x: u8| x as int)
}

/// Three-way comparison of two runtime values: by type rank first, then
/// within the type; text compares by its collation key.
pub open spec fn value_cmp(coll: CollationSeq, a: Value, b: Value) -> Cmp {
    if rank(a) < rank(b) {
        Cmp::Less
    } else if rank(a) > rank(b) {
        Cmp::Greater
    } else {
        match (a, b) {
            (Value::Integer(x), Value::Integer(y)) => if x < y {
                Cmp::Less
            } else if x > y {
                Cmp::Greater
            } else {
                Cmp::Equal
            },
            (Value::Text(x), Value::Text(y)) => lex_cmp(coll_key(coll, x@), coll_key(coll, y@)),
            (Value::Blob(x), Value::Blob(y)) => lex_cmp(byte_codes(x@), byte_codes(y@)),
            _ => Cmp::Equal,
        }
    }
}

/// Swapping the operands mirrors the value comparison.
pub proof fn lemma_value_cmp_flip(coll: CollationSeq, a: Value, b: Value)
    ensures
        value_cmp(coll, b, a) == flip(value_cmp(coll, a, b)),
{
    match (a, b) {
        (Value::Text(x), Value::Text(y)) => {
            lemma_lex_cmp_flip(coll_key(coll, x@), coll_key(coll, y@));
        },
        (Value::Blob(x), Value::Blob(y)) => {
            lemma_lex_cmp_flip(byte_codes(x@), byte_codes(y@));
        },
        _ => {},
    }
}

/// Equal-comparing values compare equally against any third.
pub proof fn lemma_value_cmp_eq_trans(coll: CollationSeq, a: Value, b: Value, c: Value)
    requires
        value_cmp(coll, a, b) == Cmp::Equal,
    ensures
        value_cmp(coll, a, c) == value_cmp(coll, b, c),
{
    match (a, b) {
        (Value::Text(x), Value::Text(y)) => {
            match c {
                Value::Text(z) => {
                    lemma_lex_cmp_eq_trans(
                        coll_key(coll, x@),
                        coll_key(coll, y@),
                        coll_key(coll, z@),
                    );
                },
                _ => {},
            }
        },
        (Value::Blob(x), Value::Blob(y)) => {
            match c {
                Value::Blob(z) => {
                    lemma_lex_cmp_eq_trans(byte_codes(x@), byte_codes(y@), byte_codes(z@));
                },
                _ => {},
            }
        },
        _ => {},
    }
}

/// The value order is transitive.
pub proof fn lemma_value_cmp_trans(coll: CollationSeq, a: Value, b: Value, c: Value)
    requires
        value_cmp(coll, a, b) != Cmp::Greater,
        value_cmp(coll, b, c) != Cmp::Greater,
    ensures
        value_cmp(coll, a, c) != Cmp::Greater,
{
    match (a, b) {
        (Value::Text(x), Value::Text(y)) => {
            match c {
                Value::Text(z) => {
                    lemma_lex_cmp_trans(
                        coll_key(coll, x@),
                        coll_key(coll, y@),
                        coll_key(coll, z@),
                    );
                },
                _ => {},
            }
        },
        (Value::Blob(x), Value::Blob(y)) => {
            match c {
                Value::Blob(z) => {
                    lemma_lex_cmp_trans(byte_codes(x@), byte_codes(y@), byte_codes(z@));
                },
                _ => {},
            }
        },
        _ => {},
    }
}

/// Compare the collation keys of two strings, three ways.
pub fn cmp_text(coll: CollationSeq, a: &str, b: &str) -> (r: Cmp)
    ensures
        r == lex_cmp(coll_key(coll, a@), coll_key(coll, b@)),
{
    let la: usize;
    let lb: usize;
    match coll {
        CollationSeq::Rtrim => {
            proof {
                lemma_trimmed_len_bounds(a@);
                lemma_trimmed_len_bounds(b@);
            }
            la = trimmed_length(a);
            lb = trimmed_length(b);
        },
        _ => {
            la = a.unicode_len();
            lb = b.unicode_len();
        },
    }
    let ghost ka = coll_key(coll, a@);
    let ghost kb = coll_key(coll, b@);
    proof {
        assert(ka.len() == la);
        assert(kb.len() == lb);
    }
    let mut i: usize = 0;
    while i < la && i < lb
        invariant
            i <= la,
            i <= lb,
            ka == coll_key(coll, a@),
            kb == coll_key(coll, b@),
            ka.len() == la,
            kb.len() == lb,
            la <= a@.len(),
            lb <= b@.len(),
            forall|j: int| 0 <= j < i ==> ka[j] == kb[j],
        decreases la - i,
    {
        let ca = key_code(coll, a, i);
        let cb = key_code(coll, b, i);
        if ca < cb {
            proof {
                lemma_lex_decide(ka, kb, i as int);
            }
            return Cmp::Less;
        }
        if ca > cb {
            proof {
                lemma_lex_decide(ka, kb, i as int);
            }
            return Cmp::Greater;
        }
        i = i + 1;
    }
    proof {
        lemma_lex_decide(ka, kb, i as int);
    }
    if la == lb {
        Cmp::Equal
    } else if la < lb {
        Cmp::Less
    } else {
        Cmp::Greater
    }
}

/// The comparison key code of one character position.
fn key_code(coll: CollationSeq, s: &str, i: usize) -> (r: u32)
    requires
        i < coll_key(coll, s@).len(),
        i < s@.len(),
    ensures
        r == coll_key(coll, s@)[i as int],
{
    let c = s.get_char(i);
    match coll {
        CollationSeq::NoCase => crate::text::to_lower(c),
        CollationSeq::Binary => c as u32,
        CollationSeq::Rtrim => {
            proof {
                lemma_trimmed_len_bounds(s@);
                assert(trim_trailing(s@)[i as int] == s@[i as int]);
            }
            c as u32
        },
    }
}

/// A lexicographic comparison whose operands agree on a prefix is
/// decided at the first position past it.
pub proof fn lemma_lex_decide(a: Seq<int>, b: Seq<int>, i: int)
    requires
        0 <= i <= a.len(),
        0 <= i <= b.len(),
        forall|j: int| 0 <= j < i ==> a[j] == b[j],
    ensures
        i == a.len() && i == b.len() ==> lex_cmp(a, b) == Cmp::Equal,
        i == a.len() && i < b.len() ==> lex_cmp(a, b) == Cmp::Less,
        i == b.len() && i < a.len() ==> lex_cmp(a, b) == Cmp::Greater,
        i < a.len() && i < b.len() && a[i] < b[i] ==> lex_cmp(a, b) == Cmp::Less,
        i < a.len() && i < b.len() && a[i] > b[i] ==> lex_cmp(a, b) == Cmp::Greater,
    decreases i,
{
    if i > 0 {
        let a2 = a.drop_first();
        let b2 = b.drop_first();
        assert(forall|j: int| 0 <= j < i - 1 ==> a2[j] == a[j + 1] && b2[j] == b[j + 1]);
        lemma_lex_decide(a2, b2, i - 1);
    }
}

/// Compare two byte strings lexicographically, three ways.
pub fn cmp_bytes(a: &Vec<u8>, b: &Vec<u8>) -> (r: Cmp)
    ensures
        r == lex_cmp(byte_codes(a@), byte_codes(b@)),
{
    let la = a.len();
    let lb = b.len();
    let ghost ka = byte_codes(a@);
    let ghost kb = byte_codes(b@);
    let mut i: usize = 0;
    while i < la && i < lb
        invariant
            i <= la,
            i <= lb,
            ka == byte_codes(a@),
            kb == byte_codes(b@),
            ka.len() == la,
            kb.len() == lb,
            la == a@.len(),
            lb == b@.len(),
            forall|j: int| 0 <= j < i ==> ka[j] == kb[j],
        decreases la - i,
    {
        let ca = a[i];
        let cb = b[i];
        if ca < cb {
            proof {
                lemma_lex_decide(ka, kb, i as int);
            }
            return Cmp::Less;
        }
        if ca > cb {
            proof {
                lemma_lex_decide(ka, kb, i as int);
            }
            return Cmp::Greater;
        }
        i = i + 1;
    }
    proof {
        lemma_lex_decide(ka, kb, i as int);
    }
    if la == lb {
        Cmp::Equal
    } else if la < lb {
        Cmp::Less
    } else {
        Cmp::Greater
    }
}

/// Compare two values three ways: by type rank, then within the type,
/// with text compared under the collation.
pub fn cmp_values(coll: CollationSeq, a: &Value, b: &Value) -> (r: Cmp)
    ensures
        r == value_cmp(coll, *a, *b),
{
    match (a, b) {
        (Value::Null, Value::Null) => Cmp::Equal,
        (Value::Integer(x), Value::Integer(y)) => {
            if *x < *y {
                Cmp::Less
            } else if *x > *y {
                Cmp::Greater
            } else {
                Cmp::Equal
            }
        },
        (Value::Text(x), Value::Text(y)) => cmp_text(coll, x.as_str(), y.as_str()),
        (Value::Blob(x), Value::Blob(y)) => cmp_bytes(x, y),
        (Value::Null, _) => Cmp::Less,
        (_, Value::Null) => Cmp::Greater,
        (Value::Integer(_), _) => Cmp::Less,
        (_, Value::Integer(_)) => Cmp::Greater,
        (Value::Text(_), _) => Cmp::Less,
        (_, Value::Text(_)) => Cmp::Greater,
    }
}

} // verus!
