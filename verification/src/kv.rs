use vstd::prelude::*;
use vstd::string::{StrSliceExecFns, StringExecFns};

verus! {

/// The position of the first `'='` in `s` at or after `i`, or `s.len()` if
/// there is none.
pub open spec fn first_eq_from(s: Seq<char>, i: int) -> int
    decreases s.len() - i,
{
    if i < 0 || i >= s.len() {
        s.len() as int
    } else if s[i] == '=' {
        i
    } else {
        first_eq_from(s, i + 1)
    }
}

/// The position of the first `'='` in `s`, or `s.len()` if there is none.
pub open spec fn first_eq(s: Seq<char>) -> int {
    first_eq_from(s, 0)
}

/// Whether `s` holds a `'='` at all.
pub open spec fn has_eq(s: Seq<char>) -> bool {
    first_eq(s) < s.len()
}

/// A scan that saw no `'='` between `lo` and `hi` can pick up where it left
/// off: the first `'='` at or after `lo` is the first at or after `hi`.
pub proof fn lemma_first_eq_scan(s: Seq<char>, lo: int, hi: int)
    requires
        0 <= lo <= hi <= s.len(),
        forall|j: int| lo <= j < hi ==> s[j] != '=',
    ensures
        first_eq_from(s, lo) == first_eq_from(s, hi),
    decreases hi - lo,
{
    if lo < hi {
        lemma_first_eq_scan(s, lo + 1, hi);
    }
}

/// A key and a value parsed from a `key=value` argument.
#[derive(Debug, PartialEq, Eq)]
pub struct KvPair {
    pub k: String,
    pub v: String,
}

/// The input held no `'='`, so no pair could be parsed from it.
#[derive(Debug)]
pub struct KvError {}

impl KvPair {
    /// Parses `key=value`: the key is everything before the first `'='`, the
    /// value everything between the first and the second (or the end);
    /// without any `'='` the input is rejected.
    #[verifier::loop_isolation(false)]
    pub fn from_str(s: &str) -> (out: Result<KvPair, KvError>)
        ensures
            out is Ok <==> has_eq(s@),
            out is Ok ==> out->Ok_0.k@ == s@.subrange(0, first_eq(s@)),
            out is Ok ==> out->Ok_0.v@ == s@.subrange(
                first_eq(s@) + 1,
                first_eq_from(s@, first_eq(s@) + 1),
            ),
    {
        let n: usize = s.unicode_len();
        let mut i: usize = 0;
        while i < n && s.get_char(i) != '='
            invariant
                0 <= i <= n,
                forall|j: int| 0 <= j < i ==> s@[j] != '=',
            decreases n - i,
        {
            i = i + 1;
        }
        proof {
            lemma_first_eq_scan(s@, 0, i as int);
            assert(first_eq(s@) == i as int);
        }
        if i == n {
            return Err(KvError {});
        }
        let mut j: usize = i + 1;
        while j < n && s.get_char(j) != '='
            invariant
                i + 1 <= j <= n,
                forall|t: int| i + 1 <= t < j ==> s@[t] != '=',
            decreases n - j,
        {
            j = j + 1;
        }
        proof {
            lemma_first_eq_scan(s@, i as int + 1, j as int);
            assert(first_eq_from(s@, i as int + 1) == j as int);
        }
        let k: String = String::from_str(s.substring_char(0, i));
        let v: String = String::from_str(s.substring_char(i + 1, j));
        Ok(KvPair { k, v })
    }
}

/// Parses a command-line `key=value` pair.
pub fn parse_kv_pair(s: &str) -> (out: Result<KvPair, KvError>)
    ensures
        out is Ok <==> has_eq(s@),
        out is Ok ==> out->Ok_0.k@ == s@.subrange(0, first_eq(s@)),
        out is Ok ==> out->Ok_0.v@ == s@.subrange(
            first_eq(s@) + 1,
            first_eq_from(s@, first_eq(s@) + 1),
        ),
{
    KvPair::from_str(s)
}

} // verus!
