//! Plain text helpers: character-wise equality and substring containment.

use vstd::prelude::*;

verus! {

/// `needle` occurs contiguously inside `hay` (every string contains the
/// empty string).
pub open spec fn contains_substr(hay: Seq<char>, needle: Seq<char>) -> bool {
    exists|k: int|
        0 <= k && k + needle.len() <= hay.len() && #[trigger] hay.subrange(k, k + needle.len())
            == needle
}

/// Decides character-for-character equality of two strings.
pub fn str_eq(a: &str, b: &str) -> (r: bool)
    ensures
        r == (a@ == b@),
{
    let n = a.unicode_len();
    if n != b.unicode_len() {
        return false;
    }
    let mut i: usize = 0;
    while i < n
        invariant
            0 <= i <= n,
            n == a@.len(),
            n == b@.len(),
            forall|j: int| 0 <= j < i ==> a@[j] == b@[j],
        decreases n - i,
    {
        if a.get_char(i) != b.get_char(i) {
            return false;
        }
        i += 1;
    }
    assert(a@ =~= b@);
    true
}

/// Decides whether `hay` carries `needle` starting at position `k`.
fn matches_at(hay: &str, needle: &str, k: usize, hn: usize, m: usize) -> (r: bool)
    requires
        hn == hay@.len(),
        m == needle@.len(),
        k + m <= hn,
    ensures
        r == (hay@.subrange(k as int, k + needle@.len()) == needle@),
{
    let mut i: usize = 0;
    while i < m
        invariant
            0 <= i <= m,
            hn == hay@.len(),
            m == needle@.len(),
            k + m <= hn,
            forall|j: int| 0 <= j < i ==> hay@[k + j] == needle@[j],
        decreases m - i,
    {
        if hay.get_char(k + i) != needle.get_char(i) {
            assert(hay@.subrange(k as int, k + needle@.len())[i as int] != needle@[i as int]);
            return false;
        }
        i += 1;
    }
    assert(hay@.subrange(k as int, k + needle@.len()) =~= needle@);
    true
}

/// Decides substring containment.
pub fn contains_str(hay: &str, needle: &str) -> (r: bool)
    ensures
        r == contains_substr(hay@, needle@),
{
    let hn = hay.unicode_len();
    let m = needle.unicode_len();
    if m > hn {
        return false;
    }
    if m == 0 {
        assert(hay@.subrange(0, 0 + needle@.len() as int) =~= needle@);
        return true;
    }
    let mut k: usize = 0;
    while k <= hn - m
        invariant
            0 <= k <= hn - m + 1,
            1 <= m <= hn,
            hn == hay@.len(),
            m == needle@.len(),
            forall|j: int|
                0 <= j < k ==> #[trigger] hay@.subrange(j, j + needle@.len()) != needle@,
        decreases hn - k,
    {
        if matches_at(hay, needle, k, hn, m) {
            return true;
        }
        k += 1;
    }
    false
}

} // verus!
