//! Small operations on text and bytes that the other modules share.

use vstd::prelude::*;
use vstd::string::StrSliceExecFns;

verus! {

/// Removes `prefix` from the front of `text`.
///
/// Returns what follows the prefix where `text` starts with it, and nothing
/// where it does not.
pub fn strip_prefix<'a>(text: &'a str, prefix: &str) -> (rest: Option<&'a str>)
    ensures
        match rest {
            Some(tail) => prefix@.is_prefix_of(text@) && tail@ == text@.skip(prefix@.len() as int),
            None => !prefix@.is_prefix_of(text@),
        },
{
    let n = text.unicode_len();
    let m = prefix.unicode_len();
    if m > n {
        return None;
    }
    let mut i: usize = 0;
    while i < m
        invariant
            i <= m <= n,
            n == text@.len(),
            m == prefix@.len(),
            forall|j: int| 0 <= j < i ==> text@[j] == prefix@[j],
        decreases m - i,
    {
        if text.get_char(i) != prefix.get_char(i) {
            assert(text@.subrange(0, m as int)[i as int] != prefix@[i as int]);
            return None;
        }
        i += 1;
    }
    assert(prefix@ =~= text@.subrange(0, m as int));
    let tail = text.substring_char(m, n);
    assert(tail@ =~= text@.skip(m as int));
    Some(tail)
}

/// Removes `prefix` from the front of `data`.
///
/// Returns a copy of what follows the prefix where `data` starts with it, and
/// nothing where it does not.
pub fn strip_bytes_prefix(data: &[u8], prefix: &[u8]) -> (rest: Option<Vec<u8>>)
    ensures
        match rest {
            Some(tail) => prefix@.is_prefix_of(data@) && tail@ == data@.skip(prefix@.len() as int),
            None => !prefix@.is_prefix_of(data@),
        },
{
    let n = data.len();
    let m = prefix.len();
    if m > n {
        return None;
    }
    let mut i: usize = 0;
    while i < m
        invariant
            i <= m <= n,
            n == data@.len(),
            m == prefix@.len(),
            forall|j: int| 0 <= j < i ==> data@[j] == prefix@[j],
        decreases m - i,
    {
        if data[i] != prefix[i] {
            assert(data@.subrange(0, m as int)[i as int] != prefix@[i as int]);
            return None;
        }
        i += 1;
    }
    assert(prefix@ =~= data@.subrange(0, m as int));
    let mut tail: Vec<u8> = Vec::new();
    let mut k: usize = m;
    while k < n
        invariant
            m <= k <= n,
            n == data@.len(),
            tail@ == data@.subrange(m as int, k as int),
        decreases n - k,
    {
        tail.push(data[k]);
        assert(data@.subrange(m as int, k + 1) =~= data@.subrange(m as int, k as int).push(
            data@[k as int],
        ));
        k += 1;
    }
    assert(tail@ =~= data@.skip(m as int));
    Some(tail)
}

/// Whether two texts hold the same characters.
pub fn same_text(a: &str, b: &str) -> (same: bool)
    ensures
        same == (a@ == b@),
{
    let n = a.unicode_len();
    if n != b.unicode_len() {
        return false;
    }
    let mut i: usize = 0;
    while i < n
        invariant
            i <= n,
            n == a@.len(),
            n == b@.len(),
            forall|j: int| 0 <= j < i ==> a@[j] == b@[j],
        decreases n - i,
    {
        if a.get_char(i) != b.get_char(i) {
            return false;
        }
        i += 1;
    }
    assert(a@ =~= b@);
    true
}

} // verus!
