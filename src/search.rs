//! First-occurrence search for exact and partially known signatures.
use vstd::prelude::*;
use crate::signature::{ByteMatcher, exact_at, first_exact_at, pattern_at, first_pattern_at};

verus! {

/// Whether `pattern` occurs in `data` at offset `i`.
fn exact_at_offset(data: &[u8], pattern: &[u8], i: usize) -> (r: bool)
    requires
        i + pattern.len() <= data.len(),
    ensures
        r == exact_at(data@, pattern@, i as int),
{
    let m = pattern.len();
    let mut j: usize = 0;
    while j < m
        invariant
            j <= m,
            m == pattern@.len(),
            i + m <= data.len(),
            forall|t: int| 0 <= t < j ==> data@[i + t] == pattern@[t],
        decreases m - j,
    {
        if data[i + j] != pattern[j] {
            assert(data@.subrange(i as int, i + m)[j as int] != pattern@[j as int]);
            return false;
        }
        j = j + 1;
    }
    assert(data@.subrange(i as int, i + m) =~= pattern@);
    true
}

/// Lowest offset at which `pattern` occurs in `data`, byte for byte, or
/// `None` where it does not occur. An empty pattern occurs at offset 0, and
/// a pattern longer than `data` occurs nowhere.
pub fn find_hex_string(data: &[u8], pattern: &[u8]) -> (r: Option<usize>)
    ensures
        match r {
            Some(i) => first_exact_at(data@, pattern@, i as int),
            None => forall|k: int| !exact_at(data@, pattern@, k),
        },
{
    if pattern.len() > data.len() {
        return None;
    }
    let last = data.len() - pattern.len();
    let mut i: usize = 0;
    loop
        invariant
            i <= last,
            last + pattern@.len() == data@.len(),
            forall|k: int| 0 <= k < i ==> !exact_at(data@, pattern@, k),
        decreases last - i,
    {
        if exact_at_offset(data, pattern, i) {
            return Some(i);
        }
        if i == last {
            return None;
        }
        i = i + 1;
    }
}

/// Length of the run of positions of `pattern`, counted from its first,
/// that accept the bytes of `data` from offset `i` on. The run stops at the
/// first position that rejects its byte, or at the end of the pattern.
fn matching_run(data: &[u8], pattern: &[ByteMatcher], i: usize) -> (n: usize)
    requires
        i + pattern.len() <= data.len(),
    ensures
        n <= pattern@.len(),
        forall|t: int| 0 <= t < n ==> #[trigger] pattern@[t].accepts(data@[i + t]),
        n < pattern@.len() ==> !pattern@[n as int].accepts(data@[i + n]),
{
    let m = pattern.len();
    let mut n: usize = 0;
    while n < m
        invariant
            n <= m,
            m == pattern@.len(),
            i + m <= data.len(),
            forall|t: int| 0 <= t < n ==> #[trigger] pattern@[t].accepts(data@[i + t]),
        decreases m - n,
    {
        if !pattern[n].matches(data[i + n]) {
            return n;
        }
        n = n + 1;
    }
    n
}

/// Lowest offset at which every position of `pattern` accepts the byte of
/// `data` it is aligned with, or `None` where there is no such offset. A
/// position that is `ByteMatcher::Any` accepts every byte, `0xFF` included;
/// a `ByteMatcher::Literal` accepts its own value only.
pub fn find_partial_hex_string(data: &[u8], pattern: &[ByteMatcher]) -> (r: Option<usize>)
    ensures
        match r {
            Some(i) => first_pattern_at(data@, pattern@, i as int),
            None => forall|k: int| !pattern_at(data@, pattern@, k),
        },
{
    if pattern.len() > data.len() {
        return None;
    }
    let last = data.len() - pattern.len();
    let mut i: usize = 0;
    loop
        invariant
            i <= last,
            last + pattern@.len() == data@.len(),
            forall|k: int| 0 <= k < i ==> !pattern_at(data@, pattern@, k),
        decreases last - i,
    {
        let run = matching_run(data, pattern, i);
        if run == pattern.len() {
            return Some(i);
        }
        assert(!pattern@[run as int].accepts(data@[i + run]));
        if i == last {
            return None;
        }
        i = i + 1;
    }
}

} // verus!
