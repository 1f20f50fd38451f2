//! Locates the span from a start signature through the end of an end
//! signature, and copies it out of the buffer.
use vstd::prelude::*;
use crate::signature::{
    ByteMatcher, payload_end, payload_start, end_signature, start_signature, contains_exact, contains_pattern, exact_at, first_exact_at, first_pattern_at,
    pattern_at,
};
use crate::search::{find_hex_string, find_partial_hex_string};

verus! {

/// Which of the two signatures of a scan.
#[derive(Clone, Copy, Debug, PartialEq, Eq, Structural)]
pub enum Which {
    Start,
    End,
}

/// Why a scan produced no range.
#[derive(Clone, Copy, Debug, PartialEq, Eq, Structural)]
pub enum ExtractError {
    /// The named signature occurs nowhere in the buffer.
    SignatureNotFound(Which),
    /// The end signature's first match ends at or before the start
    /// signature's first match.
    InvalidRange,
}

impl ExtractError {
    /// A short text naming the failure.
    pub fn message(&self) -> (r: String) {
        match self {
            ExtractError::SignatureNotFound(Which::Start) => String::from_str(
                "start signature not found",
            ),
            ExtractError::SignatureNotFound(Which::End) => String::from_str(
                "end signature not found",
            ),
            ExtractError::InvalidRange => String::from_str(
                "end signature ends before the start signature",
            ),
        }
    }
}

/// A span of a buffer: offsets `start` (included) to `end` (excluded).
#[derive(Clone, Copy, Debug, PartialEq, Eq, Structural)]
pub struct ByteRange {
    pub start: usize,
    pub end: usize,
}

/// The carved span of `data` runs from `start` to `end`: `start` is the
/// first offset of `start_sig`, `end` is where the first match of `end_sig`
/// ends, and the span is not empty.
pub open spec fn carved_at(
    data: Seq<u8>,
    start_sig: Seq<u8>,
    end_sig: Seq<ByteMatcher>,
    start: int,
    end: int,
) -> bool {
    first_exact_at(data, start_sig, start) && first_pattern_at(data, end_sig, end - end_sig.len())
        && start < end
}

/// A scan of `data` for `start_sig` and `end_sig` fails with `err`.
pub open spec fn fails_with(
    data: Seq<u8>,
    start_sig: Seq<u8>,
    end_sig: Seq<ByteMatcher>,
    err: ExtractError,
) -> bool {
    match err {
        ExtractError::SignatureNotFound(Which::Start) => !contains_exact(data, start_sig),
        ExtractError::SignatureNotFound(Which::End) => contains_exact(data, start_sig)
            && !contains_pattern(data, end_sig),
        ExtractError::InvalidRange => exists|s: int, e: int|
            first_exact_at(data, start_sig, s) && first_pattern_at(data, end_sig, e) && e
                + end_sig.len() <= s,
    }
}

/// Finds the first occurrence of `start_sig` and, independently over the
/// whole buffer, the first match of `end_sig`, and returns the span from the
/// former through the end of the latter. Fails where either signature is
/// missing (the start one is reported first), or where the end match does
/// not end after the start offset.
pub fn locate_range(data: &[u8], start_sig: &[u8], end_sig: &[ByteMatcher]) -> (r: Result<
    ByteRange,
    ExtractError,
>)
    ensures
        match r {
            Ok(range) => carved_at(data@, start_sig@, end_sig@, range.start as int, range.end as int),
            Err(err) => fails_with(data@, start_sig@, end_sig@, err),
        },
{
    let start = match find_hex_string(data, start_sig) {
        Some(i) => i,
        None => {
            return Err(ExtractError::SignatureNotFound(Which::Start));
        },
    };
    let end_match = match find_partial_hex_string(data, end_sig) {
        Some(i) => i,
        None => {
            assert(exact_at(data@, start_sig@, start as int));
            return Err(ExtractError::SignatureNotFound(Which::End));
        },
    };
    let n = data.len();
    assert(pattern_at(data@, end_sig@, end_match as int));
    assert(end_match + end_sig@.len() <= n);
    let end = end_match + end_sig.len();
    if end <= start {
        return Err(ExtractError::InvalidRange);
    }
    Ok(ByteRange { start, end })
}

/// Copies `data[range.start..range.end]` into a new vector.
fn copy_range(data: &[u8], range: ByteRange) -> (r: Vec<u8>)
    requires
        range.start <= range.end <= data@.len(),
    ensures
        r@ == data@.subrange(range.start as int, range.end as int),
{
    let mut out: Vec<u8> = Vec::new();
    let mut i: usize = range.start;
    while i < range.end
        invariant
            range.start <= i <= range.end,
            range.end <= data@.len(),
            out@ == data@.subrange(range.start as int, i as int),
        decreases range.end - i,
    {
        out.push(data[i]);
        i = i + 1;
        assert(out@ =~= data@.subrange(range.start as int, i as int));
    }
    out
}

/// The bytes of `data` from the first occurrence of `start_sig` through the
/// end of the first match of `end_sig`, with the failures of `locate_range`.
pub fn extract_range(data: &[u8], start_sig: &[u8], end_sig: &[ByteMatcher]) -> (r: Result<
    Vec<u8>,
    ExtractError,
>)
    ensures
        match r {
            Ok(bytes) => exists|s: int, e: int|
                carved_at(data@, start_sig@, end_sig@, s, e) && bytes@ == data@.subrange(s, e),
            Err(err) => fails_with(data@, start_sig@, end_sig@, err),
        },
{
    match locate_range(data, start_sig, end_sig) {
        Ok(range) => {
            let bytes = copy_range(data, range);
            assert(carved_at(data@, start_sig@, end_sig@, range.start as int, range.end as int)
                && bytes@ == data@.subrange(range.start as int, range.end as int));
            Ok(bytes)
        },
        Err(err) => Err(err),
    }
}

/// Carves the payload of a self-extracting installer out of its bytes: the
/// span from the container magic through the end of the end signature.
pub fn extract_nsis_payload(data: &[u8]) -> (r: Result<Vec<u8>, ExtractError>)
    ensures
        match r {
            Ok(bytes) => exists|s: int, e: int|
                carved_at(data@, payload_start(), payload_end(), s, e) && bytes@ == data@.subrange(
                    s,
                    e,
                ),
            Err(err) => fails_with(data@, payload_start(), payload_end(), err),
        },
{
    let start_sig = start_signature();
    let end_sig = end_signature();
    extract_range(data, start_sig.as_slice(), end_sig.as_slice())
}

} // verus!
