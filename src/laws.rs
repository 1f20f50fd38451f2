//! Facts about the signature predicates and the carved span, proved over the
//! models that the searches and the extractor are specified with.
use vstd::prelude::*;
use crate::signature::{
    ByteMatcher, contains_exact, contains_pattern, exact_at, first_exact_at, first_pattern_at,
    pattern_at,
};
use crate::extract::{ExtractError, Which, carved_at, fails_with};

verus! {

/// There is at most one first occurrence of a byte sequence.
pub proof fn lemma_first_exact_unique(data: Seq<u8>, pattern: Seq<u8>, i: int, j: int)
    requires
        first_exact_at(data, pattern, i),
        first_exact_at(data, pattern, j),
    ensures
        i == j,
{
}

/// There is at most one first match of a signature.
pub proof fn lemma_first_pattern_unique(data: Seq<u8>, pattern: Seq<ByteMatcher>, i: int, j: int)
    requires
        first_pattern_at(data, pattern, i),
        first_pattern_at(data, pattern, j),
    ensures
        i == j,
{
}

/// Where a byte sequence occurs at offset `k`, it has a first occurrence,
/// at `k` or before.
pub proof fn lemma_first_exact_exists(data: Seq<u8>, pattern: Seq<u8>, k: int)
    requires
        exact_at(data, pattern, k),
    ensures
        exists|i: int| i <= k && #[trigger] first_exact_at(data, pattern, i),
    decreases k,
{
    if exists|k2: int| 0 <= k2 < k && exact_at(data, pattern, k2) {
        let k2 = choose|k2: int| 0 <= k2 < k && exact_at(data, pattern, k2);
        lemma_first_exact_exists(data, pattern, k2);
    } else {
        assert(first_exact_at(data, pattern, k));
    }
}

/// Where a signature matches at offset `k`, it has a first match, at `k` or
/// before.
pub proof fn lemma_first_pattern_exists(data: Seq<u8>, pattern: Seq<ByteMatcher>, k: int)
    requires
        pattern_at(data, pattern, k),
    ensures
        exists|i: int| i <= k && #[trigger] first_pattern_at(data, pattern, i),
    decreases k,
{
    if exists|k2: int| 0 <= k2 < k && pattern_at(data, pattern, k2) {
        let k2 = choose|k2: int| 0 <= k2 < k && pattern_at(data, pattern, k2);
        lemma_first_pattern_exists(data, pattern, k2);
    } else {
        assert(first_pattern_at(data, pattern, k));
    }
}

/// A signature made only of `ByteMatcher::Any` matches at offset 0 of every
/// buffer at least as long as itself.
pub proof fn law_all_wildcards_match_at_zero(data: Seq<u8>, pattern: Seq<ByteMatcher>)
    requires
        forall|j: int| 0 <= j < pattern.len() ==> pattern[j] == ByteMatcher::Any,
        pattern.len() <= data.len(),
    ensures
        first_pattern_at(data, pattern, 0),
{
    assert forall|j: int| 0 <= j < pattern.len() implies #[trigger] pattern[j].accepts(
        data[0 + j],
    ) by {
        assert(pattern[j] == ByteMatcher::Any);
    }
}

/// A signature made only of literals matches exactly where the byte sequence
/// of those literals occurs, so the wildcard search and the exact search find
/// the same first offset, or both find none.
pub proof fn law_all_literals_agree_with_exact(
    data: Seq<u8>,
    bytes: Seq<u8>,
    pattern: Seq<ByteMatcher>,
)
    requires
        pattern.len() == bytes.len(),
        forall|j: int| 0 <= j < pattern.len() ==> pattern[j] == ByteMatcher::Literal(bytes[j]),
    ensures
        forall|i: int| pattern_at(data, pattern, i) <==> exact_at(data, bytes, i),
        forall|i: int| first_pattern_at(data, pattern, i) <==> first_exact_at(data, bytes, i),
        contains_pattern(data, pattern) <==> contains_exact(data, bytes),
{
    assert forall|i: int| pattern_at(data, pattern, i) <==> exact_at(data, bytes, i) by {
        if 0 <= i && i + pattern.len() <= data.len() {
            let window = data.subrange(i, i + bytes.len());
            if pattern_at(data, pattern, i) {
                assert forall|j: int| 0 <= j < bytes.len() implies window[j] == bytes[j] by {
                    assert(pattern[j].accepts(data[i + j]));
                }
                assert(window =~= bytes);
            }
            if exact_at(data, bytes, i) {
                assert forall|j: int| 0 <= j < pattern.len() implies #[trigger] pattern[j].accepts(
                    data[i + j],
                ) by {
                    assert(window[j] == bytes[j]);
                }
            }
        }
    }
    if contains_pattern(data, pattern) {
        let k = choose|k: int| pattern_at(data, pattern, k);
        assert(exact_at(data, bytes, k));
    }
    if contains_exact(data, bytes) {
        let k = choose|k: int| exact_at(data, bytes, k);
        assert(pattern_at(data, pattern, k));
    }
}

/// The bytes before the carved span, the span, and the bytes after it put
/// back together give the buffer again.
pub proof fn law_carve_round_trip(
    data: Seq<u8>,
    start_sig: Seq<u8>,
    end_sig: Seq<ByteMatcher>,
    start: int,
    end: int,
)
    requires
        carved_at(data, start_sig, end_sig, start, end),
    ensures
        data.subrange(0, start) + data.subrange(start, end) + data.subrange(end, data.len() as int)
            == data,
{
    assert(data.subrange(0, start) + data.subrange(start, end) + data.subrange(
        end,
        data.len() as int,
    ) =~= data);
}

/// The carved span, where there is one, is unique, and no failure of the
/// scan is then possible.
pub proof fn lemma_carved_is_the_only_outcome(
    data: Seq<u8>,
    start_sig: Seq<u8>,
    end_sig: Seq<ByteMatcher>,
    start: int,
    end: int,
)
    requires
        carved_at(data, start_sig, end_sig, start, end),
    ensures
        forall|s: int, e: int| #[trigger]
            carved_at(data, start_sig, end_sig, s, e) ==> s == start && e == end,
        forall|err: ExtractError| !fails_with(data, start_sig, end_sig, err),
{
    assert forall|s: int, e: int| #[trigger]
        carved_at(data, start_sig, end_sig, s, e) implies s == start && e == end by {
        lemma_first_exact_unique(data, start_sig, s, start);
        lemma_first_pattern_unique(data, end_sig, e - end_sig.len(), end - end_sig.len());
    }
    assert forall|err: ExtractError| !fails_with(data, start_sig, end_sig, err) by {
        assert(exact_at(data, start_sig, start));
        assert(pattern_at(data, end_sig, end - end_sig.len()));
        if err == ExtractError::InvalidRange {
            if fails_with(data, start_sig, end_sig, err) {
                let (s, e) = choose|s: int, e: int|
                    first_exact_at(data, start_sig, s) && first_pattern_at(data, end_sig, e) && e
                        + end_sig.len() <= s;
                lemma_first_exact_unique(data, start_sig, s, start);
                lemma_first_pattern_unique(data, end_sig, e, end - end_sig.len());
            }
        }
    }
}

/// Where a match of the end signature ends at or before every occurrence of
/// the start signature, and the start signature does occur, the scan fails
/// with `ExtractError::InvalidRange` and carves nothing.
pub proof fn law_end_before_start_is_invalid(
    data: Seq<u8>,
    start_sig: Seq<u8>,
    end_sig: Seq<ByteMatcher>,
    end_match: int,
)
    requires
        pattern_at(data, end_sig, end_match),
        contains_exact(data, start_sig),
        forall|k: int| exact_at(data, start_sig, k) ==> end_match + end_sig.len() <= k,
    ensures
        fails_with(data, start_sig, end_sig, ExtractError::InvalidRange),
        forall|s: int, e: int| !carved_at(data, start_sig, end_sig, s, e),
{
    let k = choose|k: int| exact_at(data, start_sig, k);
    lemma_first_exact_exists(data, start_sig, k);
    let s = choose|s: int| s <= k && first_exact_at(data, start_sig, s);
    lemma_first_pattern_exists(data, end_sig, end_match);
    let e = choose|e: int| e <= end_match && first_pattern_at(data, end_sig, e);
    assert(first_exact_at(data, start_sig, s) && first_pattern_at(data, end_sig, e) && e
        + end_sig.len() <= s);
    assert forall|s2: int, e2: int| !carved_at(data, start_sig, end_sig, s2, e2) by {
        if carved_at(data, start_sig, end_sig, s2, e2) {
            lemma_first_exact_unique(data, start_sig, s, s2);
            lemma_first_pattern_unique(data, end_sig, e, e2 - end_sig.len());
        }
    }
}

/// Where the end signature matches but the start signature occurs nowhere,
/// the scan fails with `SignatureNotFound(Which::Start)` and with nothing else.
pub proof fn law_missing_start_is_reported(
    data: Seq<u8>,
    start_sig: Seq<u8>,
    end_sig: Seq<ByteMatcher>,
)
    requires
        contains_pattern(data, end_sig),
        !contains_exact(data, start_sig),
    ensures
        fails_with(data, start_sig, end_sig, ExtractError::SignatureNotFound(Which::Start)),
        !fails_with(data, start_sig, end_sig, ExtractError::SignatureNotFound(Which::End)),
        !fails_with(data, start_sig, end_sig, ExtractError::InvalidRange),
        forall|s: int, e: int| !carved_at(data, start_sig, end_sig, s, e),
{
    assert forall|s: int, e: int| !carved_at(data, start_sig, end_sig, s, e) by {
        if carved_at(data, start_sig, end_sig, s, e) {
            assert(exact_at(data, start_sig, s));
        }
    }
    if fails_with(data, start_sig, end_sig, ExtractError::InvalidRange) {
        let (s, e) = choose|s: int, e: int|
            first_exact_at(data, start_sig, s) && first_pattern_at(data, end_sig, e) && e
                + end_sig.len() <= s;
        assert(exact_at(data, start_sig, s));
    }
}

/// Where the start signature occurs but the end signature matches nowhere,
/// the scan fails with `SignatureNotFound(Which::End)` and with nothing else.
pub proof fn law_missing_end_is_reported(
    data: Seq<u8>,
    start_sig: Seq<u8>,
    end_sig: Seq<ByteMatcher>,
)
    requires
        contains_exact(data, start_sig),
        !contains_pattern(data, end_sig),
    ensures
        fails_with(data, start_sig, end_sig, ExtractError::SignatureNotFound(Which::End)),
        !fails_with(data, start_sig, end_sig, ExtractError::SignatureNotFound(Which::Start)),
        !fails_with(data, start_sig, end_sig, ExtractError::InvalidRange),
        forall|s: int, e: int| !carved_at(data, start_sig, end_sig, s, e),
{
    assert forall|s: int, e: int| !carved_at(data, start_sig, end_sig, s, e) by {
        if carved_at(data, start_sig, end_sig, s, e) {
            assert(pattern_at(data, end_sig, e - end_sig.len()));
        }
    }
    if fails_with(data, start_sig, end_sig, ExtractError::InvalidRange) {
        let (s, e) = choose|s: int, e: int|
            first_exact_at(data, start_sig, s) && first_pattern_at(data, end_sig, e) && e
                + end_sig.len() <= s;
        assert(pattern_at(data, end_sig, e));
    }
}

/// In a buffer laid out as `prefix`, the start signature, `middle`, a region
/// that the end signature matches, and `suffix`, where neither signature
/// matches any earlier, the scan carves exactly the start signature, `middle`
/// and that region.
pub proof fn law_carves_framed_region(
    prefix: Seq<u8>,
    start_sig: Seq<u8>,
    middle: Seq<u8>,
    end_region: Seq<u8>,
    suffix: Seq<u8>,
    end_sig: Seq<ByteMatcher>,
)
    requires
        start_sig.len() > 0,
        end_region.len() == end_sig.len(),
        pattern_at(end_region, end_sig, 0),
        forall|k: int|
            0 <= k < prefix.len() ==> !exact_at(
                prefix + start_sig + middle + end_region + suffix,
                start_sig,
                k,
            ),
        forall|k: int|
            0 <= k < prefix.len() + start_sig.len() + middle.len() ==> !pattern_at(
                prefix + start_sig + middle + end_region + suffix,
                end_sig,
                k,
            ),
    ensures
        carved_at(
            prefix + start_sig + middle + end_region + suffix,
            start_sig,
            end_sig,
            prefix.len() as int,
            (prefix.len() + start_sig.len() + middle.len() + end_region.len()) as int,
        ),
        (prefix + start_sig + middle + end_region + suffix).subrange(
            prefix.len() as int,
            (prefix.len() + start_sig.len() + middle.len() + end_region.len()) as int,
        ) == start_sig + middle + end_region,
        forall|s: int, e: int|
            #[trigger] carved_at(
                prefix + start_sig + middle + end_region + suffix,
                start_sig,
                end_sig,
                s,
                e,
            ) ==> s == prefix.len() && e == prefix.len() + start_sig.len() + middle.len()
                + end_region.len(),
        forall|err: ExtractError|
            !fails_with(prefix + start_sig + middle + end_region + suffix, start_sig, end_sig, err),
{
    let data = prefix + start_sig + middle + end_region + suffix;
    let p = prefix.len() as int;
    let m = p + start_sig.len() + middle.len();
    let q = m + end_region.len();
    assert(data.subrange(p, p + start_sig.len()) =~= start_sig);
    assert(exact_at(data, start_sig, p));
    assert forall|j: int| 0 <= j < end_sig.len() implies #[trigger] end_sig[j].accepts(
        data[m + j],
    ) by {
        assert(data[m + j] == end_region[j]);
        assert(end_sig[j].accepts(end_region[0 + j]));
    }
    assert(pattern_at(data, end_sig, m));
    assert(first_pattern_at(data, end_sig, q - end_sig.len()));
    assert(carved_at(data, start_sig, end_sig, p, q));
    assert(data.subrange(p, q) =~= start_sig + middle + end_region);
    lemma_carved_is_the_only_outcome(data, start_sig, end_sig, p, q);
}

} // verus!
