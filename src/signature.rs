//! Byte signatures and the predicates that say where they occur.
use vstd::prelude::*;

verus! {

/// One position of a signature: a byte that must be equal to a given value,
/// or a position that accepts any byte.
#[derive(Clone, Copy, Debug, PartialEq, Eq, Structural)]
pub enum ByteMatcher {
    Literal(u8),
    Any,
}

impl ByteMatcher {
    /// Whether this position accepts the byte `b`.
    pub open spec fn accepts(self, b: u8) -> bool {
        match self {
            ByteMatcher::Literal(v) => v == b,
            ByteMatcher::Any => true,
        }
    }

    /// Whether this position accepts the byte `b`.
    pub fn matches(&self, b: u8) -> (r: bool)
        ensures
            r == self.accepts(b),
    {
        match self {
            ByteMatcher::Literal(v) => *v == b,
            ByteMatcher::Any => true,
        }
    }
}

/// `pattern` occurs in `data` at offset `i`, byte for byte.
pub open spec fn exact_at(data: Seq<u8>, pattern: Seq<u8>, i: int) -> bool {
    0 <= i && i + pattern.len() <= data.len() && data.subrange(i, i + pattern.len()) == pattern
}

/// `i` is the lowest offset at which `pattern` occurs exactly in `data`.
pub open spec fn first_exact_at(data: Seq<u8>, pattern: Seq<u8>, i: int) -> bool {
    exact_at(data, pattern, i) && forall|k: int| 0 <= k < i ==> !exact_at(data, pattern, k)
}

/// `pattern` occurs somewhere in `data`.
pub open spec fn contains_exact(data: Seq<u8>, pattern: Seq<u8>) -> bool {
    exists|k: int| exact_at(data, pattern, k)
}

/// Every position of `pattern` accepts the byte of `data` it is aligned with
/// when the pattern's first position stands at offset `i`.
pub open spec fn pattern_at(data: Seq<u8>, pattern: Seq<ByteMatcher>, i: int) -> bool {
    0 <= i && i + pattern.len() <= data.len() && forall|j: int|
        0 <= j < pattern.len() ==> #[trigger] pattern[j].accepts(data[i + j])
}

/// `i` is the lowest offset at which `pattern` matches `data`.
pub open spec fn first_pattern_at(data: Seq<u8>, pattern: Seq<ByteMatcher>, i: int) -> bool {
    pattern_at(data, pattern, i) && forall|k: int| 0 <= k < i ==> !pattern_at(data, pattern, k)
}

/// `pattern` matches `data` somewhere.
pub open spec fn contains_pattern(data: Seq<u8>, pattern: Seq<ByteMatcher>) -> bool {
    exists|k: int| pattern_at(data, pattern, k)
}

/// The container magic that a self-extracting installer's payload begins
/// with: `37 7A BC AF 27 1C`.
pub open spec fn payload_start() -> Seq<u8> {
    seq![0x37u8, 0x7Au8, 0xBCu8, 0xAFu8, 0x27u8, 0x1Cu8]
}

/// The signature that ends the payload: the six literal bytes
/// `23 03 01 01 05 5D` followed by fifteen positions that accept any byte.
pub open spec fn payload_end() -> Seq<ByteMatcher> {
    seq![
        ByteMatcher::Literal(0x23u8),
        ByteMatcher::Literal(0x03u8),
        ByteMatcher::Literal(0x01u8),
        ByteMatcher::Literal(0x01u8),
        ByteMatcher::Literal(0x05u8),
        ByteMatcher::Literal(0x5Du8),
    ] + Seq::new(15, |j: int| ByteMatcher::Any)
}

/// The start signature of an installer payload.
pub fn start_signature() -> (r: Vec<u8>)
    ensures
        r@ == payload_start(),
{
    let r: Vec<u8> = vec![0x37u8, 0x7Au8, 0xBCu8, 0xAFu8, 0x27u8, 0x1Cu8];
    assert(r@ =~= payload_start());
    r
}

/// The end signature of an installer payload.
pub fn end_signature() -> (r: Vec<ByteMatcher>)
    ensures
        r@ == payload_end(),
{
    let mut r: Vec<ByteMatcher> = vec![
        ByteMatcher::Literal(0x23u8),
        ByteMatcher::Literal(0x03u8),
        ByteMatcher::Literal(0x01u8),
        ByteMatcher::Literal(0x01u8),
        ByteMatcher::Literal(0x05u8),
        ByteMatcher::Literal(0x5Du8),
    ];
    assert(r@ =~= payload_end().subrange(0, 6));
    let mut k: usize = 0;
    while k < 15
        invariant
            k <= 15,
            r@.len() == 6 + k,
            payload_end().len() == 21,
            forall|j: int| 0 <= j < 6 + k ==> r@[j] == payload_end()[j],
        decreases 15 - k,
    {
        assert(payload_end()[6 + k] == ByteMatcher::Any);
        r.push(ByteMatcher::Any);
        k = k + 1;
    }
    assert(r@ =~= payload_end());
    r
}

} // verus!
