//! Wildcard byte-pattern matching over a byte region.

use vstd::prelude::*;

verus! {

/// One position of a signature: a fixed byte value, or a position that
/// matches any byte.
#[derive(Clone, Copy, Debug, PartialEq, Eq)]
pub enum PatternByte {
    Exact(u8),
    Wildcard,
}

impl PatternByte {
    /// Whether this position matches `byte`.
    pub open spec fn accepts(self, byte: u8) -> bool {
        match self {
            PatternByte::Exact(b) => b == byte,
            PatternByte::Wildcard => true,
        }
    }

    /// Whether this position matches `byte`.
    pub fn admits(&self, byte: u8) -> (r: bool)
        ensures
            r == self.accepts(byte),
    {
        match self {
            PatternByte::Exact(b) => *b == byte,
            PatternByte::Wildcard => true,
        }
    }
}

/// The window of `pattern.len()` bytes that starts at `offset` lies inside
/// `region` and agrees with `pattern` at every position that is not a wildcard.
pub open spec fn window_matches(pattern: Seq<PatternByte>, region: Seq<u8>, offset: int) -> bool {
    &&& 0 <= offset
    &&& offset + pattern.len() <= region.len()
    &&& forall|i: int|
        0 <= i < pattern.len() ==> (#[trigger] pattern[i]).accepts(region[offset + i])
}

/// `offset` is the lowest offset at which `pattern` matches in `region`.
pub open spec fn is_first_match(pattern: Seq<PatternByte>, region: Seq<u8>, offset: int) -> bool {
    &&& window_matches(pattern, region, offset)
    &&& forall|j: int| 0 <= j < offset ==> !window_matches(pattern, region, j)
}

/// The lowest matching offset, if the pattern matches anywhere in the region.
pub open spec fn first_match(pattern: Seq<PatternByte>, region: Seq<u8>) -> Option<int> {
    if exists|o: int| is_first_match(pattern, region, o) {
        Some(choose|o: int| is_first_match(pattern, region, o))
    } else {
        None
    }
}

/// Two lowest matching offsets of one pattern in one region coincide.
pub proof fn lemma_first_match_unique(
    pattern: Seq<PatternByte>,
    region: Seq<u8>,
    a: int,
    b: int,
)
    requires
        is_first_match(pattern, region, a),
        is_first_match(pattern, region, b),
    ensures
        a == b,
{
    if a < b {
        assert(!window_matches(pattern, region, a));
    } else if b < a {
        assert(!window_matches(pattern, region, b));
    }
}

/// Whenever the pattern matches somewhere, the scan reports a match at or
/// below that place, and nothing below the reported offset matches: with
/// several candidates the one at the lowest offset wins.
pub proof fn lemma_first_match_is_lowest(pattern: Seq<PatternByte>, region: Seq<u8>, at: int)
    requires
        window_matches(pattern, region, at),
    ensures
        first_match(pattern, region) is Some,
        0 <= first_match(pattern, region).unwrap() <= at,
        is_first_match(pattern, region, first_match(pattern, region).unwrap()),
{
    lemma_lowest_below(pattern, region, at, at);
    let low = choose|o: int| is_first_match(pattern, region, o);
    if at < low {
        assert(!window_matches(pattern, region, at));
    }
}

/// A match at `at` within the first `bound + 1` offsets gives a lowest match.
proof fn lemma_lowest_below(pattern: Seq<PatternByte>, region: Seq<u8>, at: int, bound: int)
    requires
        window_matches(pattern, region, at),
        at <= bound,
    ensures
        exists|o: int| is_first_match(pattern, region, o),
    decreases bound,
{
    if exists|j: int| 0 <= j < at && window_matches(pattern, region, j) {
        let j = choose|j: int| 0 <= j < at && window_matches(pattern, region, j);
        lemma_lowest_below(pattern, region, j, bound - 1);
    } else {
        assert(is_first_match(pattern, region, at));
    }
}

/// A window planted between any two stretches of bytes is found: the scan
/// of `before + window + after` reports an offset no higher than
/// `before.len()`, provided the window itself agrees with the pattern.
pub proof fn lemma_planted_match_found(
    pattern: Seq<PatternByte>,
    before: Seq<u8>,
    window: Seq<u8>,
    after: Seq<u8>,
)
    requires
        window_matches(pattern, window, 0),
    ensures
        first_match(pattern, before + window + after) is Some,
        first_match(pattern, before + window + after).unwrap() <= before.len(),
{
    let region = before + window + after;
    let at = before.len() as int;
    assert forall|i: int| 0 <= i < pattern.len() implies (#[trigger] pattern[i]).accepts(
        region[at + i],
    ) by {
        assert(region[at + i] == window[0 + i]);
    }
    assert(window_matches(pattern, region, at));
    lemma_first_match_is_lowest(pattern, region, at);
}

/// An ordered sequence of byte values and wildcards, with the signed distance
/// from the place where the sequence matches back to the entry of the
/// function it belongs to.
#[derive(Debug, PartialEq, Eq)]
pub struct FunctionSignature {
    pub pattern: Vec<PatternByte>,
    pub displacement: i64,
}

impl FunctionSignature {
    /// The signature with the given positions and displacement.
    pub fn new(pattern: Vec<PatternByte>, displacement: i64) -> (s: Self)
        ensures
            s.pattern@ == pattern@,
            s.displacement == displacement,
    {
        FunctionSignature { pattern, displacement }
    }

    /// Number of positions in the signature.
    pub fn len(&self) -> (n: usize)
        ensures
            n == self.pattern@.len(),
    {
        self.pattern.len()
    }

    /// Whether the signature matches the window of `region` at `offset`.
    pub fn matches_at(&self, region: &[u8], offset: usize) -> (r: bool)
        ensures
            r == window_matches(self.pattern@, region@, offset as int),
    {
        let n = self.pattern.len();
        if offset > region.len() || n > region.len() - offset {
            return false;
        }
        let mut i: usize = 0;
        while i < n
            invariant
                n == self.pattern@.len(),
                offset + n <= region@.len() <= usize::MAX,
                i <= n,
                forall|k: int|
                    0 <= k < i ==> (#[trigger] self.pattern@[k]).accepts(region@[offset + k]),
            decreases n - i,
        {
            if !self.pattern[i].admits(region[offset + i]) {
                assert(!self.pattern@[i as int].accepts(region@[offset + i]));
                return false;
            }
            i += 1;
        }
        true
    }

    /// Scans `region` at increasing offsets and returns the first offset at
    /// which the signature matches, or `None` when it matches nowhere.
    pub fn scan(&self, region: &[u8]) -> (r: Option<usize>)
        ensures
            match r {
                Some(o) => is_first_match(self.pattern@, region@, o as int),
                None => forall|j: int| !window_matches(self.pattern@, region@, j),
            },
            r is Some <==> first_match(self.pattern@, region@) is Some,
            r is Some ==> r.unwrap() as int == first_match(self.pattern@, region@).unwrap(),
    {
        let n = self.pattern.len();
        if n > region.len() {
            assert forall|o: int| !is_first_match(self.pattern@, region@, o) by {}
            return None;
        }
        let last = region.len() - n;
        let mut offset: usize = 0;
        loop
            invariant
                n == self.pattern@.len(),
                last == region@.len() - n,
                offset <= last,
                forall|j: int| 0 <= j < offset ==> !window_matches(self.pattern@, region@, j),
            ensures
                offset == last,
                forall|j: int| 0 <= j <= last ==> !window_matches(self.pattern@, region@, j),
            decreases last - offset,
        {
            if self.matches_at(region, offset) {
                proof {
                    let o = offset as int;
                    assert(is_first_match(self.pattern@, region@, o));
                    let low = choose|o: int| is_first_match(self.pattern@, region@, o);
                    lemma_first_match_unique(self.pattern@, region@, o, low);
                }
                return Some(offset);
            }
            if offset == last {
                break;
            }
            offset += 1;
        }
        assert forall|o: int| !is_first_match(self.pattern@, region@, o) by {}
        None
    }
}

} // verus!
