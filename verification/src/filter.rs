//! Deciding by its prefix whether an identifier is reported.

use vstd::prelude::*;
use vstd::utf8::encode_utf8;

verus! {

/// Whether an identifier passes a prefix: the empty prefix admits every
/// identifier, any other prefix those whose bytes begin with its bytes.
/// The comparison is made byte by byte, so it distinguishes case.
pub open spec fn spec_includes(identifier: Seq<char>, prefix: Seq<char>) -> bool {
    prefix.len() == 0 || encode_utf8(prefix).is_prefix_of(encode_utf8(identifier))
}

/// Whether an identifier that may be absent passes a prefix. An absent
/// identifier never does.
pub open spec fn spec_includes_recovered(identifier: Option<Seq<char>>, prefix: Seq<char>) -> bool {
    match identifier {
        Some(found) => spec_includes(found, prefix),
        None => false,
    }
}

/// The empty prefix admits every identifier.
pub proof fn lemma_empty_prefix_includes_all(identifier: Seq<char>)
    ensures
        spec_includes(identifier, Seq::<char>::empty()),
{
}

/// Every identifier passes the prefix that is the identifier itself.
pub proof fn lemma_identifier_includes_itself(identifier: Seq<char>)
    ensures
        spec_includes(identifier, identifier),
{
    let bytes = encode_utf8(identifier);
    assert(bytes.subrange(0, bytes.len() as int) =~= bytes);
}

/// Whether `prefix` is empty or the bytes of `identifier` begin with the
/// bytes of `prefix`.
pub fn includes(identifier: &str, prefix: &str) -> (r: bool)
    ensures
        r == spec_includes(identifier@, prefix@),
{
    if prefix.is_empty() {
        return true;
    }
    let wanted = prefix.as_bytes();
    let given = identifier.as_bytes();
    let n = wanted.len();
    if n > given.len() {
        return false;
    }
    let mut i: usize = 0;
    while i < n
        invariant
            n == wanted@.len(),
            n <= given@.len(),
            i <= n,
            wanted@ == encode_utf8(prefix@),
            given@ == encode_utf8(identifier@),
            prefix@.len() != 0,
            forall|k: int| 0 <= k < i ==> wanted@[k] == given@[k],
        decreases n - i,
    {
        if wanted[i] != given[i] {
            assert(given@.subrange(0, n as int)[i as int] != wanted@[i as int]);
            return false;
        }
        i += 1;
    }
    assert(given@.subrange(0, n as int) =~= wanted@);
    true
}

/// An inclusion test with a fixed prefix.
#[derive(Debug)]
pub struct EventFilter {
    pub prefix: String,
}

impl EventFilter {
    /// A filter that admits the identifiers that begin with `prefix`.
    pub fn new(prefix: String) -> (filter: Self)
        ensures
            filter.prefix@ == prefix@,
    {
        EventFilter { prefix }
    }

    /// Whether `identifier` passes the filter.
    pub fn includes(&self, identifier: &str) -> (r: bool)
        ensures
            r == spec_includes(identifier@, self.prefix@),
    {
        includes(identifier, self.prefix.as_str())
    }

    /// Whether an identifier that may be absent passes the filter.
    pub fn includes_recovered(&self, identifier: &Option<String>) -> (r: bool)
        ensures
            r == spec_includes_recovered(crate::text::text_view(*identifier), self.prefix@),
    {
        match identifier {
            Some(found) => includes(found.as_str(), self.prefix.as_str()),
            None => false,
        }
    }
}

} // verus!
