//! Walking a chain of pointers through memory that the host owns.
//!
//! The walk never reads memory itself. It names the address it needs next,
//! is handed what was found there, and decides whether to go on. A value
//! that is too small to be a heap address ends the walk at once, so a zeroed
//! or uninitialised field is never followed.

use vstd::prelude::*;

verus! {

/// The lowest value that is taken for an address of the host's heap.
pub const DEFAULT_THRESHOLD: u64 = 0x100_0000_0000;

/// Whether `value` may be followed as a pointer.
pub open spec fn plausible(value: u64, threshold: u64) -> bool {
    value >= threshold
}

/// Whether `value` may be followed as a pointer.
pub fn is_plausible(value: u64, threshold: u64) -> (r: bool)
    ensures
        r == plausible(value, threshold),
{
    value >= threshold
}

/// A pointer that the host handed out, unless it is null.
pub fn non_null(pointer: u64) -> (r: Option<u64>)
    ensures
        r == if pointer != 0 {
            Some(pointer)
        } else {
            None
        },
{
    if pointer != 0 {
        Some(pointer)
    } else {
        None
    }
}

/// The address held by a tagged pointer: the value without its lowest bit.
pub open spec fn spec_untag(value: u64) -> u64 {
    value & !1u64
}

/// Clears the flag that a tagged pointer keeps in its lowest bit.
pub fn untag(value: u64) -> (r: u64)
    ensures
        r == spec_untag(value),
        value % 2 == 1 ==> r == value - 1,
        value % 2 == 0 ==> r == value,
{
    assert(value % 2 == 1 ==> value & !1u64 == value - 1) by (bit_vector);
    assert(value % 2 == 0 ==> value & !1u64 == value) by (bit_vector);
    value & !1u64
}

/// Where the characters behind a tagged string pointer start, or `None` when
/// the pointer is not plausible.
pub open spec fn spec_text_address(value: u64, threshold: u64) -> Option<u64> {
    if plausible(value, threshold) {
        Some(spec_untag(value))
    } else {
        None
    }
}

/// Checks a tagged string pointer and strips its flag. The check is made on
/// the value as it was read, flag included.
pub fn text_address(value: u64, threshold: u64) -> (r: Option<u64>)
    ensures
        r == spec_text_address(value, threshold),
        value < threshold ==> r is None,
        value >= threshold && value % 2 == 1 ==> r == Some((value - 1) as u64),
        value >= threshold && value % 2 == 0 ==> r == Some(value),
{
    if is_plausible(value, threshold) {
        Some(untag(value))
    } else {
        None
    }
}

/// The value at the end of a pointer chain. Starting from `root`, each
/// offset is added to the current pointer and the word at that address
/// becomes the current pointer. The chain is broken, and the result `None`,
/// when an address does not fit the address space, when a word cannot be
/// read, or when a word that was read is not plausible.
pub open spec fn chain_value(
    memory: spec_fn(u64) -> Option<u64>,
    root: u64,
    offsets: Seq<u64>,
    threshold: u64,
) -> Option<u64>
    decreases offsets.len(),
{
    if offsets.len() == 0 {
        Some(root)
    } else if root + offsets[0] > u64::MAX {
        None
    } else {
        match memory((root + offsets[0]) as u64) {
            Some(value) => if plausible(value, threshold) {
                chain_value(memory, value, offsets.drop_first(), threshold)
            } else {
                None
            },
            None => None,
        }
    }
}

/// What a walk needs from its caller.
#[derive(Clone, Copy, Debug, PartialEq, Eq)]
pub enum WalkRequest {
    /// The word at `address` is to be read and supplied.
    Read { address: u64 },
    /// The walk is over: `value` is the last pointer, or `None` when the
    /// chain was broken.
    Finished { value: Option<u64> },
}

/// Where a walk stands: the pointer it has reached, `None` once the chain
/// is broken, and the offsets that are still to be followed.
pub struct WalkView {
    pub current: Option<u64>,
    pub remaining: Seq<u64>,
    pub threshold: u64,
}

impl WalkView {
    /// What the walk is asking for.
    pub open spec fn request(self) -> WalkRequest {
        match self.current {
            None => WalkRequest::Finished { value: None },
            Some(pointer) => if self.remaining.len() == 0 {
                WalkRequest::Finished { value: Some(pointer) }
            } else if pointer + self.remaining[0] > u64::MAX {
                WalkRequest::Finished { value: None }
            } else {
                WalkRequest::Read { address: (pointer + self.remaining[0]) as u64 }
            },
        }
    }

    /// The walk after the read it asked for was answered with `word`, or
    /// with `None` when nothing could be read. A walk that asked for
    /// nothing stays as it is.
    pub open spec fn supplied(self, word: Option<u64>) -> WalkView {
        if self.request() is Read {
            WalkView {
                current: match word {
                    Some(value) => if plausible(value, self.threshold) {
                        Some(value)
                    } else {
                        None
                    },
                    None => None,
                },
                remaining: self.remaining.drop_first(),
                threshold: self.threshold,
            }
        } else {
            self
        }
    }

    /// The number of reads that the walk may still ask for.
    pub open spec fn pending_reads(self) -> nat {
        match self.current {
            Some(_) => self.remaining.len(),
            None => 0,
        }
    }

    /// The value that the walk ends with when every read is answered from
    /// `memory`.
    pub open spec fn outcome(self, memory: spec_fn(u64) -> Option<u64>) -> Option<u64> {
        match self.current {
            Some(pointer) => chain_value(memory, pointer, self.remaining, self.threshold),
            None => None,
        }
    }
}

/// Answering a read with what the memory holds leaves the outcome of the
/// walk as it was, and the walk is one read shorter.
pub proof fn lemma_supply_keeps_outcome(
    walk: WalkView,
    memory: spec_fn(u64) -> Option<u64>,
    word: Option<u64>,
)
    requires
        walk.request() is Read,
        memory(walk.request()->address) == word,
    ensures
        walk.supplied(word).outcome(memory) == walk.outcome(memory),
        walk.supplied(word).pending_reads() < walk.pending_reads(),
{
}

/// A word below the threshold is never followed: the walk that is handed
/// one asks for no further read and ends without a value, and such a word
/// is no address of characters either.
pub proof fn lemma_implausible_word_is_never_followed(walk: WalkView, word: u64)
    requires
        walk.request() is Read,
        word < walk.threshold,
    ensures
        walk.supplied(Some(word)).request() == (WalkRequest::Finished { value: None }),
        spec_text_address(word, walk.threshold) is None,
{
}

/// A tagged pointer that is followed gives the address without its flag:
/// one less than the value when the flag is set, the value itself when it
/// is clear.
pub proof fn lemma_flag_is_stripped(value: u64, threshold: u64)
    requires
        value >= threshold,
    ensures
        value % 2 == 1 ==> spec_text_address(value, threshold) == Some((value - 1) as u64),
        value % 2 == 0 ==> spec_text_address(value, threshold) == Some(value),
{
    assert(value % 2 == 1 ==> value & !1u64 == value - 1) by (bit_vector);
    assert(value % 2 == 0 ==> value & !1u64 == value) by (bit_vector);
}

/// A walk that asks for nothing more has reached the end of the chain as
/// every memory has it.
pub proof fn lemma_finished_is_outcome(walk: WalkView, memory: spec_fn(u64) -> Option<u64>)
    requires
        walk.request() is Finished,
    ensures
        walk.request()->value == walk.outcome(memory),
{
}

/// A walk along a chain of fixed offsets, advanced one read at a time.
#[derive(Debug)]
pub struct ChainWalk {
    offsets: Vec<u64>,
    position: usize,
    current: Option<u64>,
    threshold: u64,
}

impl View for ChainWalk {
    type V = WalkView;

    closed spec fn view(&self) -> WalkView {
        WalkView {
            current: self.current,
            remaining: if self.position <= self.offsets@.len() {
                self.offsets@.skip(self.position as int)
            } else {
                Seq::empty()
            },
            threshold: self.threshold,
        }
    }
}

impl ChainWalk {
    /// Begins a walk at `root`.
    pub fn start(root: u64, offsets: Vec<u64>, threshold: u64) -> (walk: Self)
        ensures
            walk@ == (WalkView { current: Some(root), remaining: offsets@, threshold }),
    {
        assert(offsets@.skip(0) =~= offsets@);
        ChainWalk { offsets, position: 0, current: Some(root), threshold }
    }

    /// The lowest value that the walk follows as a pointer.
    pub fn threshold(&self) -> (threshold: u64)
        ensures
            threshold == self@.threshold,
    {
        self.threshold
    }

    /// What the walk needs next.
    pub fn request(&self) -> (r: WalkRequest)
        ensures
            r == self@.request(),
    {
        match self.current {
            None => WalkRequest::Finished { value: None },
            Some(pointer) => {
                if self.position >= self.offsets.len() {
                    WalkRequest::Finished { value: Some(pointer) }
                } else {
                    match pointer.checked_add(self.offsets[self.position]) {
                        Some(address) => WalkRequest::Read { address },
                        None => WalkRequest::Finished { value: None },
                    }
                }
            },
        }
    }

    /// Hands the walk the answer to the read it asked for: the word found,
    /// or `None` when nothing could be read.
    pub fn supply(&mut self, word: Option<u64>)
        ensures
            final(self)@ == old(self)@.supplied(word),
    {
        if let WalkRequest::Read { .. } = self.request() {
            if self.position < self.offsets.len() {
                proof {
                    assert(self.offsets@.skip(self.position as int).drop_first()
                        == self.offsets@.skip(self.position as int + 1));
                }
                self.position = self.position + 1;
                self.current = match word {
                    Some(value) => if is_plausible(value, self.threshold) {
                        Some(value)
                    } else {
                        None
                    },
                    None => None,
                };
            }
        }
    }
}

} // verus!
