//! A captured stretch of memory, read through checked accessors.
//!
//! Addresses are absolute. A read that would leave the captured stretch
//! gives `None`; nothing outside it is ever touched.

use crate::text::{decode_narrow, decode_wide, narrow_text, text_view, wide_text, TextEncoding};
use crate::walker::{
    chain_value, lemma_finished_is_outcome, lemma_supply_keeps_outcome, spec_text_address,
    text_address, ChainWalk, WalkRequest,
};
use vstd::prelude::*;
use vstd::slice::{slice_subrange, slice_to_vec};

verus! {

/// The 64-bit word whose little-endian bytes are the first eight of `bytes`.
pub open spec fn word_value(bytes: Seq<u8>) -> int {
    bytes[0] + 0x100 * bytes[1] + 0x1_0000 * bytes[2] + 0x100_0000 * bytes[3] + 0x1_0000_0000
        * bytes[4] + 0x100_0000_0000 * bytes[5] + 0x1_0000_0000_0000 * bytes[6]
        + 0x100_0000_0000_0000 * bytes[7]
}

/// The 16-bit unit whose little-endian bytes are the first two of `bytes`.
pub open spec fn unit_value(bytes: Seq<u8>) -> int {
    bytes[0] + 0x100 * bytes[1]
}

/// `length` is the number of bytes in front of the first zero byte of `bytes`.
pub open spec fn terminated_at(bytes: Seq<u8>, length: int) -> bool {
    &&& 0 <= length < bytes.len()
    &&& bytes[length] == 0
    &&& forall|i: int| 0 <= i < length ==> bytes[i] != 0
}

/// `count` is the number of 16-bit units in front of the first zero unit of
/// `bytes`, and that zero unit lies wholly inside `bytes`.
pub open spec fn wide_terminated_at(bytes: Seq<u8>, count: int) -> bool {
    &&& 0 <= count
    &&& 2 * count + 2 <= bytes.len()
    &&& unit_value(bytes.skip(2 * count)) == 0
    &&& forall|i: int| 0 <= i < count ==> unit_value(#[trigger] bytes.skip(2 * i)) != 0
}

/// Bytes captured from the host, with the address of the first of them.
#[derive(Debug)]
pub struct MemoryImage {
    pub base: u64,
    pub bytes: Vec<u8>,
}

impl MemoryImage {
    /// Whether `count` bytes from `address` on lie inside the image.
    pub open spec fn covers(&self, address: u64, count: int) -> bool {
        self.base <= address && address - self.base + count <= self.bytes@.len()
    }

    /// The captured bytes from `address` to the end of the image.
    pub open spec fn tail(&self, address: u64) -> Seq<u8> {
        self.bytes@.skip(address - self.base)
    }

    /// The word at `address`, if all eight bytes of it were captured.
    pub open spec fn spec_read_word(&self, address: u64) -> Option<u64> {
        if self.covers(address, 8) {
            Some(word_value(self.tail(address)) as u64)
        } else {
            None
        }
    }

    /// The image as a memory to walk: every address with the word found there.
    pub open spec fn memory(&self) -> spec_fn(u64) -> Option<u64> {
        |address: u64| self.spec_read_word(address)
    }

    /// The bytes from `address` up to the first zero byte, if there is one
    /// inside the image.
    pub open spec fn spec_read_bytes(&self, address: u64) -> Option<Seq<u8>> {
        if self.covers(address, 0) && exists|n: int| terminated_at(self.tail(address), n) {
            let n = choose|n: int| terminated_at(self.tail(address), n);
            Some(self.tail(address).take(n))
        } else {
            None
        }
    }

    /// The 16-bit units from `address` up to the first zero unit, if there
    /// is one inside the image.
    pub open spec fn spec_read_units(&self, address: u64) -> Option<Seq<u16>> {
        if self.covers(address, 0) && exists|n: int| wide_terminated_at(self.tail(address), n) {
            let n = choose|n: int| wide_terminated_at(self.tail(address), n);
            Some(Seq::new(n as nat, |i: int| unit_value(self.tail(address).skip(2 * i)) as u16))
        } else {
            None
        }
    }

    /// The text stored at `address` in the given encoding.
    pub open spec fn spec_read_text(&self, address: u64, encoding: TextEncoding) -> Option<
        Seq<char>,
    > {
        match encoding {
            TextEncoding::Narrow => match self.spec_read_bytes(address) {
                Some(bytes) => narrow_text(bytes),
                None => None,
            },
            TextEncoding::Wide => match self.spec_read_units(address) {
                Some(units) => wide_text(units),
                None => None,
            },
        }
    }

    /// The text that a chain of pointers leads to: the chain is walked from
    /// `root`, its last value is taken for a tagged string pointer, and the
    /// characters behind it are decoded.
    pub open spec fn spec_recover_text(
        &self,
        root: u64,
        offsets: Seq<u64>,
        threshold: u64,
        encoding: TextEncoding,
    ) -> Option<Seq<char>> {
        match chain_value(self.memory(), root, offsets, threshold) {
            Some(tagged) => match spec_text_address(tagged, threshold) {
                Some(address) => self.spec_read_text(address, encoding),
                None => None,
            },
            None => None,
        }
    }

    /// The image of `bytes` as they were found from `base` on.
    pub fn new(base: u64, bytes: Vec<u8>) -> (image: Self)
        ensures
            image.base == base,
            image.bytes@ == bytes@,
    {
        MemoryImage { base, bytes }
    }

    /// The index into the captured bytes at which `count` bytes from
    /// `address` on start, if they all lie inside the image.
    fn locate(&self, address: u64, count: usize) -> (r: Option<usize>)
        ensures
            r is Some <==> self.covers(address, count as int),
            r is Some ==> r.unwrap() == address - self.base,
    {
        if address < self.base {
            return None;
        }
        let distance = address - self.base;
        let length = self.bytes.len();
        if count > length || distance > (length - count) as u64 {
            return None;
        }
        Some(distance as usize)
    }

    /// Reads the little-endian word at `address`.
    pub fn read_word(&self, address: u64) -> (r: Option<u64>)
        ensures
            r == self.spec_read_word(address),
    {
        match self.locate(address, 8) {
            Some(at) => {
                let length = self.bytes.len();
                assert(at + 8 <= length);
                assert(forall|i: int| 0 <= i < 8 ==> self.tail(address)[i] == self.bytes@[at + i]);
                let b0 = self.bytes[at] as u64;
                let b1 = self.bytes[at + 1] as u64;
                let b2 = self.bytes[at + 2] as u64;
                let b3 = self.bytes[at + 3] as u64;
                let b4 = self.bytes[at + 4] as u64;
                let b5 = self.bytes[at + 5] as u64;
                let b6 = self.bytes[at + 6] as u64;
                let b7 = self.bytes[at + 7] as u64;
                Some(
                    b0 + 0x100 * b1 + 0x1_0000 * b2 + 0x100_0000 * b3 + 0x1_0000_0000 * b4
                        + 0x100_0000_0000 * b5 + 0x1_0000_0000_0000 * b6 + 0x100_0000_0000_0000
                        * b7,
                )
            },
            None => None,
        }
    }

    /// Reads the bytes of a zero-terminated sequence that starts at
    /// `address`, without the terminator.
    pub fn read_bytes(&self, address: u64) -> (r: Option<Vec<u8>>)
        ensures
            match r {
                Some(bytes) => self.covers(address, 0) && terminated_at(
                    self.tail(address),
                    bytes@.len() as int,
                ) && bytes@ == self.tail(address).take(bytes@.len() as int),
                None => !self.covers(address, 0) || forall|n: int|
                    !terminated_at(self.tail(address), n),
            },
            r is Some ==> self.spec_read_bytes(address) == Some(r.unwrap()@),
            r is None ==> self.spec_read_bytes(address) is None,
    {
        let start = match self.locate(address, 0) {
            Some(at) => at,
            None => {
                return None;
            },
        };
        let length = self.bytes.len();
        let ghost tail = self.tail(address);
        let mut end = start;
        while end < length && self.bytes[end] != 0
            invariant
                start <= end <= length,
                length == self.bytes@.len(),
                start == address - self.base,
                tail == self.bytes@.skip(start as int),
                forall|i: int| 0 <= i < end - start ==> tail[i] != 0,
            decreases length - end,
        {
            end += 1;
        }
        if end == length {
            assert forall|n: int| !terminated_at(tail, n) by {
                if terminated_at(tail, n) {
                    assert(tail[n] != 0);
                }
            }
            return None;
        }
        let found = slice_subrange(self.bytes.as_slice(), start, end);
        let copy = slice_to_vec(found);
        proof {
            let n = (end - start) as int;
            assert(terminated_at(tail, n));
            assert(copy@ == tail.take(n));
            let chosen = choose|m: int| terminated_at(tail, m);
            lemma_terminator_unique(tail, n, chosen);
        }
        Some(copy)
    }

    /// Reads the 16-bit units of a zero-terminated sequence that starts at
    /// `address`, without the terminator.
    pub fn read_units(&self, address: u64) -> (r: Option<Vec<u16>>)
        ensures
            match r {
                Some(units) => self.covers(address, 0) && wide_terminated_at(
                    self.tail(address),
                    units@.len() as int,
                ) && forall|i: int|
                    0 <= i < units@.len() ==> units@[i] == unit_value(
                        #[trigger] self.tail(address).skip(2 * i),
                    ),
                None => !self.covers(address, 0) || forall|n: int|
                    !wide_terminated_at(self.tail(address), n),
            },
            r is Some ==> self.spec_read_units(address) == Some(r.unwrap()@),
            r is None ==> self.spec_read_units(address) is None,
    {
        let start = match self.locate(address, 0) {
            Some(at) => at,
            None => {
                return None;
            },
        };
        let length = self.bytes.len();
        let ghost tail = self.tail(address);
        let mut units: Vec<u16> = Vec::new();
        let mut at = start;
        loop
            invariant
                start <= at <= length,
                length == self.bytes@.len(),
                start == address - self.base,
                tail == self.bytes@.skip(start as int),
                at - start == 2 * units@.len(),
                forall|i: int|
                    0 <= i < units@.len() ==> units@[i] == unit_value(#[trigger] tail.skip(2 * i))
                        && units@[i] != 0,
            decreases length - at,
        {
            if length - at < 2 {
                assert forall|n: int| !wide_terminated_at(tail, n) by {
                    if wide_terminated_at(tail, n) {
                        if n < units@.len() {
                            assert(unit_value(tail.skip(2 * n)) != 0);
                        }
                    }
                }
                return None;
            }
            let unit = self.bytes[at] as u16 + 0x100 * (self.bytes[at + 1] as u16);
            proof {
                let k = units@.len() as int;
                assert(tail.skip(2 * k)[0] == self.bytes@[at as int]);
                assert(tail.skip(2 * k)[1] == self.bytes@[at + 1]);
                assert(unit == unit_value(tail.skip(2 * k)));
            }
            if unit == 0 {
                proof {
                    let n = units@.len() as int;
                    assert(wide_terminated_at(tail, n));
                    let chosen = choose|m: int| wide_terminated_at(tail, m);
                    lemma_wide_terminator_unique(tail, n, chosen);
                    assert(units@ == Seq::new(
                        n as nat,
                        |i: int| unit_value(tail.skip(2 * i)) as u16,
                    ));
                }
                return Some(units);
            }
            units.push(unit);
            at += 2;
        }
    }

    /// Reads and decodes the zero-terminated text at `address`.
    pub fn read_text(&self, address: u64, encoding: TextEncoding) -> (r: Option<String>)
        ensures
            text_view(r) == self.spec_read_text(address, encoding),
    {
        match encoding {
            TextEncoding::Narrow => match self.read_bytes(address) {
                Some(bytes) => decode_narrow(bytes.as_slice()),
                None => None,
            },
            TextEncoding::Wide => match self.read_units(address) {
                Some(units) => decode_wide(units.as_slice()),
                None => None,
            },
        }
    }

    /// Walks the chain of `offsets` from `root` through the image and
    /// returns the value at its end, or `None` when the chain is broken.
    pub fn follow(&self, root: u64, offsets: Vec<u64>, threshold: u64) -> (r: Option<u64>)
        ensures
            r == chain_value(self.memory(), root, offsets@, threshold),
    {
        let ghost memory = self.memory();
        let mut walk = ChainWalk::start(root, offsets, threshold);
        loop
            invariant
                memory == self.memory(),
                walk@.outcome(memory) == chain_value(memory, root, offsets@, threshold),
            decreases walk@.pending_reads(),
        {
            match walk.request() {
                WalkRequest::Finished { value } => {
                    proof {
                        lemma_finished_is_outcome(walk@, memory);
                    }
                    return value;
                },
                WalkRequest::Read { address } => {
                    let word = self.read_word(address);
                    proof {
                        lemma_supply_keeps_outcome(walk@, memory, word);
                    }
                    walk.supply(word);
                },
            }
        }
    }

    /// Recovers the text that the chain of `offsets` from `root` leads to.
    pub fn recover_text(
        &self,
        root: u64,
        offsets: Vec<u64>,
        threshold: u64,
        encoding: TextEncoding,
    ) -> (r: Option<String>)
        ensures
            text_view(r) == self.spec_recover_text(root, offsets@, threshold, encoding),
    {
        match self.follow(root, offsets, threshold) {
            Some(tagged) => match text_address(tagged, threshold) {
                Some(address) => self.read_text(address, encoding),
                None => None,
            },
            None => None,
        }
    }
}

/// The first zero byte of a sequence is in one place only.
pub proof fn lemma_terminator_unique(bytes: Seq<u8>, a: int, b: int)
    requires
        terminated_at(bytes, a),
        terminated_at(bytes, b),
    ensures
        a == b,
{
    if a < b {
        assert(bytes[a] != 0);
    } else if b < a {
        assert(bytes[b] != 0);
    }
}

/// The first zero unit of a sequence is in one place only.
pub proof fn lemma_wide_terminator_unique(bytes: Seq<u8>, a: int, b: int)
    requires
        wide_terminated_at(bytes, a),
        wide_terminated_at(bytes, b),
    ensures
        a == b,
{
    if a < b {
        assert(unit_value(bytes.skip(2 * a)) != 0);
    } else if b < a {
        assert(unit_value(bytes.skip(2 * b)) != 0);
    }
}

} // verus!
