//! Turning a known offset or a scan result into an absolute address.

use crate::pattern::{first_match, FunctionSignature, PatternByte};
use vstd::prelude::*;
use vstd::slice::slice_subrange;

verus! {

/// Why no address could be produced.
#[derive(Clone, Copy, Debug, PartialEq, Eq)]
pub enum ResolutionFailure {
    /// The offset lies outside the image, or the signature matches nowhere.
    NotFound,
    /// No offsets are known for the host revision.
    UnsupportedVersion,
}

/// A function of the host: where it starts and how many arguments it takes.
#[derive(Clone, Copy, Debug, PartialEq, Eq)]
pub struct ResolvedFunction {
    pub address: u64,
    pub arity: u8,
}

/// The loaded code image of the host: where it starts and how many bytes
/// the host reports for it.
#[derive(Clone, Copy, Debug, PartialEq, Eq)]
pub struct AddressResolver {
    pub base: u64,
    pub image_size: u32,
}

impl AddressResolver {
    /// The absolute address of the byte `offset` bytes into the image. The
    /// first byte of the image is never a function, and an address beyond
    /// the image or beyond the address space is none either.
    pub open spec fn spec_resolve_offset(self, offset: int) -> Option<u64> {
        if 0 < offset < self.image_size && self.base + offset <= u64::MAX {
            Some((self.base + offset) as u64)
        } else {
            None
        }
    }

    /// The part of `image` that a scan may read: no more than the reported
    /// image size.
    pub open spec fn scanned_region(self, image: Seq<u8>) -> Seq<u8> {
        if image.len() <= self.image_size {
            image
        } else {
            image.take(self.image_size as int)
        }
    }

    /// The entry of the function that `pattern` identifies: the lowest match
    /// in the scanned region, moved back by `displacement`.
    pub open spec fn spec_resolve_signature(
        self,
        image: Seq<u8>,
        pattern: Seq<PatternByte>,
        displacement: int,
    ) -> Option<u64> {
        match first_match(pattern, self.scanned_region(image)) {
            Some(found) => self.spec_resolve_offset(found - displacement),
            None => None,
        }
    }

    /// A resolver for the image of `image_size` bytes that starts at `base`.
    pub fn new(base: u64, image_size: u32) -> (r: Self)
        ensures
            r.base == base,
            r.image_size == image_size,
    {
        AddressResolver { base, image_size }
    }

    /// Resolves a fixed offset from the start of the image.
    pub fn resolve_offset(&self, offset: u32) -> (r: Result<u64, ResolutionFailure>)
        ensures
            match self.spec_resolve_offset(offset as int) {
                Some(address) => r == Ok::<u64, ResolutionFailure>(address),
                None => r == Err::<u64, ResolutionFailure>(ResolutionFailure::NotFound),
            },
    {
        if offset == 0 || offset >= self.image_size {
            return Err(ResolutionFailure::NotFound);
        }
        match self.base.checked_add(offset as u64) {
            Some(address) => Ok(address),
            None => Err(ResolutionFailure::NotFound),
        }
    }

    /// Resolves the entry that lies `displacement` bytes before the offset
    /// `found` at which a signature matched.
    pub fn resolve_match(&self, found: usize, displacement: i64) -> (r: Result<
        u64,
        ResolutionFailure,
    >)
        ensures
            match self.spec_resolve_offset(found - displacement) {
                Some(address) => r == Ok::<u64, ResolutionFailure>(address),
                None => r == Err::<u64, ResolutionFailure>(ResolutionFailure::NotFound),
            },
            r is Ok ==> r.unwrap() == self.base + (found - displacement),
    {
        let entry: i128 = found as i128 - displacement as i128;
        if entry <= 0 || entry >= self.image_size as i128 {
            return Err(ResolutionFailure::NotFound);
        }
        self.resolve_offset(entry as u32)
    }

    /// Scans the image for `signature`, reading no further than the reported
    /// image size, and resolves the entry of the function it identifies.
    /// `image` holds the bytes of the image from its first byte on.
    pub fn resolve_signature(&self, image: &[u8], signature: &FunctionSignature) -> (r: Result<
        u64,
        ResolutionFailure,
    >)
        ensures
            match self.spec_resolve_signature(
                image@,
                signature.pattern@,
                signature.displacement as int,
            ) {
                Some(address) => r == Ok::<u64, ResolutionFailure>(address),
                None => r == Err::<u64, ResolutionFailure>(ResolutionFailure::NotFound),
            },
            r is Ok ==> first_match(signature.pattern@, self.scanned_region(image@)) is Some
                && r.unwrap() == self.base + (first_match(
                signature.pattern@,
                self.scanned_region(image@),
            ).unwrap() - signature.displacement),
    {
        let region = if image.len() <= self.image_size as usize {
            image
        } else {
            slice_subrange(image, 0, self.image_size as usize)
        };
        assert(region@ == self.scanned_region(image@));
        match signature.scan(region) {
            Some(found) => self.resolve_match(found, signature.displacement),
            None => Err(ResolutionFailure::NotFound),
        }
    }
}

} // verus!
