//! The functions of the host that the listener calls or intercepts.

use crate::resolver::{AddressResolver, ResolutionFailure, ResolvedFunction};
use vstd::prelude::*;

verus! {

/// A build of the host, by the three parts of its version number.
#[derive(Clone, Copy, Debug, PartialEq, Eq)]
pub struct HostRevision {
    pub major: u16,
    pub minor: u16,
    pub patch: u16,
}

/// Where each function starts, as an offset from the start of the image.
/// The offsets belong to one build of the host and mean nothing in another.
#[derive(Clone, Copy, Debug, PartialEq, Eq)]
pub struct FunctionOffsets {
    pub pushhksglobals1: u32,
    pub hks_addnamedcclosure: u32,
    pub hkb_fire_event: u32,
    pub lua_getstring: u32,
    pub lua_gethkbself: u32,
    pub get_hkbcontext: u32,
}

/// The two places at which calls are intercepted.
#[derive(Clone, Copy, Debug, PartialEq, Eq)]
pub enum HookPoint {
    /// The function that fills the global table of a script state.
    PushHksGlobals,
    /// The function that raises a behaviour event.
    HkbFireEvent,
}

impl HostRevision {
    /// Whether offsets are known for this build.
    pub open spec fn supported(self) -> bool {
        self.major == 1 && self.minor == 16 && self.patch == 1
    }
}

impl FunctionOffsets {
    /// The offsets of build 1.16.1.
    pub open spec fn spec_v1_16_1() -> FunctionOffsets {
        FunctionOffsets {
            pushhksglobals1: 0x145ce30,
            hks_addnamedcclosure: 0x145d9d0,
            hkb_fire_event: 0x145a960,
            lua_getstring: 0x14e26c0,
            lua_gethkbself: 0x14522e0,
            get_hkbcontext: 0x1451760,
        }
    }

    /// The offsets of build 1.16.1.
    pub fn v1_16_1() -> (offsets: Self)
        ensures
            offsets == Self::spec_v1_16_1(),
    {
        FunctionOffsets {
            pushhksglobals1: 0x145ce30,
            hks_addnamedcclosure: 0x145d9d0,
            hkb_fire_event: 0x145a960,
            lua_getstring: 0x14e26c0,
            lua_gethkbself: 0x14522e0,
            get_hkbcontext: 0x1451760,
        }
    }

    /// The offsets for a build of the host, where they are known.
    pub fn for_revision(revision: HostRevision) -> (r: Result<Self, ResolutionFailure>)
        ensures
            revision.supported() ==> r == Ok::<Self, ResolutionFailure>(Self::spec_v1_16_1()),
            !revision.supported() ==> r == Err::<Self, ResolutionFailure>(
                ResolutionFailure::UnsupportedVersion,
            ),
    {
        if revision.major == 1 && revision.minor == 16 && revision.patch == 1 {
            Ok(Self::v1_16_1())
        } else {
            Err(ResolutionFailure::UnsupportedVersion)
        }
    }
}

/// The functions of the host by their absolute addresses. A function that
/// could not be resolved is absent.
#[derive(Clone, Copy, Debug, PartialEq, Eq)]
pub struct GameFunctions {
    pub pushhksglobals1_fn: Option<ResolvedFunction>,
    pub hks_addnamedcclosure_fn: Option<ResolvedFunction>,
    pub hkb_fire_event_fn: Option<ResolvedFunction>,
    pub lua_getstring_fn: Option<ResolvedFunction>,
    pub lua_gethkbself_fn: Option<ResolvedFunction>,
    pub get_hkbcontext_fn: Option<ResolvedFunction>,
}

/// The function at `offset` in the image that `resolver` describes.
pub open spec fn spec_resolved(resolver: AddressResolver, offset: u32, arity: u8) -> Option<
    ResolvedFunction,
> {
    match resolver.spec_resolve_offset(offset as int) {
        Some(address) => Some(ResolvedFunction { address, arity }),
        None => None,
    }
}

fn resolved(resolver: &AddressResolver, offset: u32, arity: u8) -> (r: Option<ResolvedFunction>)
    ensures
        r == spec_resolved(*resolver, offset, arity),
{
    match resolver.resolve_offset(offset) {
        Ok(address) => Some(ResolvedFunction { address, arity }),
        Err(_) => None,
    }
}

impl GameFunctions {
    /// The functions that `offsets` name in the image that `resolver` describes.
    pub open spec fn spec_resolve(resolver: AddressResolver, offsets: FunctionOffsets) -> Self {
        GameFunctions {
            pushhksglobals1_fn: spec_resolved(resolver, offsets.pushhksglobals1, 1),
            hks_addnamedcclosure_fn: spec_resolved(resolver, offsets.hks_addnamedcclosure, 3),
            hkb_fire_event_fn: spec_resolved(resolver, offsets.hkb_fire_event, 1),
            lua_getstring_fn: spec_resolved(resolver, offsets.lua_getstring, 3),
            lua_gethkbself_fn: spec_resolved(resolver, offsets.lua_gethkbself, 1),
            get_hkbcontext_fn: spec_resolved(resolver, offsets.get_hkbcontext, 2),
        }
    }

    /// The function to intercept at `point`, if it and every function that
    /// the interceptor at that point calls could be resolved.
    pub open spec fn spec_target(self, point: HookPoint) -> Option<ResolvedFunction> {
        match point {
            HookPoint::PushHksGlobals => if self.hks_addnamedcclosure_fn is Some
                && self.lua_getstring_fn is Some {
                self.pushhksglobals1_fn
            } else {
                None
            },
            HookPoint::HkbFireEvent => if self.lua_getstring_fn is Some
                && self.lua_gethkbself_fn is Some && self.get_hkbcontext_fn is Some {
                self.hkb_fire_event_fn
            } else {
                None
            },
        }
    }

    /// Resolves every function from its offset. Each is resolved on its
    /// own: one that lies outside the image leaves the others as they are.
    pub fn resolve(resolver: &AddressResolver, offsets: &FunctionOffsets) -> (functions: Self)
        ensures
            functions == Self::spec_resolve(*resolver, *offsets),
    {
        GameFunctions {
            pushhksglobals1_fn: resolved(resolver, offsets.pushhksglobals1, 1),
            hks_addnamedcclosure_fn: resolved(resolver, offsets.hks_addnamedcclosure, 3),
            hkb_fire_event_fn: resolved(resolver, offsets.hkb_fire_event, 1),
            lua_getstring_fn: resolved(resolver, offsets.lua_getstring, 3),
            lua_gethkbself_fn: resolved(resolver, offsets.lua_gethkbself, 1),
            get_hkbcontext_fn: resolved(resolver, offsets.get_hkbcontext, 2),
        }
    }

    /// The function to intercept at `point`, or the reason why the hook at
    /// that point cannot be installed.
    pub fn target(&self, point: HookPoint) -> (r: Result<ResolvedFunction, ResolutionFailure>)
        ensures
            match self.spec_target(point) {
                Some(function) => r == Ok::<ResolvedFunction, ResolutionFailure>(function),
                None => r == Err::<ResolvedFunction, ResolutionFailure>(
                    ResolutionFailure::NotFound,
                ),
            },
    {
        let wanted = match point {
            HookPoint::PushHksGlobals => {
                if self.hks_addnamedcclosure_fn.is_some() && self.lua_getstring_fn.is_some() {
                    self.pushhksglobals1_fn
                } else {
                    None
                }
            },
            HookPoint::HkbFireEvent => {
                if self.lua_getstring_fn.is_some() && self.lua_gethkbself_fn.is_some()
                    && self.get_hkbcontext_fn.is_some() {
                    self.hkb_fire_event_fn
                } else {
                    None
                }
            },
        };
        match wanted {
            Some(function) => Ok(function),
            None => Err(ResolutionFailure::NotFound),
        }
    }
}

} // verus!
