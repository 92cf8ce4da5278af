//! What an interceptor does with one call.
//!
//! The interception is a dialogue. It tells its caller what to do next, a
//! native call, a read or a send, and the caller reports what came of it.
//! However the dialogue goes, it ends with the context given back and the
//! original function called; nothing that is read or reported changes that.
//!
//! At the function that raises a behaviour event the name of the character
//! is recovered and, if the filter admits it, reported with the name of
//! the event. At the function that fills the globals of a script state the
//! listener's own script function is registered.

use crate::context::{context_view, ContextView, HookContext};
use crate::filter::{includes, spec_includes};
use crate::functions::HookPoint;
use crate::telemetry::{
    debug_record, decimal, destination, named_record, spec_named_record, Datagram,
};
use crate::text::{decode_narrow, narrow_text};
use crate::walker::{non_null, spec_text_address, text_address, ChainWalk, WalkRequest, WalkView};
use vstd::prelude::*;
use vstd::string::StringExecFns;

verus! {

/// From the behaviour context to the character that it belongs to.
pub const CHARACTER_OFFSET: u64 = 0x0;

/// From the character to the tagged pointer to its name.
pub const NAME_OFFSET: u64 = 0x40;

/// The chain from the behaviour context to the name of its character.
pub open spec fn identifier_chain() -> Seq<u64> {
    seq![CHARACTER_OFFSET, NAME_OFFSET]
}

/// How far an interception has come: what it is waiting to be told.
#[derive(Clone, Copy, Debug, PartialEq, Eq)]
pub enum Stage {
    /// The context, copied out under its lock.
    Acquiring,
    /// That the script function was registered.
    Registering,
    /// The behaviour object of the calling script.
    QueryingSelf,
    /// The behaviour context of that object.
    QueryingContext,
    /// A word on the way to the name.
    Walking,
    /// The bytes of the name.
    ReadingIdentifier,
    /// The pointer to the name of the event.
    QueryingEventName,
    /// The bytes of the name of the event.
    ReadingEventName,
    /// That the record was handed to the transport.
    Sending,
    /// That the lock was given back.
    Releasing,
    /// Nothing: the original function has been asked for.
    Calling,
}

/// What the caller reports.
#[derive(Debug)]
pub enum Event {
    /// The lock is taken; the context is as given, absent if none exists yet.
    Context(Option<HookContext>),
    /// A native call returned this value, or this word was read.
    Word(u64),
    /// The word could not be read.
    Unreadable,
    /// These bytes precede the terminator at the address that was named.
    Bytes(Vec<u8>),
    /// The action was carried out and has nothing to report.
    Done,
}

/// An event with its text as characters.
pub enum EventView {
    Context(Option<ContextView>),
    Word(u64),
    Unreadable,
    Bytes(Seq<u8>),
    Done,
}

impl View for Event {
    type V = EventView;

    open spec fn view(&self) -> EventView {
        match self {
            Event::Context(context) => EventView::Context(context_view(*context)),
            Event::Word(word) => EventView::Word(*word),
            Event::Unreadable => EventView::Unreadable,
            Event::Bytes(bytes) => EventView::Bytes(bytes@),
            Event::Done => EventView::Done,
        }
    }
}

/// What the caller is to do next.
#[derive(Debug)]
pub enum Action {
    /// Take the lock of the context and copy the context out.
    AcquireContext,
    /// Ask the host for the behaviour object of the calling script.
    QuerySelf,
    /// Ask the host for the behaviour context of `owner`.
    QueryBehaviorContext { owner: u64 },
    /// Read the word at `address`.
    ReadWord { address: u64 },
    /// Read the bytes from `address` up to their terminator.
    ReadText { address: u64 },
    /// Ask the host for the pointer to the first argument of the script call.
    QueryEventName,
    /// Register the listener's script function under `name` in the script
    /// state that is being filled.
    RegisterFunction { name: String },
    /// Send the datagram, and echo its payload if `echo` is set.
    Send { datagram: Datagram, echo: bool },
    /// Give the lock of the context back.
    ReleaseContext,
    /// Call the original function with the arguments of the intercepted call.
    CallThrough,
}

/// An action with its text as characters.
pub enum ActionView {
    AcquireContext,
    QuerySelf,
    QueryBehaviorContext { owner: u64 },
    ReadWord { address: u64 },
    ReadText { address: u64 },
    QueryEventName,
    RegisterFunction { name: Seq<char> },
    Send { destination: Seq<char>, payload: Seq<char>, echo: bool },
    ReleaseContext,
    CallThrough,
}

impl View for Action {
    type V = ActionView;

    open spec fn view(&self) -> ActionView {
        match self {
            Action::AcquireContext => ActionView::AcquireContext,
            Action::QuerySelf => ActionView::QuerySelf,
            Action::QueryBehaviorContext { owner } => ActionView::QueryBehaviorContext {
                owner: *owner,
            },
            Action::ReadWord { address } => ActionView::ReadWord { address: *address },
            Action::ReadText { address } => ActionView::ReadText { address: *address },
            Action::QueryEventName => ActionView::QueryEventName,
            Action::RegisterFunction { name } => ActionView::RegisterFunction { name: name@ },
            Action::Send { datagram, echo } => ActionView::Send {
                destination: datagram.destination@,
                payload: datagram.payload@,
                echo: *echo,
            },
            Action::ReleaseContext => ActionView::ReleaseContext,
            Action::CallThrough => ActionView::CallThrough,
        }
    }
}

/// One intercepted call, as far as it has been handled.
#[derive(Debug)]
pub struct Interception {
    point: HookPoint,
    stage: Stage,
    context: Option<HookContext>,
    walk: Option<ChainWalk>,
    identifier: Option<String>,
}

/// An interception as contracts see it.
pub struct InterceptionView {
    /// The function whose call is being handled.
    pub point: HookPoint,
    pub stage: Stage,
    /// The context that was copied out.
    pub context: Option<ContextView>,
    /// The walk to the name, once it has begun.
    pub walk: Option<WalkView>,
    /// The identifier, once it has been recovered and admitted.
    pub identifier: Option<Seq<char>>,
}

impl View for Interception {
    type V = InterceptionView;

    closed spec fn view(&self) -> InterceptionView {
        InterceptionView {
            point: self.point,
            stage: self.stage,
            context: context_view(self.context),
            walk: match self.walk {
                Some(walk) => Some(walk@),
                None => None,
            },
            identifier: match self.identifier {
                Some(identifier) => Some(identifier@),
                None => None,
            },
        }
    }
}

impl InterceptionView {
    /// An interception that has asked for the context and nothing else.
    pub open spec fn initial(point: HookPoint) -> InterceptionView {
        InterceptionView {
            point,
            stage: Stage::Acquiring,
            context: None,
            walk: None,
            identifier: None,
        }
    }

    /// Giving up on the event: the lock goes back, then the call goes through.
    pub open spec fn released(self) -> (InterceptionView, ActionView) {
        (InterceptionView { stage: Stage::Releasing, ..self }, ActionView::ReleaseContext)
    }

    /// Going on with a walk: another word is read, or, at the end of the
    /// chain, the characters behind the tagged pointer that it led to.
    pub open spec fn walking(self, walk: WalkView) -> (InterceptionView, ActionView) {
        let carried = InterceptionView { walk: Some(walk), ..self };
        match walk.request() {
            WalkRequest::Read { address } => (
                InterceptionView { stage: Stage::Walking, ..carried },
                ActionView::ReadWord { address },
            ),
            WalkRequest::Finished { value: Some(tagged) } => match spec_text_address(
                tagged,
                walk.threshold,
            ) {
                Some(address) => (
                    InterceptionView { stage: Stage::ReadingIdentifier, ..carried },
                    ActionView::ReadText { address },
                ),
                None => carried.released(),
            },
            WalkRequest::Finished { value: None } => carried.released(),
        }
    }

    /// The interception after `event`, and what the caller is to do next.
    /// An event that does not answer what was asked ends the handling of
    /// the event at once.
    pub open spec fn advance(self, event: EventView) -> (InterceptionView, ActionView) {
        match self.stage {
            Stage::Acquiring => match event {
                EventView::Context(Some(context)) => match self.point {
                    HookPoint::HkbFireEvent => (
                        InterceptionView {
                            stage: Stage::QueryingSelf,
                            context: Some(context),
                            ..self
                        },
                        ActionView::QuerySelf,
                    ),
                    HookPoint::PushHksGlobals => (
                        InterceptionView {
                            stage: Stage::Registering,
                            context: Some(context),
                            ..self
                        },
                        ActionView::RegisterFunction { name: "DebugSend"@ },
                    ),
                },
                _ => self.released(),
            },
            Stage::Registering => self.released(),
            Stage::QueryingSelf => match event {
                EventView::Word(owner) => (
                    InterceptionView { stage: Stage::QueryingContext, ..self },
                    ActionView::QueryBehaviorContext { owner },
                ),
                _ => self.released(),
            },
            Stage::QueryingContext => match (event, self.context) {
                (EventView::Word(root), Some(context)) => self.walking(
                    WalkView {
                        current: Some(root),
                        remaining: identifier_chain(),
                        threshold: context.threshold,
                    },
                ),
                _ => self.released(),
            },
            Stage::Walking => match (event, self.walk) {
                (EventView::Word(word), Some(walk)) => self.walking(walk.supplied(Some(word))),
                (EventView::Unreadable, Some(walk)) => self.walking(walk.supplied(None)),
                _ => self.released(),
            },
            Stage::ReadingIdentifier => match (event, self.context) {
                (EventView::Bytes(bytes), Some(context)) => match narrow_text(bytes) {
                    Some(identifier) => if spec_includes(identifier, context.prefix) {
                        (
                            InterceptionView {
                                stage: Stage::QueryingEventName,
                                identifier: Some(identifier),
                                ..self
                            },
                            ActionView::QueryEventName,
                        )
                    } else {
                        self.released()
                    },
                    None => self.released(),
                },
                _ => self.released(),
            },
            Stage::QueryingEventName => match event {
                EventView::Word(address) => if address != 0 {
                    (
                        InterceptionView { stage: Stage::ReadingEventName, ..self },
                        ActionView::ReadText { address },
                    )
                } else {
                    self.released()
                },
                _ => self.released(),
            },
            Stage::ReadingEventName => match (event, self.context, self.identifier) {
                (EventView::Bytes(bytes), Some(context), Some(identifier)) => match narrow_text(
                    bytes,
                ) {
                    Some(name) => (
                        InterceptionView { stage: Stage::Sending, ..self },
                        ActionView::Send {
                            destination: "127.0.0.1:"@ + decimal(context.port as int),
                            payload: spec_named_record(identifier, name),
                            echo: context.print,
                        },
                    ),
                    None => self.released(),
                },
                _ => self.released(),
            },
            Stage::Sending => self.released(),
            Stage::Releasing => (
                InterceptionView { stage: Stage::Calling, ..self },
                ActionView::CallThrough,
            ),
            Stage::Calling => (self, ActionView::CallThrough),
        }
    }

    /// Whether the lock of the context is with the interception: from the
    /// moment it asks for the context until it has asked to give it back.
    pub open spec fn holds_lock(self) -> bool {
        self.stage != Stage::Releasing && self.stage != Stage::Calling
    }

    /// An upper bound on the number of actions before the original function
    /// is called.
    pub open spec fn steps_left(self) -> nat {
        match self.stage {
            Stage::Acquiring => 11,
            Stage::Registering => 2,
            Stage::QueryingSelf => 10,
            Stage::QueryingContext => 9,
            Stage::Walking => 6 + match self.walk {
                Some(walk) => walk.pending_reads(),
                None => 0,
            },
            Stage::ReadingIdentifier => 5,
            Stage::QueryingEventName => 4,
            Stage::ReadingEventName => 3,
            Stage::Sending => 2,
            Stage::Releasing => 1,
            Stage::Calling => 0,
        }
    }

    /// Whether an identifier that is kept for the record was admitted by
    /// the prefix of the context.
    pub open spec fn admitted(self) -> bool {
        (self.stage == Stage::QueryingEventName || self.stage == Stage::ReadingEventName) ==> {
            &&& self.context is Some
            &&& self.identifier is Some
            &&& spec_includes(self.identifier.unwrap(), self.context.unwrap().prefix)
        }
    }
}

/// Whatever is reported, every step brings the call of the original
/// function nearer, and once it has been asked for, it is all that is asked.
pub proof fn lemma_original_is_always_called(state: InterceptionView, event: EventView)
    ensures
        state.stage != Stage::Calling ==> state.advance(event).0.steps_left() < state.steps_left(),
        state.stage == Stage::Calling ==> state.advance(event) == (
            state,
            ActionView::CallThrough,
        ),
        state.steps_left() == 0 <==> state.stage == Stage::Calling,
{
}

/// The lock is given back before the original function is called: the call
/// is asked for only by an interception that no longer holds the lock,
/// the one action that ends the holding is the release, and the lock is
/// never asked for a second time.
pub proof fn lemma_release_precedes_call_through(state: InterceptionView, event: EventView)
    ensures
        state.advance(event).1 is CallThrough <==> !state.holds_lock(),
        state.holds_lock() ==> (state.advance(event).1 is ReleaseContext <==> !state.advance(
            event,
        ).0.holds_lock()),
        !(state.advance(event).1 is AcquireContext),
        !state.holds_lock() ==> !state.advance(event).0.holds_lock(),
{
}

/// A record is sent only for an identifier that the prefix admits, and it
/// is the identifier, a colon and the name of the event.
pub proof fn lemma_only_admitted_events_are_sent(state: InterceptionView, event: EventView)
    requires
        state.admitted(),
    ensures
        state.advance(event).0.admitted(),
        state.advance(event).1 is Send ==> {
            &&& state.stage == Stage::ReadingEventName
            &&& event is Bytes
            &&& narrow_text(event->Bytes_0) is Some
            &&& spec_includes(state.identifier.unwrap(), state.context.unwrap().prefix)
            &&& state.advance(event).1->payload == spec_named_record(
                state.identifier.unwrap(),
                narrow_text(event->Bytes_0).unwrap(),
            )
        },
{
}

/// The datagram for a message that a script of the host asked to have
/// sent, with the flag that says whether it is echoed. `bytes` are the
/// bytes of the message without their terminator; bytes that are no text
/// give no datagram.
pub fn script_message(context: &HookContext, bytes: &[u8]) -> (r: Option<(Datagram, bool)>)
    ensures
        r is Some <==> narrow_text(bytes@) is Some,
        r is Some ==> {
            &&& r.unwrap().0.destination@ == "127.0.0.1:"@ + decimal(context.port as int)
            &&& r.unwrap().0.payload@ == "debug:"@ + narrow_text(bytes@).unwrap()
            &&& r.unwrap().1 == context.print
        },
{
    match decode_narrow(bytes) {
        Some(message) => Some(
            (
                Datagram {
                    destination: destination(context.port),
                    payload: debug_record(message.as_str()),
                },
                context.print,
            ),
        ),
        None => None,
    }
}

fn chain() -> (offsets: Vec<u64>)
    ensures
        offsets@ == identifier_chain(),
{
    let mut offsets: Vec<u64> = Vec::new();
    offsets.push(CHARACTER_OFFSET);
    offsets.push(NAME_OFFSET);
    assert(offsets@ =~= identifier_chain());
    offsets
}

impl Interception {
    /// Begins the handling of a call. The first thing to do is to take the
    /// lock of the context and to report the context.
    pub fn begin(point: HookPoint) -> (r: (Self, Action))
        ensures
            r.0@ == InterceptionView::initial(point),
            r.1@ == ActionView::AcquireContext,
    {
        (
            Interception {
                point,
                stage: Stage::Acquiring,
                context: None,
                walk: None,
                identifier: None,
            },
            Action::AcquireContext,
        )
    }

    /// The function whose call is being handled.
    pub fn point(&self) -> (point: HookPoint)
        ensures
            point == self@.point,
    {
        self.point
    }

    /// What the interception is waiting to be told.
    pub fn stage(&self) -> (stage: Stage)
        ensures
            stage == self@.stage,
    {
        self.stage
    }

    /// Whether the original function has been asked for.
    pub fn is_finished(&self) -> (r: bool)
        ensures
            r == (self@.stage == Stage::Calling),
    {
        match self.stage {
            Stage::Calling => true,
            _ => false,
        }
    }

    fn released(
        point: HookPoint,
        context: Option<HookContext>,
        walk: Option<ChainWalk>,
        identifier: Option<String>,
    ) -> (r: (Self, Action))
        ensures
            r.0@.point == point,
            r.0@.stage == Stage::Releasing,
            r.0@.context == context_view(context),
            r.0@.walk == match walk {
                Some(walk) => Some(walk@),
                None => None,
            },
            r.0@.identifier == match identifier {
                Some(identifier) => Some(identifier@),
                None => None,
            },
            r.1@ == ActionView::ReleaseContext,
    {
        (
            Interception { point, stage: Stage::Releasing, context, walk, identifier },
            Action::ReleaseContext,
        )
    }

    fn walking(
        point: HookPoint,
        context: Option<HookContext>,
        walk: ChainWalk,
        identifier: Option<String>,
        Ghost(before): Ghost<InterceptionView>,
    ) -> (r: (Self, Action))
        requires
            before.point == point,
            before.context == context_view(context),
            before.identifier == match identifier {
                Some(identifier) => Some(identifier@),
                None => None,
            },
        ensures
            (r.0@, r.1@) == before.walking(walk@),
    {
        match walk.request() {
            WalkRequest::Read { address } => (
                Interception { point, stage: Stage::Walking, context, walk: Some(walk), identifier },
                Action::ReadWord { address },
            ),
            WalkRequest::Finished { value: Some(tagged) } => {
                match text_address(tagged, walk.threshold()) {
                    Some(address) => (
                        Interception {
                            point,
                            stage: Stage::ReadingIdentifier,
                            context,
                            walk: Some(walk),
                            identifier,
                        },
                        Action::ReadText { address },
                    ),
                    None => Self::released(point, context, Some(walk), identifier),
                }
            },
            WalkRequest::Finished { value: None } => Self::released(point, 
                context,
                Some(walk),
                identifier,
            ),
        }
    }

    /// Takes in what the caller reports and says what is to be done next.
    pub fn advance(self, event: Event) -> (r: (Self, Action))
        ensures
            (r.0@, r.1@) == self@.advance(event@),
    {
        let ghost before = self@;
        let Interception { point, stage, context, walk, identifier } = self;
        match stage {
            Stage::Acquiring => match event {
                Event::Context(Some(given)) => match point {
                    HookPoint::HkbFireEvent => (
                        Interception {
                            point,
                            stage: Stage::QueryingSelf,
                            context: Some(given),
                            walk,
                            identifier,
                        },
                        Action::QuerySelf,
                    ),
                    HookPoint::PushHksGlobals => (
                        Interception {
                            point,
                            stage: Stage::Registering,
                            context: Some(given),
                            walk,
                            identifier,
                        },
                        Action::RegisterFunction { name: String::from_str("DebugSend") },
                    ),
                },
                _ => Self::released(point, context, walk, identifier),
            },
            Stage::Registering => Self::released(point, context, walk, identifier),
            Stage::QueryingSelf => match event {
                Event::Word(owner) => (
                    Interception { point, stage: Stage::QueryingContext, context, walk, identifier },
                    Action::QueryBehaviorContext { owner },
                ),
                _ => Self::released(point, context, walk, identifier),
            },
            Stage::QueryingContext => match event {
                Event::Word(root) => match context {
                    Some(given) => {
                        let started = ChainWalk::start(root, chain(), given.threshold);
                        Self::walking(point, Some(given), started, identifier, Ghost(before))
                    },
                    None => Self::released(point, None, walk, identifier),
                },
                _ => Self::released(point, context, walk, identifier),
            },
            Stage::Walking => match event {
                Event::Word(word) => match walk {
                    Some(mut going) => {
                        going.supply(Some(word));
                        Self::walking(point, context, going, identifier, Ghost(before))
                    },
                    None => Self::released(point, context, None, identifier),
                },
                Event::Unreadable => match walk {
                    Some(mut going) => {
                        going.supply(None);
                        Self::walking(point, context, going, identifier, Ghost(before))
                    },
                    None => Self::released(point, context, None, identifier),
                },
                _ => Self::released(point, context, walk, identifier),
            },
            Stage::ReadingIdentifier => match event {
                Event::Bytes(bytes) => match context {
                    Some(given) => match decode_narrow(bytes.as_slice()) {
                        Some(found) => {
                            if includes(found.as_str(), given.prefix.as_str()) {
                                (
                                    Interception {
                                        point,
                                        stage: Stage::QueryingEventName,
                                        context: Some(given),
                                        walk,
                                        identifier: Some(found),
                                    },
                                    Action::QueryEventName,
                                )
                            } else {
                                Self::released(point, Some(given), walk, identifier)
                            }
                        },
                        None => Self::released(point, Some(given), walk, identifier),
                    },
                    None => Self::released(point, None, walk, identifier),
                },
                _ => Self::released(point, context, walk, identifier),
            },
            Stage::QueryingEventName => match event {
                Event::Word(pointer) => {
                    if let Some(address) = non_null(pointer) {
                        (
                            Interception {
                                point,
                                stage: Stage::ReadingEventName,
                                context,
                                walk,
                                identifier,
                            },
                            Action::ReadText { address },
                        )
                    } else {
                        Self::released(point, context, walk, identifier)
                    }
                },
                _ => Self::released(point, context, walk, identifier),
            },
            Stage::ReadingEventName => match event {
                Event::Bytes(bytes) => match (context, identifier) {
                    (Some(given), Some(found)) => match decode_narrow(bytes.as_slice()) {
                        Some(name) => {
                            let datagram = Datagram {
                                destination: destination(given.port),
                                payload: named_record(found.as_str(), name.as_str()),
                            };
                            let echo = given.print;
                            (
                                Interception {
                                    point,
                                    stage: Stage::Sending,
                                    context: Some(given),
                                    walk,
                                    identifier: Some(found),
                                },
                                Action::Send { datagram, echo },
                            )
                        },
                        None => Self::released(point, Some(given), walk, Some(found)),
                    },
                    (context, identifier) => Self::released(point, context, walk, identifier),
                },
                _ => Self::released(point, context, walk, identifier),
            },
            Stage::Sending => Self::released(point, context, walk, identifier),
            Stage::Releasing => (
                Interception { point, stage: Stage::Calling, context, walk, identifier },
                Action::CallThrough,
            ),
            Stage::Calling => (
                Interception { point, stage: Stage::Calling, context, walk, identifier },
                Action::CallThrough,
            ),
        }
    }
}

} // verus!
