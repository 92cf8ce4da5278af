//! What a whole interception amounts to, given the host it runs in.
//!
//! An interception decides step by step. Here a host is described by what
//! it would answer to each request, and the steps are put together: what
//! is sent in the course of one intercepted call is exactly the record of
//! the event that the memory of the host holds, if the filter admits it.

use crate::context::ContextView;
use crate::filter::spec_includes;
use crate::functions::HookPoint;
use crate::intercept::{
    identifier_chain, lemma_original_is_always_called, lemma_release_precedes_call_through,
    ActionView, EventView, InterceptionView, Stage,
};
use crate::telemetry::{decimal, spec_named_record};
use crate::text::narrow_text;
use crate::walker::{
    chain_value, lemma_finished_is_outcome, lemma_supply_keeps_outcome, spec_text_address,
    WalkRequest, WalkView,
};
use vstd::prelude::*;

verus! {

/// A host at the moment of one call: what it answers to each request.
pub struct HostModel {
    /// The context that is in place, if any.
    pub context: Option<ContextView>,
    /// The behaviour object of the calling script.
    pub owner: u64,
    /// The behaviour context of that object.
    pub root: u64,
    /// The pointer to the first argument of the script call.
    pub argument: u64,
    /// The word at each address, where one can be read.
    pub words: spec_fn(u64) -> Option<u64>,
    /// The bytes in front of the terminator at each address, where there
    /// are any.
    pub bytes: spec_fn(u64) -> Option<Seq<u8>>,
}

impl HostModel {
    /// What the host reports when it has done what it was asked.
    pub open spec fn answer(self, action: ActionView) -> EventView {
        match action {
            ActionView::AcquireContext => EventView::Context(self.context),
            ActionView::QuerySelf => EventView::Word(self.owner),
            ActionView::QueryBehaviorContext { owner } => EventView::Word(self.root),
            ActionView::ReadWord { address } => match (self.words)(address) {
                Some(word) => EventView::Word(word),
                None => EventView::Unreadable,
            },
            ActionView::ReadText { address } => match (self.bytes)(address) {
                Some(bytes) => EventView::Bytes(bytes),
                None => EventView::Unreadable,
            },
            ActionView::QueryEventName => EventView::Word(self.argument),
            _ => EventView::Done,
        }
    }

    /// The text at `address`, if the bytes there are text.
    pub open spec fn text(self, address: u64) -> Option<Seq<char>> {
        match (self.bytes)(address) {
            Some(bytes) => narrow_text(bytes),
            None => None,
        }
    }

    /// The payload that reports an event of the character with the given
    /// identifier, if it is to be reported: the identifier passes the
    /// prefix and the name of the event can be had.
    pub open spec fn report_of(self, context: ContextView, identifier: Option<Seq<char>>) -> Option<
        Seq<char>,
    > {
        match identifier {
            Some(found) => if spec_includes(found, context.prefix) && self.argument != 0 {
                match self.text(self.argument) {
                    Some(name) => Some(spec_named_record(found, name)),
                    None => None,
                }
            } else {
                None
            },
            None => None,
        }
    }

    /// The payload that reports the event when the chain from the behaviour
    /// context ends with `end`: the identifier is the text behind that
    /// tagged pointer.
    pub open spec fn report_from(self, context: ContextView, end: Option<u64>) -> Option<
        Seq<char>,
    > {
        match end {
            Some(tagged) => match spec_text_address(tagged, context.threshold) {
                Some(address) => self.report_of(context, self.text(address)),
                None => None,
            },
            None => None,
        }
    }

    /// The payload that reports the event, if it is to be reported: there
    /// is a context, the identifier of the character can be recovered and
    /// passes the prefix, and the name of the event can be had.
    pub open spec fn report(self) -> Option<Seq<char>> {
        match self.context {
            Some(context) => self.report_from(
                context,
                chain_value(self.words, self.root, identifier_chain(), context.threshold),
            ),
            None => None,
        }
    }
}

/// One thing that an interception had its caller do to the world outside
/// the host.
pub enum Effect {
    /// A payload was sent to a destination, and echoed or not.
    Sent { destination: Seq<char>, payload: Seq<char>, echo: bool },
    /// A script function was registered under a name.
    Registered { name: Seq<char> },
}

/// The effect of one action, if it has one.
pub open spec fn effect_of(action: ActionView) -> Seq<Effect> {
    match action {
        ActionView::Send { destination, payload, echo } => seq![
            Effect::Sent { destination, payload, echo },
        ],
        ActionView::RegisterFunction { name } => seq![Effect::Registered { name }],
        _ => Seq::empty(),
    }
}

/// The effects of a dialogue from `action` on, in their order, up to the
/// call of the original function or for `steps` actions at most.
pub open spec fn effects(
    state: InterceptionView,
    action: ActionView,
    host: HostModel,
    steps: nat,
) -> Seq<Effect>
    decreases steps,
{
    if steps == 0 || action is CallThrough {
        Seq::empty()
    } else {
        let next = state.advance(host.answer(action));
        effect_of(action) + effects(next.0, next.1, host, (steps - 1) as nat)
    }
}

/// Whether a dialogue from `action` on comes to the call of the original
/// function within `steps` actions.
pub open spec fn calls_through(
    state: InterceptionView,
    action: ActionView,
    host: HostModel,
    steps: nat,
) -> bool
    decreases steps,
{
    if action is CallThrough {
        true
    } else if steps == 0 {
        false
    } else {
        let next = state.advance(host.answer(action));
        calls_through(next.0, next.1, host, (steps - 1) as nat)
    }
}

/// Whether the lock of the context is held when a dialogue from `action`
/// on comes to call the original function, given whether it is held now.
/// There is no answer, `None`, when the lock is asked for while it is
/// held, which on one thread would never return, or when the call is not
/// reached within `steps` actions.
pub open spec fn lock_at_call(
    state: InterceptionView,
    action: ActionView,
    host: HostModel,
    steps: nat,
    held: bool,
) -> Option<bool>
    decreases steps,
{
    if action is CallThrough {
        Some(held)
    } else if steps == 0 || (action is AcquireContext && held) {
        None
    } else {
        let next = state.advance(host.answer(action));
        let now = if action is AcquireContext {
            true
        } else if action is ReleaseContext {
            false
        } else {
            held
        };
        lock_at_call(next.0, next.1, host, (steps - 1) as nat, now)
    }
}

/// The datagram that carries a payload under a context, if there is a payload.
pub open spec fn datagrams(context: ContextView, payload: Option<Seq<char>>) -> Seq<Effect> {
    match payload {
        Some(record) => seq![
            Effect::Sent {
                destination: "127.0.0.1:"@ + decimal(context.port as int),
                payload: record,
                echo: context.print,
            },
        ],
        None => Seq::empty(),
    }
}

proof fn lemma_unfold(state: InterceptionView, action: ActionView, host: HostModel, steps: nat)
    requires
        steps > 0,
        !(action is CallThrough),
    ensures
        effects(state, action, host, steps) == effect_of(action) + effects(
            state.advance(host.answer(action)).0,
            state.advance(host.answer(action)).1,
            host,
            (steps - 1) as nat,
        ),
        calls_through(state, action, host, steps) == calls_through(
            state.advance(host.answer(action)).0,
            state.advance(host.answer(action)).1,
            host,
            (steps - 1) as nat,
        ),
{
}

proof fn lemma_releasing(state: InterceptionView, host: HostModel, steps: nat)
    requires
        steps >= 1,
    ensures
        effects(state.released().0, state.released().1, host, steps) == Seq::<Effect>::empty(),
        calls_through(state.released().0, state.released().1, host, steps),
{
    let (held, action) = state.released();
    lemma_unfold(held, action, host, steps);
    assert(effects(held, action, host, steps) =~= Seq::<Effect>::empty());
}

proof fn lemma_sending(
    state: InterceptionView,
    context: ContextView,
    payload: Seq<char>,
    host: HostModel,
    steps: nat,
)
    requires
        state.stage == Stage::Sending,
        steps >= 2,
    ensures
        effects(
            state,
            ActionView::Send {
                destination: "127.0.0.1:"@ + decimal(context.port as int),
                payload,
                echo: context.print,
            },
            host,
            steps,
        ) == datagrams(context, Some(payload)),
        calls_through(
            state,
            ActionView::Send {
                destination: "127.0.0.1:"@ + decimal(context.port as int),
                payload,
                echo: context.print,
            },
            host,
            steps,
        ),
{
    let action = ActionView::Send {
        destination: "127.0.0.1:"@ + decimal(context.port as int),
        payload,
        echo: context.print,
    };
    lemma_unfold(state, action, host, steps);
    lemma_releasing(state, host, (steps - 1) as nat);
    assert(effects(state, action, host, steps) =~= datagrams(context, Some(payload)));
}

proof fn lemma_reading_event_name(
    state: InterceptionView,
    address: u64,
    host: HostModel,
    steps: nat,
)
    requires
        state.stage == Stage::ReadingEventName,
        state.context is Some,
        state.identifier is Some,
        steps >= 3,
    ensures
        effects(state, ActionView::ReadText { address }, host, steps) == datagrams(
            state.context.unwrap(),
            match host.text(address) {
                Some(name) => Some(spec_named_record(state.identifier.unwrap(), name)),
                None => None,
            },
        ),
        calls_through(state, ActionView::ReadText { address }, host, steps),
{
    let action = ActionView::ReadText { address };
    lemma_unfold(state, action, host, steps);
    let next = state.advance(host.answer(action));
    match host.text(address) {
        Some(name) => {
            lemma_sending(
                next.0,
                state.context.unwrap(),
                spec_named_record(state.identifier.unwrap(), name),
                host,
                (steps - 1) as nat,
            );
        },
        None => {
            lemma_releasing(state, host, (steps - 1) as nat);
        },
    }
    assert(effects(state, action, host, steps) =~= datagrams(
        state.context.unwrap(),
        match host.text(address) {
            Some(name) => Some(spec_named_record(state.identifier.unwrap(), name)),
            None => None,
        },
    ));
}

proof fn lemma_reading_identifier(
    state: InterceptionView,
    address: u64,
    host: HostModel,
    steps: nat,
)
    requires
        state.stage == Stage::ReadingIdentifier,
        state.context is Some,
        steps >= 5,
    ensures
        effects(state, ActionView::ReadText { address }, host, steps) == datagrams(
            state.context.unwrap(),
            host.report_of(state.context.unwrap(), host.text(address)),
        ),
        calls_through(state, ActionView::ReadText { address }, host, steps),
{
    let context = state.context.unwrap();
    let action = ActionView::ReadText { address };
    lemma_unfold(state, action, host, steps);
    let next = state.advance(host.answer(action));
    let expected = datagrams(context, host.report_of(context, host.text(address)));
    if host.text(address) is Some && spec_includes(host.text(address).unwrap(), context.prefix) {
        // The identifier is admitted: the name of the event is asked for.
        lemma_unfold(next.0, next.1, host, (steps - 1) as nat);
        let asked = next.0.advance(host.answer(next.1));
        if host.argument != 0 {
            lemma_reading_event_name(asked.0, host.argument, host, (steps - 2) as nat);
        } else {
            lemma_releasing(next.0, host, (steps - 2) as nat);
        }
        assert(effects(state, action, host, steps) =~= expected);
    } else {
        lemma_releasing(state, host, (steps - 1) as nat);
        assert(effects(state, action, host, steps) =~= expected);
    }
}

proof fn lemma_walking(state: InterceptionView, walk: WalkView, host: HostModel, steps: nat)
    requires
        state.context is Some,
        walk.threshold == state.context.unwrap().threshold,
        steps >= walk.pending_reads() + 5,
    ensures
        effects(state.walking(walk).0, state.walking(walk).1, host, steps) == datagrams(
            state.context.unwrap(),
            host.report_from(state.context.unwrap(), walk.outcome(host.words)),
        ),
        calls_through(state.walking(walk).0, state.walking(walk).1, host, steps),
    decreases walk.pending_reads(),
{
    let context = state.context.unwrap();
    let (going, action) = state.walking(walk);
    let carried = InterceptionView { walk: Some(walk), ..state };
    match walk.request() {
        WalkRequest::Read { address } => {
            let word = (host.words)(address);
            lemma_unfold(going, action, host, steps);
            lemma_supply_keeps_outcome(walk, host.words, word);
            lemma_walking(going, walk.supplied(word), host, (steps - 1) as nat);
            assert(going.advance(host.answer(action)) == going.walking(walk.supplied(word)));
            assert(effects(going, action, host, steps) =~= effects(
                going.walking(walk.supplied(word)).0,
                going.walking(walk.supplied(word)).1,
                host,
                (steps - 1) as nat,
            ));
        },
        WalkRequest::Finished { value: Some(tagged) } => {
            lemma_finished_is_outcome(walk, host.words);
            match spec_text_address(tagged, walk.threshold) {
                Some(address) => {
                    lemma_reading_identifier(going, address, host, steps);
                },
                None => {
                    lemma_releasing(carried, host, steps);
                },
            }
        },
        WalkRequest::Finished { value: None } => {
            lemma_finished_is_outcome(walk, host.words);
            lemma_releasing(carried, host, steps);
        },
    }
}

/// What the interception of an event does in a given host: the call goes
/// through, and on the way one datagram is sent if the host holds an event
/// to report, with the record of that event and to the port of the
/// context, and nothing is sent otherwise.
pub proof fn lemma_event_is_reported_exactly(host: HostModel)
    ensures
        calls_through(
            InterceptionView::initial(HookPoint::HkbFireEvent),
            ActionView::AcquireContext,
            host,
            12,
        ),
        effects(
            InterceptionView::initial(HookPoint::HkbFireEvent),
            ActionView::AcquireContext,
            host,
            12,
        ) == match host.context {
            Some(context) => datagrams(context, host.report()),
            None => Seq::empty(),
        },
{
    let start = InterceptionView::initial(HookPoint::HkbFireEvent);
    lemma_unfold(start, ActionView::AcquireContext, host, 12);
    let acquired = start.advance(host.answer(ActionView::AcquireContext));
    match host.context {
        Some(context) => {
            lemma_unfold(acquired.0, acquired.1, host, 11);
            let owned = acquired.0.advance(host.answer(acquired.1));
            lemma_unfold(owned.0, owned.1, host, 10);
            let walk = WalkView {
                current: Some(host.root),
                remaining: identifier_chain(),
                threshold: context.threshold,
            };
            lemma_walking(owned.0, walk, host, 9);
            assert(effects(start, ActionView::AcquireContext, host, 12) =~= datagrams(
                context,
                host.report(),
            ));
        },
        None => {
            lemma_releasing(start, host, 11);
            assert(effects(start, ActionView::AcquireContext, host, 12) =~= Seq::<
                Effect,
            >::empty());
        },
    }
}

/// What is sent in the course of calls that follow one another on one
/// thread, each in the host as it is at the time of the call.
pub open spec fn sent_in_calls(hosts: Seq<HostModel>) -> Seq<Effect>
    decreases hosts.len(),
{
    if hosts.len() == 0 {
        Seq::empty()
    } else {
        effects(
            InterceptionView::initial(HookPoint::HkbFireEvent),
            ActionView::AcquireContext,
            hosts[0],
            12,
        ) + sent_in_calls(hosts.drop_first())
    }
}

/// The datagrams for the events that the hosts hold, in the order of the
/// hosts; a host without an event to report adds none.
pub open spec fn reports_of(hosts: Seq<HostModel>) -> Seq<Effect>
    decreases hosts.len(),
{
    if hosts.len() == 0 {
        Seq::empty()
    } else {
        let first = match hosts[0].context {
            Some(context) => datagrams(context, hosts[0].report()),
            None => Seq::empty(),
        };
        first + reports_of(hosts.drop_first())
    }
}

/// Calls that follow one another are reported in their order: what is
/// sent is one datagram for each call whose event the filter admits, and
/// the datagram of an earlier call comes before that of a later one.
pub proof fn lemma_calls_are_reported_in_order(hosts: Seq<HostModel>)
    ensures
        sent_in_calls(hosts) == reports_of(hosts),
    decreases hosts.len(),
{
    if hosts.len() > 0 {
        lemma_event_is_reported_exactly(hosts[0]);
        lemma_calls_are_reported_in_order(hosts.drop_first());
    }
}

proof fn lemma_lock_goes_back(
    state: InterceptionView,
    action: ActionView,
    host: HostModel,
    steps: nat,
    held: bool,
)
    requires
        !(action is AcquireContext),
        action is ReleaseContext <==> state.stage == Stage::Releasing,
        action is CallThrough <==> state.stage == Stage::Calling,
        held == (state.holds_lock() || action is ReleaseContext),
        steps >= state.steps_left(),
    ensures
        lock_at_call(state, action, host, steps, held) == Some(false),
    decreases steps,
{
    if !(action is CallThrough) {
        let event = host.answer(action);
        let next = state.advance(event);
        lemma_original_is_always_called(state, event);
        lemma_release_precedes_call_through(state, event);
        let now = if action is ReleaseContext {
            false
        } else {
            held
        };
        lemma_lock_goes_back(next.0, next.1, host, (steps - 1) as nat, now);
    }
}

/// An interception that begins with the lock free comes to the call of the
/// original function with the lock free again, whatever the host answers:
/// it never asks for a lock that is held, and it has given the lock back
/// when it calls through. A call of the same hook that the original
/// function leads to therefore begins as this one did, and so does every
/// call nested in that one.
pub proof fn lemma_reentry_finds_the_lock_free(point: HookPoint, host: HostModel)
    ensures
        lock_at_call(
            InterceptionView::initial(point),
            ActionView::AcquireContext,
            host,
            12,
            false,
        ) == Some(false),
{
    let start = InterceptionView::initial(point);
    let event = host.answer(ActionView::AcquireContext);
    let next = start.advance(event);
    lemma_original_is_always_called(start, event);
    lemma_lock_goes_back(next.0, next.1, host, 11, true);
}

/// Whether the lock of the context is held when the innermost of a nest of
/// calls comes to call the original function. Each call is intercepted
/// while the one before it is calling through, in the host as it is then;
/// `hosts` holds those hosts from the outermost call inwards. There is no
/// answer when one of the calls asks for the lock while it is held.
pub open spec fn lock_in_nest(point: HookPoint, hosts: Seq<HostModel>, held: bool) -> Option<bool>
    decreases hosts.len(),
{
    if hosts.len() == 0 {
        Some(held)
    } else {
        match lock_at_call(
            InterceptionView::initial(point),
            ActionView::AcquireContext,
            hosts[0],
            12,
            held,
        ) {
            Some(after) => lock_in_nest(point, hosts.drop_first(), after),
            None => None,
        }
    }
}

/// Calls of a hook that are nested in one another on one thread, however
/// deep, never wait for the lock: each of them finds it free and leaves it
/// free.
pub proof fn lemma_nested_calls_never_deadlock(point: HookPoint, hosts: Seq<HostModel>)
    ensures
        lock_in_nest(point, hosts, false) == Some(false),
    decreases hosts.len(),
{
    if hosts.len() > 0 {
        lemma_reentry_finds_the_lock_free(point, hosts[0]);
        lemma_nested_calls_never_deadlock(point, hosts.drop_first());
    }
}

/// What the interception of a script state being filled does in a given
/// host: the call goes through, and on the way the script function is
/// registered if a context is in place, and nothing else is done.
pub proof fn lemma_script_function_is_registered(host: HostModel)
    ensures
        calls_through(
            InterceptionView::initial(HookPoint::PushHksGlobals),
            ActionView::AcquireContext,
            host,
            4,
        ),
        effects(
            InterceptionView::initial(HookPoint::PushHksGlobals),
            ActionView::AcquireContext,
            host,
            4,
        ) == if host.context is Some {
            seq![Effect::Registered { name: "DebugSend"@ }]
        } else {
            Seq::<Effect>::empty()
        },
{
    reveal_with_fuel(effects, 5);
    reveal_with_fuel(calls_through, 5);
}

} // verus!
