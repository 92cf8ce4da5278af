//! What a whole start amounts to, given the host it runs in.
//!
//! The start decides step by step. Here a host is described by how each
//! step goes in it, and the steps are put together: which hooks end up
//! active, and what is sent on the way. What becomes of one hook does not
//! depend on how the other fared, unless both are to be put on one address.

use crate::bootstrap::{
    points_after, spec_token, BootActionView, BootEventView, BootStage, BootstrapView,
    HookOutcome,
};
use crate::config::{spec_or_defaults, ConfigView};
use crate::functions::{FunctionOffsets, GameFunctions, HookPoint};
use crate::hook::{Hook, HookState};
use crate::resolver::AddressResolver;
use crate::telemetry::decimal;
use vstd::prelude::*;

verus! {

/// A host at the time of the start: how each step goes in it.
pub struct StartingHost {
    /// Whether the host becomes ready.
    pub ready: bool,
    /// The options of the configuration document, if it can be read.
    pub config: Option<ConfigView>,
    /// Whether a local endpoint can be bound.
    pub transport: bool,
    /// Where the image of the host lies.
    pub image: AddressResolver,
    /// Whether the context can be put in place.
    pub stored: bool,
    /// Whether the redirection for each hook point can be written.
    pub written: spec_fn(HookPoint) -> bool,
    /// Whether the redirection for each hook point can be put into effect.
    pub enabled: spec_fn(HookPoint) -> bool,
}

impl StartingHost {
    /// What the host reports when it has done what it was asked.
    pub open spec fn answer(self, action: BootActionView) -> BootEventView {
        match action {
            BootActionView::WaitForHost => BootEventView::HostReady(self.ready),
            BootActionView::LoadConfig => BootEventView::ConfigLoaded(self.config),
            BootActionView::OpenTransport => BootEventView::TransportOpened(self.transport),
            BootActionView::DescribeImage => BootEventView::Image(self.image),
            BootActionView::StoreContext { context } => BootEventView::Outcome(self.stored),
            BootActionView::InstallHook { point, target } => BootEventView::Outcome(
                (self.written)(point),
            ),
            BootActionView::EnableHook { point, target } => BootEventView::Outcome(
                (self.enabled)(point),
            ),
            _ => BootEventView::Done,
        }
    }

    /// Whether the start gets as far as the hooks.
    pub open spec fn willing(self) -> bool {
        self.ready && self.transport && self.stored
    }

    /// What becomes of the hook at `point` when `hooks` are in place: its
    /// outcome, and the hooks that are in place afterwards.
    pub open spec fn attempted(
        self,
        hooks: Map<u64, Hook>,
        functions: Option<GameFunctions>,
        point: HookPoint,
    ) -> (HookOutcome, Map<u64, Hook>) {
        let target = match functions {
            Some(resolved) => resolved.spec_target(point),
            None => None,
        };
        match target {
            None => (HookOutcome::Unresolved, hooks),
            Some(function) => if hooks.dom().contains(function.address) || !(self.written)(
                point,
            ) {
                (HookOutcome::InstallFailed, hooks)
            } else {
                let installed = Hook {
                    interceptor: spec_token(point),
                    state: HookState::Installed,
                    in_flight: 0,
                };
                if (self.enabled)(point) {
                    (
                        HookOutcome::Active,
                        hooks.insert(
                            function.address,
                            Hook { state: HookState::Enabled, ..installed },
                        ),
                    )
                } else {
                    (HookOutcome::EnableFailed, hooks.insert(function.address, installed))
                }
            },
        }
    }

    /// The start as it ends when the hook at `point` and those after it
    /// are attempted from `state`.
    pub open spec fn rolled_out(self, state: BootstrapView, point: HookPoint) -> BootstrapView
        decreases points_after(point), 1nat,
    {
        let (outcome, hooks) = self.attempted(state.hooks, state.functions, point);
        self.afterwards((BootstrapView { hooks, ..state }).noted(point, outcome), point)
    }

    /// The start as it ends once the outcome of the hook at `point` has
    /// been noted in `noted`: the hooks after it are attempted.
    pub open spec fn afterwards(self, noted: BootstrapView, point: HookPoint) -> BootstrapView
        decreases points_after(point), 0nat,
    {
        match point {
            HookPoint::PushHksGlobals => self.rolled_out(noted, HookPoint::HkbFireEvent),
            HookPoint::HkbFireEvent => BootstrapView { stage: BootStage::Finished, ..noted },
        }
    }

    /// The start as it ends in this host.
    pub open spec fn outcome(self, offsets: FunctionOffsets) -> BootstrapView {
        let begun = BootstrapView::initial(offsets);
        if !self.ready {
            BootstrapView { stage: BootStage::Finished, ..begun }
        } else {
            let configured = BootstrapView {
                config: Some(spec_or_defaults(self.config)),
                ..begun
            };
            if !self.transport {
                BootstrapView { stage: BootStage::Finished, ..configured }
            } else {
                let resolved = BootstrapView {
                    functions: Some(GameFunctions::spec_resolve(self.image, offsets)),
                    ..configured
                };
                if !self.stored {
                    BootstrapView { stage: BootStage::Finished, ..resolved }
                } else {
                    self.rolled_out(resolved, HookPoint::PushHksGlobals)
                }
            }
        }
    }
}

/// The start as it stands when nothing more is to be done, or after
/// `steps` actions at most.
pub open spec fn settled(
    state: BootstrapView,
    action: BootActionView,
    host: StartingHost,
    steps: nat,
) -> BootstrapView
    decreases steps,
{
    if steps == 0 || action is Finish {
        state
    } else {
        let next = state.advance(host.answer(action));
        settled(next.0, next.1, host, (steps - 1) as nat)
    }
}

/// The datagrams that are sent from `action` on, each with its
/// destination and its payload, in their order.
pub open spec fn announced(
    state: BootstrapView,
    action: BootActionView,
    host: StartingHost,
    steps: nat,
) -> Seq<(Seq<char>, Seq<char>)>
    decreases steps,
{
    if steps == 0 || action is Finish {
        Seq::empty()
    } else {
        let next = state.advance(host.answer(action));
        let here = match action {
            BootActionView::Send { destination, payload } => seq![(destination, payload)],
            _ => Seq::empty(),
        };
        here + announced(next.0, next.1, host, (steps - 1) as nat)
    }
}

proof fn lemma_unfold(state: BootstrapView, action: BootActionView, host: StartingHost, steps: nat)
    requires
        steps > 0,
        !(action is Finish),
    ensures
        settled(state, action, host, steps) == settled(
            state.advance(host.answer(action)).0,
            state.advance(host.answer(action)).1,
            host,
            (steps - 1) as nat,
        ),
        announced(state, action, host, steps) == match action {
            BootActionView::Send { destination, payload } => seq![(destination, payload)],
            _ => Seq::empty(),
        } + announced(
            state.advance(host.answer(action)).0,
            state.advance(host.answer(action)).1,
            host,
            (steps - 1) as nat,
        ),
{
}

/// How the start ends does not depend on the stage in which the outcome
/// of a hook was noted.
proof fn lemma_stage_is_forgotten(
    host: StartingHost,
    noted: BootstrapView,
    stage: BootStage,
    point: HookPoint,
)
    ensures
        host.afterwards(BootstrapView { stage, ..noted }, point) == host.afterwards(noted, point),
        host.rolled_out(BootstrapView { stage, ..noted }, point) == host.rolled_out(noted, point),
{
    reveal_with_fuel(StartingHost::rolled_out, 3);
    reveal_with_fuel(StartingHost::afterwards, 3);
}

proof fn lemma_finished(state: BootstrapView, host: StartingHost, steps: nat)
    ensures
        settled(state, BootActionView::Finish, host, steps) == state,
        announced(state, BootActionView::Finish, host, steps) == Seq::<
            (Seq<char>, Seq<char>),
        >::empty(),
{
}

proof fn lemma_after(host: StartingHost, noted: BootstrapView, point: HookPoint, steps: nat)
    requires
        steps >= 2 * points_after(point),
    ensures
        settled(noted.after(point).0, noted.after(point).1, host, steps) == host.afterwards(
            noted,
            point,
        ),
        announced(noted.after(point).0, noted.after(point).1, host, steps) == Seq::<
            (Seq<char>, Seq<char>),
        >::empty(),
    decreases points_after(point), 0nat,
{
    match point {
        HookPoint::PushHksGlobals => {
            lemma_attempt(host, noted, HookPoint::HkbFireEvent, steps);
        },
        HookPoint::HkbFireEvent => {
            lemma_finished(BootstrapView { stage: BootStage::Finished, ..noted }, host, steps);
        },
    }
}

proof fn lemma_attempt(host: StartingHost, state: BootstrapView, point: HookPoint, steps: nat)
    requires
        steps >= 2 * points_after(point) + 2,
    ensures
        settled(state.attempt(point).0, state.attempt(point).1, host, steps) == host.rolled_out(
            state,
            point,
        ),
        announced(state.attempt(point).0, state.attempt(point).1, host, steps) == Seq::<
            (Seq<char>, Seq<char>),
        >::empty(),
    decreases points_after(point), 1nat,
{
    let nothing = Seq::<(Seq<char>, Seq<char>)>::empty();
    let (outcome, hooks) = host.attempted(state.hooks, state.functions, point);
    let expected = (BootstrapView { hooks, ..state }).noted(point, outcome);
    let target = match state.functions {
        Some(resolved) => resolved.spec_target(point),
        None => None,
    };
    match target {
        None => {
            assert(expected == state.noted(point, HookOutcome::Unresolved));
            lemma_after(host, expected, point, steps);
        },
        Some(function) => {
            let address = function.address;
            if state.hooks.dom().contains(address) {
                assert(expected == state.noted(point, HookOutcome::InstallFailed));
                lemma_after(host, expected, point, steps);
            } else {
                let installing = BootstrapView {
                    stage: BootStage::Installing { point, target: address },
                    ..state
                };
                let install = BootActionView::InstallHook { point, target: address };
                assert(state.attempt(point) == (installing, install));
                lemma_unfold(installing, install, host, steps);
                if (host.written)(point) {
                    let installed = Hook {
                        interceptor: spec_token(point),
                        state: HookState::Installed,
                        in_flight: 0,
                    };
                    let enabling = BootstrapView {
                        stage: BootStage::Enabling { point, target: address },
                        hooks: state.hooks.insert(address, installed),
                        ..installing
                    };
                    let enable = BootActionView::EnableHook { point, target: address };
                    assert(installing.advance(host.answer(install)) == (enabling, enable));
                    lemma_unfold(enabling, enable, host, (steps - 1) as nat);
                    if (host.enabled)(point) {
                        let active = (BootstrapView {
                            hooks: enabling.hooks.insert(
                                address,
                                Hook { state: HookState::Enabled, ..enabling.hooks[address] },
                            ),
                            ..enabling
                        }).noted(point, HookOutcome::Active);
                        assert(enabling.advance(host.answer(enable)) == active.after(point));
                        lemma_after(host, active, point, (steps - 2) as nat);
                        assert(active.hooks =~= hooks);
                        assert(active == BootstrapView { stage: enabling.stage, ..expected });
                        lemma_stage_is_forgotten(host, expected, enabling.stage, point);
                    } else {
                        let failed = enabling.noted(point, HookOutcome::EnableFailed);
                        assert(enabling.advance(host.answer(enable)) == failed.after(point));
                        lemma_after(host, failed, point, (steps - 2) as nat);
                        assert(failed == BootstrapView { stage: enabling.stage, ..expected });
                        lemma_stage_is_forgotten(host, expected, enabling.stage, point);
                    }
                    assert(announced(enabling, enable, host, (steps - 1) as nat) =~= nothing);
                } else {
                    let failed = installing.noted(point, HookOutcome::InstallFailed);
                    assert(installing.advance(host.answer(install)) == failed.after(point));
                    lemma_after(host, failed, point, (steps - 1) as nat);
                    assert(failed == BootstrapView { stage: installing.stage, ..expected });
                    lemma_stage_is_forgotten(host, expected, installing.stage, point);
                }
                assert(announced(installing, install, host, steps) =~= nothing);
            }
        },
    }
}

/// The start ends in every host, and it ends as the host lets it: given
/// up before the hooks where the host does not become ready, the transport
/// cannot be opened or the context cannot be put in place, and else with
/// each hook attempted in its turn.
pub proof fn lemma_start_ends_as_the_host_lets_it(host: StartingHost, offsets: FunctionOffsets)
    ensures
        settled(BootstrapView::initial(offsets), BootActionView::WaitForHost, host, 12)
            == host.outcome(offsets),
        host.outcome(offsets).stage == BootStage::Finished,
{
    reveal_with_fuel(StartingHost::rolled_out, 3);
    reveal_with_fuel(StartingHost::afterwards, 3);
    let begun = BootstrapView::initial(offsets);
    lemma_unfold(begun, BootActionView::WaitForHost, host, 12);
    let waited = begun.advance(host.answer(BootActionView::WaitForHost));
    if host.ready {
        lemma_unfold(waited.0, waited.1, host, 11);
        let loaded = waited.0.advance(host.answer(waited.1));
        lemma_unfold(loaded.0, loaded.1, host, 10);
        let opened = loaded.0.advance(host.answer(loaded.1));
        if host.transport {
            lemma_unfold(opened.0, opened.1, host, 9);
            let told = opened.0.advance(host.answer(opened.1));
            lemma_unfold(told.0, told.1, host, 8);
            let described = told.0.advance(host.answer(told.1));
            lemma_unfold(described.0, described.1, host, 7);
            let resolved = BootstrapView {
                functions: Some(GameFunctions::spec_resolve(host.image, offsets)),
                config: Some(spec_or_defaults(host.config)),
                ..begun
            };
            assert(described.0 == BootstrapView { stage: BootStage::StoringContext, ..resolved });
            if host.stored {
                lemma_attempt(host, described.0, HookPoint::PushHksGlobals, 6);
                lemma_stage_is_forgotten(
                    host,
                    resolved,
                    BootStage::StoringContext,
                    HookPoint::PushHksGlobals,
                );
            } else {
                lemma_finished(
                    BootstrapView { stage: BootStage::Finished, ..resolved },
                    host,
                    6,
                );
            }
        } else {
            lemma_finished(opened.0, host, 9);
        }
    } else {
        lemma_finished(waited.0, host, 11);
    }
}

/// The liveness record is the one datagram of the start. It is sent when
/// the host has become ready and the transport is open, to the configured
/// port, and a start that does not send it leaves every hook unattempted.
pub proof fn lemma_liveness_is_the_one_datagram(host: StartingHost, offsets: FunctionOffsets)
    ensures
        announced(BootstrapView::initial(offsets), BootActionView::WaitForHost, host, 12)
            == if host.ready && host.transport {
            seq![
                (
                    "127.0.0.1:"@ + decimal(spec_or_defaults(host.config).port as int),
                    "[hkb_event_listener] I'm alive!"@,
                ),
            ]
        } else {
            Seq::empty()
        },
        !(host.ready && host.transport) ==> {
            &&& host.outcome(offsets).hooks == Map::<u64, Hook>::empty()
            &&& host.outcome(offsets).globals_hook == HookOutcome::Pending
            &&& host.outcome(offsets).event_hook == HookOutcome::Pending
        },
{
    let begun = BootstrapView::initial(offsets);
    let nothing = Seq::<(Seq<char>, Seq<char>)>::empty();
    lemma_unfold(begun, BootActionView::WaitForHost, host, 12);
    let waited = begun.advance(host.answer(BootActionView::WaitForHost));
    if host.ready {
        lemma_unfold(waited.0, waited.1, host, 11);
        let loaded = waited.0.advance(host.answer(waited.1));
        lemma_unfold(loaded.0, loaded.1, host, 10);
        let opened = loaded.0.advance(host.answer(loaded.1));
        if host.transport {
            lemma_unfold(opened.0, opened.1, host, 9);
            let announced_state = opened.0.advance(host.answer(opened.1));
            lemma_unfold(announced_state.0, announced_state.1, host, 8);
            let described = announced_state.0.advance(host.answer(announced_state.1));
            lemma_unfold(described.0, described.1, host, 7);
            if host.stored {
                lemma_attempt(host, described.0, HookPoint::PushHksGlobals, 6);
            }
            assert(announced(begun, BootActionView::WaitForHost, host, 12) =~= seq![
                (
                    "127.0.0.1:"@ + decimal(spec_or_defaults(host.config).port as int),
                    "[hkb_event_listener] I'm alive!"@,
                ),
            ]);
        } else {
            assert(announced(begun, BootActionView::WaitForHost, host, 12) =~= nothing);
        }
    } else {
        assert(announced(begun, BootActionView::WaitForHost, host, 12) =~= nothing);
    }
}

/// A hook that fails does not take the other with it. What becomes of the
/// second hook is what would become of it alone, unless the first hook
/// was installed on the very address that the second is meant for.
pub proof fn lemma_hooks_fail_alone(host: StartingHost, offsets: FunctionOffsets)
    requires
        host.willing(),
    ensures
        ({
            let functions = Some(GameFunctions::spec_resolve(host.image, offsets));
            let first = host.attempted(Map::empty(), functions, HookPoint::PushHksGlobals);
            let alone = host.attempted(Map::empty(), functions, HookPoint::HkbFireEvent);
            let end = host.outcome(offsets);
            &&& end.globals_hook == first.0
            &&& (functions.unwrap().spec_target(HookPoint::HkbFireEvent) is Some
                && first.1.dom().contains(
                functions.unwrap().spec_target(HookPoint::HkbFireEvent).unwrap().address,
            ) ==> end.event_hook == HookOutcome::InstallFailed)
            &&& (!(functions.unwrap().spec_target(HookPoint::HkbFireEvent) is Some
                && first.1.dom().contains(
                functions.unwrap().spec_target(HookPoint::HkbFireEvent).unwrap().address,
            )) ==> end.event_hook == alone.0)
        }),
{
    reveal_with_fuel(StartingHost::rolled_out, 3);
    reveal_with_fuel(StartingHost::afterwards, 3);
}

} // verus!
