//! Bringing the listener up inside the host, one step at a time.
//!
//! The order is fixed: wait until the host is ready, load the options,
//! open the transport and say that the listener is alive, find the
//! functions of the host, put the context in place, then install and enable
//! the hooks. The caller does each step and reports how it went. A hook
//! that cannot be resolved, installed or enabled is given up on its own;
//! the other hook is still attempted.

use crate::config::{config_view, spec_or_defaults, Config, ConfigView};
use crate::context::{ContextView, HookContext};
use crate::functions::{FunctionOffsets, GameFunctions, HookPoint};
use crate::hook::{Hook, HookManager, HookState};
use crate::resolver::AddressResolver;
use crate::telemetry::{decimal, Datagram, TelemetryForwarder};
use crate::walker::DEFAULT_THRESHOLD;
use vstd::prelude::*;

verus! {

/// The reason with which the loader announces that the library was
/// attached to a process.
pub const PROCESS_ATTACH: u32 = 1;

/// Whether the loader's call asks for the listener to be brought up. It
/// does only when the library is attached to a process; every other call
/// is answered without doing anything.
pub fn attach_requested(reason: u32) -> (r: bool)
    ensures
        r == (reason == PROCESS_ATTACH),
{
    reason == PROCESS_ATTACH
}

/// How far the start has come: what it is waiting to be told.
#[derive(Clone, Copy, Debug, PartialEq, Eq)]
pub enum BootStage {
    /// Whether the host became ready.
    Waiting,
    /// The options that were loaded.
    LoadingConfig,
    /// Whether the transport could be opened.
    OpeningTransport,
    /// That the liveness record was handed to the transport.
    Announcing,
    /// Where the image of the host lies.
    DescribingImage,
    /// That the context was put in place.
    StoringContext,
    /// Whether the redirection at `target` could be written.
    Installing { point: HookPoint, target: u64 },
    /// Whether the redirection at `target` could be put into effect.
    Enabling { point: HookPoint, target: u64 },
    /// Nothing: the start is over.
    Finished,
}

/// What became of one hook.
#[derive(Clone, Copy, Debug, PartialEq, Eq)]
pub enum HookOutcome {
    /// The hook has not been attempted.
    Pending,
    /// A function that the hook needs could not be resolved.
    Unresolved,
    /// The redirection could not be installed, or its target had a hook.
    InstallFailed,
    /// The redirection was installed and could not be put into effect.
    EnableFailed,
    /// Calls are being intercepted.
    Active,
}

/// What the caller reports.
#[derive(Debug)]
pub enum BootEvent {
    /// Whether the host signalled that it is ready.
    HostReady(bool),
    /// The options that were read, absent when the document is missing or
    /// malformed.
    ConfigLoaded(Option<Config>),
    /// Whether a local endpoint could be bound.
    TransportOpened(bool),
    /// Where the image of the host starts and how large it is.
    Image(AddressResolver),
    /// Whether the action succeeded.
    Outcome(bool),
    /// The action was carried out and has nothing to report.
    Done,
}

/// An event with its text as characters.
pub enum BootEventView {
    HostReady(bool),
    ConfigLoaded(Option<ConfigView>),
    TransportOpened(bool),
    Image(AddressResolver),
    Outcome(bool),
    Done,
}

impl View for BootEvent {
    type V = BootEventView;

    open spec fn view(&self) -> BootEventView {
        match self {
            BootEvent::HostReady(ready) => BootEventView::HostReady(*ready),
            BootEvent::ConfigLoaded(config) => BootEventView::ConfigLoaded(config_view(*config)),
            BootEvent::TransportOpened(opened) => BootEventView::TransportOpened(*opened),
            BootEvent::Image(resolver) => BootEventView::Image(*resolver),
            BootEvent::Outcome(succeeded) => BootEventView::Outcome(*succeeded),
            BootEvent::Done => BootEventView::Done,
        }
    }
}

/// What the caller is to do next.
#[derive(Debug)]
pub enum BootAction {
    /// Wait until the host has finished its own start.
    WaitForHost,
    /// Read and parse the configuration document.
    LoadConfig,
    /// Bind a local endpoint for the lifetime of the process.
    OpenTransport,
    /// Send the datagram; whether it arrives is of no concern.
    Send { datagram: Datagram },
    /// Find out where the image of the host starts and how large it is.
    DescribeImage,
    /// Put the context in place, under its lock.
    StoreContext { context: HookContext },
    /// Prepare the redirection of `target` to the interceptor for `point`.
    InstallHook { point: HookPoint, target: u64 },
    /// Put the redirection of `target` into effect.
    EnableHook { point: HookPoint, target: u64 },
    /// Nothing more is to be done.
    Finish,
}

/// An action with its text as characters.
pub enum BootActionView {
    WaitForHost,
    LoadConfig,
    OpenTransport,
    Send { destination: Seq<char>, payload: Seq<char> },
    DescribeImage,
    StoreContext { context: ContextView },
    InstallHook { point: HookPoint, target: u64 },
    EnableHook { point: HookPoint, target: u64 },
    Finish,
}

impl View for BootAction {
    type V = BootActionView;

    open spec fn view(&self) -> BootActionView {
        match self {
            BootAction::WaitForHost => BootActionView::WaitForHost,
            BootAction::LoadConfig => BootActionView::LoadConfig,
            BootAction::OpenTransport => BootActionView::OpenTransport,
            BootAction::Send { datagram } => BootActionView::Send {
                destination: datagram.destination@,
                payload: datagram.payload@,
            },
            BootAction::DescribeImage => BootActionView::DescribeImage,
            BootAction::StoreContext { context } => BootActionView::StoreContext {
                context: context@,
            },
            BootAction::InstallHook { point, target } => BootActionView::InstallHook {
                point: *point,
                target: *target,
            },
            BootAction::EnableHook { point, target } => BootActionView::EnableHook {
                point: *point,
                target: *target,
            },
            BootAction::Finish => BootActionView::Finish,
        }
    }
}

/// The number by which the interceptor for a hook point is recorded.
pub open spec fn spec_token(point: HookPoint) -> u64 {
    match point {
        HookPoint::PushHksGlobals => 0,
        HookPoint::HkbFireEvent => 1,
    }
}

/// The number by which the interceptor for `point` is recorded.
pub fn token(point: HookPoint) -> (r: u64)
    ensures
        r == spec_token(point),
{
    match point {
        HookPoint::PushHksGlobals => 0,
        HookPoint::HkbFireEvent => 1,
    }
}

/// The hook points that are still to be attempted once `point` is dealt with.
pub open spec fn points_after(point: HookPoint) -> nat {
    match point {
        HookPoint::PushHksGlobals => 1,
        HookPoint::HkbFireEvent => 0,
    }
}

/// The start of the listener, as far as it has come.
#[derive(Debug)]
pub struct Bootstrap {
    stage: BootStage,
    offsets: FunctionOffsets,
    config: Option<Config>,
    functions: Option<GameFunctions>,
    hooks: HookManager,
    globals_hook: HookOutcome,
    event_hook: HookOutcome,
}

/// A start as contracts see it.
pub struct BootstrapView {
    pub stage: BootStage,
    /// The offsets at which the functions of the host are looked for.
    pub offsets: FunctionOffsets,
    /// The options in force, once they are settled.
    pub config: Option<ConfigView>,
    /// The functions of the host, once they have been looked for.
    pub functions: Option<GameFunctions>,
    /// The hooks that have been installed, by target address.
    pub hooks: Map<u64, Hook>,
    /// What became of the hook on the function that fills the globals.
    pub globals_hook: HookOutcome,
    /// What became of the hook on the function that raises events.
    pub event_hook: HookOutcome,
}

impl View for Bootstrap {
    type V = BootstrapView;

    closed spec fn view(&self) -> BootstrapView {
        BootstrapView {
            stage: self.stage,
            offsets: self.offsets,
            config: config_view(self.config),
            functions: self.functions,
            hooks: self.hooks@,
            globals_hook: self.globals_hook,
            event_hook: self.event_hook,
        }
    }
}

impl BootstrapView {
    /// A start that has asked to wait for the host and nothing else.
    pub open spec fn initial(offsets: FunctionOffsets) -> BootstrapView {
        BootstrapView {
            stage: BootStage::Waiting,
            offsets,
            config: None,
            functions: None,
            hooks: Map::empty(),
            globals_hook: HookOutcome::Pending,
            event_hook: HookOutcome::Pending,
        }
    }

    /// The end of the start.
    pub open spec fn finished(self) -> (BootstrapView, BootActionView) {
        (BootstrapView { stage: BootStage::Finished, ..self }, BootActionView::Finish)
    }

    /// The start with the outcome of the hook at `point` noted.
    pub open spec fn noted(self, point: HookPoint, outcome: HookOutcome) -> BootstrapView {
        match point {
            HookPoint::PushHksGlobals => BootstrapView { globals_hook: outcome, ..self },
            HookPoint::HkbFireEvent => BootstrapView { event_hook: outcome, ..self },
        }
    }

    /// What follows once the hook at `point` is dealt with: the next hook
    /// is attempted, or the start is over.
    pub open spec fn after(self, point: HookPoint) -> (BootstrapView, BootActionView)
        decreases points_after(point), 0nat,
    {
        match point {
            HookPoint::PushHksGlobals => self.attempt(HookPoint::HkbFireEvent),
            HookPoint::HkbFireEvent => self.finished(),
        }
    }

    /// The attempt at the hook at `point`: its redirection is to be
    /// installed if every function it needs was resolved and its target has
    /// no hook yet; else the hook is given up and the start goes on.
    pub open spec fn attempt(self, point: HookPoint) -> (BootstrapView, BootActionView)
        decreases points_after(point), 1nat,
    {
        match self.functions {
            Some(functions) => match functions.spec_target(point) {
                Some(function) => if self.hooks.dom().contains(function.address) {
                    self.noted(point, HookOutcome::InstallFailed).after(point)
                } else {
                    (
                        BootstrapView {
                            stage: BootStage::Installing { point, target: function.address },
                            ..self
                        },
                        BootActionView::InstallHook { point, target: function.address },
                    )
                },
                None => self.noted(point, HookOutcome::Unresolved).after(point),
            },
            None => self.noted(point, HookOutcome::Unresolved).after(point),
        }
    }

    /// The start after `event`, and what the caller is to do next.
    pub open spec fn advance(self, event: BootEventView) -> (BootstrapView, BootActionView) {
        match self.stage {
            BootStage::Waiting => match event {
                BootEventView::HostReady(true) => (
                    BootstrapView { stage: BootStage::LoadingConfig, ..self },
                    BootActionView::LoadConfig,
                ),
                _ => self.finished(),
            },
            BootStage::LoadingConfig => (
                BootstrapView {
                    stage: BootStage::OpeningTransport,
                    config: Some(
                        spec_or_defaults(
                            match event {
                                BootEventView::ConfigLoaded(loaded) => loaded,
                                _ => None,
                            },
                        ),
                    ),
                    ..self
                },
                BootActionView::OpenTransport,
            ),
            BootStage::OpeningTransport => match (event, self.config) {
                (BootEventView::TransportOpened(true), Some(config)) => (
                    BootstrapView { stage: BootStage::Announcing, ..self },
                    BootActionView::Send {
                        destination: "127.0.0.1:"@ + decimal(config.port as int),
                        payload: "[hkb_event_listener] I'm alive!"@,
                    },
                ),
                _ => self.finished(),
            },
            BootStage::Announcing => (
                BootstrapView { stage: BootStage::DescribingImage, ..self },
                BootActionView::DescribeImage,
            ),
            BootStage::DescribingImage => match (event, self.config) {
                (BootEventView::Image(resolver), Some(config)) => {
                    let functions = GameFunctions::spec_resolve(resolver, self.offsets);
                    (
                        BootstrapView {
                            stage: BootStage::StoringContext,
                            functions: Some(functions),
                            ..self
                        },
                        BootActionView::StoreContext {
                            context: ContextView {
                                port: config.port,
                                prefix: config.chr,
                                print: config.print,
                                threshold: DEFAULT_THRESHOLD,
                                functions,
                            },
                        },
                    )
                },
                _ => self.finished(),
            },
            BootStage::StoringContext => match event {
                BootEventView::Outcome(false) => self.finished(),
                _ => self.attempt(HookPoint::PushHksGlobals),
            },
            BootStage::Installing { point, target } => if event == BootEventView::Outcome(true)
                && !self.hooks.dom().contains(target) {
                (
                    BootstrapView {
                        stage: BootStage::Enabling { point, target },
                        hooks: self.hooks.insert(
                            target,
                            Hook {
                                interceptor: spec_token(point),
                                state: HookState::Installed,
                                in_flight: 0,
                            },
                        ),
                        ..self
                    },
                    BootActionView::EnableHook { point, target },
                )
            } else {
                self.noted(point, HookOutcome::InstallFailed).after(point)
            },
            BootStage::Enabling { point, target } => if event == BootEventView::Outcome(true)
                && self.hooks.dom().contains(target) {
                (BootstrapView {
                    hooks: self.hooks.insert(
                        target,
                        Hook { state: HookState::Enabled, ..self.hooks[target] },
                    ),
                    ..self
                }).noted(point, HookOutcome::Active).after(point)
            } else {
                self.noted(point, HookOutcome::EnableFailed).after(point)
            },
            BootStage::Finished => (self, BootActionView::Finish),
        }
    }

    /// An upper bound on the number of actions before the start is over.
    pub open spec fn steps_left(self) -> nat {
        match self.stage {
            BootStage::Waiting => 10,
            BootStage::LoadingConfig => 9,
            BootStage::OpeningTransport => 8,
            BootStage::Announcing => 7,
            BootStage::DescribingImage => 6,
            BootStage::StoringContext => 5,
            BootStage::Installing { point, .. } => 2 + 2 * points_after(point),
            BootStage::Enabling { point, .. } => 1 + 2 * points_after(point),
            BootStage::Finished => 0,
        }
    }
}

/// Whatever is reported, every step brings the end of the start nearer.
pub proof fn lemma_start_comes_to_an_end(state: BootstrapView, event: BootEventView)
    ensures
        state.stage != BootStage::Finished ==> state.advance(event).0.steps_left()
            < state.steps_left(),
        state.stage == BootStage::Finished ==> state.advance(event) == (
            state,
            BootActionView::Finish,
        ),
        state.steps_left() == 0 <==> state.stage == BootStage::Finished,
{
    reveal_with_fuel(BootstrapView::attempt, 3);
    reveal_with_fuel(BootstrapView::after, 3);
}

/// The liveness record is sent once, when the transport has been opened,
/// and no hook is installed or enabled before it: whatever is reported
/// about an event later follows the liveness record.
pub proof fn lemma_liveness_precedes_hooks(state: BootstrapView, event: BootEventView)
    ensures
        state.advance(event).1 is Send <==> state.stage == BootStage::OpeningTransport
            && event == BootEventView::TransportOpened(true) && state.config is Some,
        state.advance(event).1 is Send ==> state.advance(event).1->payload
            == "[hkb_event_listener] I'm alive!"@,
        state.advance(event).1 is InstallHook || state.advance(event).1 is EnableHook ==> {
            state.stage != BootStage::Waiting && state.stage != BootStage::LoadingConfig
                && state.stage != BootStage::OpeningTransport && state.stage
                != BootStage::Announcing
        },
{
    reveal_with_fuel(BootstrapView::attempt, 3);
    reveal_with_fuel(BootstrapView::after, 3);
}

impl Bootstrap {
    /// The hooks that were recorded satisfy their invariant.
    pub closed spec fn well_formed(&self) -> bool {
        self.hooks.well_formed()
    }

    /// Begins the start of the listener, with the offsets at which the
    /// functions of the host are to be looked for. The first thing to do
    /// is to wait for the host.
    pub fn begin(offsets: FunctionOffsets) -> (r: (Self, BootAction))
        ensures
            r.0.well_formed(),
            r.0@ == BootstrapView::initial(offsets),
            r.1@ == BootActionView::WaitForHost,
    {
        (
            Bootstrap {
                stage: BootStage::Waiting,
                offsets,
                config: None,
                functions: None,
                hooks: HookManager::new(),
                globals_hook: HookOutcome::Pending,
                event_hook: HookOutcome::Pending,
            },
            BootAction::WaitForHost,
        )
    }

    /// What the start is waiting to be told.
    pub fn stage(&self) -> (stage: BootStage)
        ensures
            stage == self@.stage,
    {
        self.stage
    }

    /// Whether the start is over.
    pub fn is_finished(&self) -> (r: bool)
        ensures
            r == (self@.stage == BootStage::Finished),
    {
        match self.stage {
            BootStage::Finished => true,
            _ => false,
        }
    }

    /// What became of the hook at `point`.
    pub fn outcome(&self, point: HookPoint) -> (r: HookOutcome)
        ensures
            r == match point {
                HookPoint::PushHksGlobals => self@.globals_hook,
                HookPoint::HkbFireEvent => self@.event_hook,
            },
    {
        match point {
            HookPoint::PushHksGlobals => self.globals_hook,
            HookPoint::HkbFireEvent => self.event_hook,
        }
    }

    /// The hooks that were installed.
    pub fn hooks(&self) -> (hooks: &HookManager)
        requires
            self.well_formed(),
        ensures
            hooks.well_formed(),
            hooks@ == self@.hooks,
    {
        &self.hooks
    }

    fn finished(self) -> (r: (Self, BootAction))
        requires
            self.well_formed(),
        ensures
            r.0.well_formed(),
            (r.0@, r.1@) == self@.finished(),
    {
        let mut this = self;
        this.stage = BootStage::Finished;
        (this, BootAction::Finish)
    }

    fn noted(self, point: HookPoint, outcome: HookOutcome) -> (r: Self)
        requires
            self.well_formed(),
        ensures
            r.well_formed(),
            r@ == self@.noted(point, outcome),
    {
        let mut this = self;
        match point {
            HookPoint::PushHksGlobals => {
                this.globals_hook = outcome;
            },
            HookPoint::HkbFireEvent => {
                this.event_hook = outcome;
            },
        }
        this
    }

    fn after(self, point: HookPoint) -> (r: (Self, BootAction))
        requires
            self.well_formed(),
        ensures
            r.0.well_formed(),
            (r.0@, r.1@) == self@.after(point),
        decreases points_after(point), 0nat,
    {
        match point {
            HookPoint::PushHksGlobals => self.attempt(HookPoint::HkbFireEvent),
            HookPoint::HkbFireEvent => self.finished(),
        }
    }

    fn attempt(self, point: HookPoint) -> (r: (Self, BootAction))
        requires
            self.well_formed(),
        ensures
            r.0.well_formed(),
            (r.0@, r.1@) == self@.attempt(point),
        decreases points_after(point), 1nat,
    {
        let wanted = match &self.functions {
            Some(functions) => functions.target(point),
            None => {
                return self.noted(point, HookOutcome::Unresolved).after(point);
            },
        };
        match wanted {
            Ok(function) => {
                if self.hooks.is_hooked(function.address) {
                    self.noted(point, HookOutcome::InstallFailed).after(point)
                } else {
                    let mut this = self;
                    this.stage = BootStage::Installing { point, target: function.address };
                    (this, BootAction::InstallHook { point, target: function.address })
                }
            },
            Err(_) => self.noted(point, HookOutcome::Unresolved).after(point),
        }
    }

    /// Takes in what the caller reports and says what is to be done next.
    pub fn advance(self, event: BootEvent) -> (r: (Self, BootAction))
        requires
            self.well_formed(),
        ensures
            r.0.well_formed(),
            (r.0@, r.1@) == self@.advance(event@),
    {
        let mut this = self;
        match this.stage {
            BootStage::Waiting => match event {
                BootEvent::HostReady(true) => {
                    this.stage = BootStage::LoadingConfig;
                    (this, BootAction::LoadConfig)
                },
                _ => this.finished(),
            },
            BootStage::LoadingConfig => {
                let loaded = match event {
                    BootEvent::ConfigLoaded(loaded) => loaded,
                    _ => None,
                };
                this.config = Some(Config::or_defaults(loaded));
                this.stage = BootStage::OpeningTransport;
                (this, BootAction::OpenTransport)
            },
            BootStage::OpeningTransport => match event {
                BootEvent::TransportOpened(true) => {
                    let port = match &this.config {
                        Some(config) => config.port,
                        None => {
                            return this.finished();
                        },
                    };
                    let (_, datagram) = TelemetryForwarder::start(port);
                    this.stage = BootStage::Announcing;
                    (this, BootAction::Send { datagram })
                },
                _ => this.finished(),
            },
            BootStage::Announcing => {
                this.stage = BootStage::DescribingImage;
                (this, BootAction::DescribeImage)
            },
            BootStage::DescribingImage => match event {
                BootEvent::Image(resolver) => {
                    let functions = GameFunctions::resolve(&resolver, &this.offsets);
                    let context = match &this.config {
                        Some(config) => HookContext::new(config, functions),
                        None => {
                            return this.finished();
                        },
                    };
                    this.functions = Some(functions);
                    this.stage = BootStage::StoringContext;
                    (this, BootAction::StoreContext { context })
                },
                _ => this.finished(),
            },
            BootStage::StoringContext => match event {
                BootEvent::Outcome(false) => this.finished(),
                _ => this.attempt(HookPoint::PushHksGlobals),
            },
            BootStage::Installing { point, target } => {
                let written = match event {
                    BootEvent::Outcome(true) => true,
                    _ => false,
                };
                match this.hooks.install(target, token(point), written) {
                    Ok(_) => {
                        this.stage = BootStage::Enabling { point, target };
                        (this, BootAction::EnableHook { point, target })
                    },
                    Err(_) => this.noted(point, HookOutcome::InstallFailed).after(point),
                }
            },
            BootStage::Enabling { point, target } => {
                let effective = match event {
                    BootEvent::Outcome(true) => this.hooks.is_hooked(target),
                    _ => false,
                };
                if effective {
                    let _ = this.hooks.enable(target);
                    this.noted(point, HookOutcome::Active).after(point)
                } else {
                    this.noted(point, HookOutcome::EnableFailed).after(point)
                }
            },
            BootStage::Finished => (this, BootAction::Finish),
        }
    }
}

} // verus!
