//! What every intercepted call reads: the options in force and the
//! functions of the host, behind a lock.
//!
//! The lock here is a record of who holds it, not a means of waiting. An
//! attempt to take it while it is held is reported, since on one thread it
//! would never return. An interceptor therefore takes the lock, copies out
//! what it needs and gives the lock back before it lets the original
//! function run, for that function may lead back into the interceptor.

use crate::config::Config;
use crate::functions::GameFunctions;
use crate::walker::DEFAULT_THRESHOLD;
use vstd::prelude::*;

verus! {

/// The options and functions that interceptors work with.
#[derive(Debug)]
pub struct HookContext {
    /// Destination port of the records.
    pub port: u16,
    /// Prefix that reported identifiers begin with.
    pub prefix: String,
    /// Whether records are echoed to local diagnostics.
    pub print: bool,
    /// The lowest value that is followed as a pointer.
    pub threshold: u64,
    pub functions: GameFunctions,
}

/// A context with its text as characters.
pub struct ContextView {
    pub port: u16,
    pub prefix: Seq<char>,
    pub print: bool,
    pub threshold: u64,
    pub functions: GameFunctions,
}

impl View for HookContext {
    type V = ContextView;

    open spec fn view(&self) -> ContextView {
        ContextView {
            port: self.port,
            prefix: self.prefix@,
            print: self.print,
            threshold: self.threshold,
            functions: self.functions,
        }
    }
}

/// The view of a context that may be absent.
pub open spec fn context_view(context: Option<HookContext>) -> Option<ContextView> {
    match context {
        Some(given) => Some(given@),
        None => None,
    }
}

impl HookContext {
    /// The context for a configuration and the functions that were resolved.
    pub fn new(config: &Config, functions: GameFunctions) -> (context: Self)
        ensures
            context@ == (ContextView {
                port: config.port,
                prefix: config.chr@,
                print: config.print,
                threshold: DEFAULT_THRESHOLD,
                functions,
            }),
    {
        HookContext {
            port: config.port,
            prefix: config.chr.clone(),
            print: config.print,
            threshold: DEFAULT_THRESHOLD,
            functions,
        }
    }

    /// A copy of every field, to work with once the lock is given back.
    pub fn snapshot(&self) -> (copy: Self)
        ensures
            copy@ == self@,
    {
        HookContext {
            port: self.port,
            prefix: self.prefix.clone(),
            print: self.print,
            threshold: self.threshold,
            functions: self.functions,
        }
    }
}

/// Why an operation on the guarded context was refused.
#[derive(Clone, Copy, Debug, PartialEq, Eq)]
pub enum ContextError {
    /// The lock is held: taking it again on this thread would never return.
    WouldDeadlock,
    /// The operation needs the lock, and it is not held.
    NotHeld,
    /// The context is in use by active hooks and cannot be replaced.
    HooksActive,
}

/// The one context of a process and the lock that guards it.
#[derive(Debug)]
pub struct ContextCell {
    context: Option<HookContext>,
    held: bool,
}

/// A guarded context as contracts see it.
pub struct CellView {
    pub context: Option<ContextView>,
    pub held: bool,
}

impl View for ContextCell {
    type V = CellView;

    closed spec fn view(&self) -> CellView {
        CellView { context: context_view(self.context), held: self.held }
    }
}

impl ContextCell {
    /// A cell without a context, its lock free.
    pub fn new() -> (cell: Self)
        ensures
            cell@ == (CellView { context: None, held: false }),
    {
        ContextCell { context: None, held: false }
    }

    /// Takes the lock, or reports that it is held already.
    pub fn acquire(&mut self) -> (r: Result<(), ContextError>)
        ensures
            old(self)@.held ==> r == Err::<(), ContextError>(ContextError::WouldDeadlock)
                && final(self)@ == old(self)@,
            !old(self)@.held ==> r is Ok && final(self)@ == (CellView {
                held: true,
                ..old(self)@
            }),
    {
        if self.held {
            return Err(ContextError::WouldDeadlock);
        }
        self.held = true;
        Ok(())
    }

    /// Gives the lock back.
    pub fn release(&mut self) -> (r: Result<(), ContextError>)
        ensures
            old(self)@.held ==> r is Ok && final(self)@ == (CellView {
                held: false,
                ..old(self)@
            }),
            !old(self)@.held ==> r == Err::<(), ContextError>(ContextError::NotHeld)
                && final(self)@ == old(self)@,
    {
        if !self.held {
            return Err(ContextError::NotHeld);
        }
        self.held = false;
        Ok(())
    }

    /// Copies the context out, for use after the lock is given back. The
    /// result is `None` inside while no context has been constructed.
    pub fn copy_out(&self) -> (r: Result<Option<HookContext>, ContextError>)
        ensures
            self@.held ==> r is Ok && context_view(r.unwrap()) == self@.context,
            !self@.held ==> r is Err && r.unwrap_err() == ContextError::NotHeld,
    {
        if !self.held {
            return Err(ContextError::NotHeld);
        }
        match &self.context {
            Some(context) => Ok(Some(context.snapshot())),
            None => Ok(None),
        }
    }

    /// Puts the context in place. This is done under the lock, once, before
    /// any hook is active; a context that active hooks read is not replaced.
    pub fn construct(&mut self, context: HookContext, hooks_active: bool) -> (r: Result<
        (),
        ContextError,
    >)
        ensures
            !old(self)@.held ==> r == Err::<(), ContextError>(ContextError::NotHeld)
                && final(self)@ == old(self)@,
            old(self)@.held && old(self)@.context is Some && hooks_active ==> r == Err::<
                (),
                ContextError,
            >(ContextError::HooksActive) && final(self)@ == old(self)@,
            old(self)@.held && !(old(self)@.context is Some && hooks_active) ==> r is Ok
                && final(self)@ == (CellView { context: Some(context@), held: true }),
    {
        if !self.held {
            return Err(ContextError::NotHeld);
        }
        if self.context.is_some() && hooks_active {
            return Err(ContextError::HooksActive);
        }
        self.context = Some(context);
        Ok(())
    }
}

} // verus!
