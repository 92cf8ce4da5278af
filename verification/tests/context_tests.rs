use hkb_event_listener::config::Config;
use hkb_event_listener::context::{ContextCell, ContextError, HookContext};
use hkb_event_listener::functions::{FunctionOffsets, GameFunctions};
use hkb_event_listener::resolver::AddressResolver;
use hkb_event_listener::walker::DEFAULT_THRESHOLD;

fn functions() -> GameFunctions {
    GameFunctions::resolve(
        &AddressResolver::new(0x1_4000_0000, 0x500_0000),
        &FunctionOffsets::v1_16_1(),
    )
}

fn context(port: u16) -> HookContext {
    HookContext::new(&Config { port, chr: "c0000".to_string(), print: true }, functions())
}

#[test]
fn context_is_made_of_the_configuration() {
    let made = context(4000);
    assert_eq!(made.port, 4000);
    assert_eq!(made.prefix, "c0000");
    assert!(made.print);
    assert_eq!(made.threshold, DEFAULT_THRESHOLD);
    assert_eq!(made.functions, functions());
}

#[test]
fn snapshot_copies_every_field() {
    let made = context(4000);
    let copy = made.snapshot();
    assert_eq!(copy.port, made.port);
    assert_eq!(copy.prefix, made.prefix);
    assert_eq!(copy.print, made.print);
    assert_eq!(copy.threshold, made.threshold);
    assert_eq!(copy.functions, made.functions);
}

#[test]
fn lock_is_taken_and_given_back() {
    let mut cell = ContextCell::new();
    assert_eq!(cell.acquire(), Ok(()));
    assert_eq!(cell.release(), Ok(()));
    assert_eq!(cell.acquire(), Ok(()));
    assert_eq!(cell.release(), Ok(()));
}

#[test]
fn taking_a_held_lock_would_deadlock() {
    let mut cell = ContextCell::new();
    cell.acquire().unwrap();
    assert_eq!(cell.acquire(), Err(ContextError::WouldDeadlock));
    assert_eq!(cell.release(), Ok(()));
    assert_eq!(cell.acquire(), Ok(()));
}

#[test]
fn giving_back_a_free_lock_is_refused() {
    let mut cell = ContextCell::new();
    assert_eq!(cell.release(), Err(ContextError::NotHeld));
}

#[test]
fn context_is_read_under_the_lock_only() {
    let mut cell = ContextCell::new();
    assert_eq!(cell.copy_out().unwrap_err(), ContextError::NotHeld);
    cell.acquire().unwrap();
    assert!(cell.copy_out().unwrap().is_none());
    cell.construct(context(4000), false).unwrap();
    let copy = cell.copy_out().unwrap().unwrap();
    assert_eq!(copy.port, 4000);
    assert_eq!(copy.prefix, "c0000");
    cell.release().unwrap();
    assert_eq!(cell.copy_out().unwrap_err(), ContextError::NotHeld);
}

#[test]
fn context_is_constructed_under_the_lock_only() {
    let mut cell = ContextCell::new();
    assert_eq!(cell.construct(context(4000), false), Err(ContextError::NotHeld));
    cell.acquire().unwrap();
    assert!(cell.copy_out().unwrap().is_none());
}

#[test]
fn context_is_not_replaced_while_hooks_are_active() {
    let mut cell = ContextCell::new();
    cell.acquire().unwrap();
    assert_eq!(cell.construct(context(4000), true), Ok(()));
    assert_eq!(cell.construct(context(5000), true), Err(ContextError::HooksActive));
    assert_eq!(cell.copy_out().unwrap().unwrap().port, 4000);
    assert_eq!(cell.construct(context(5000), false), Ok(()));
    assert_eq!(cell.copy_out().unwrap().unwrap().port, 5000);
}
