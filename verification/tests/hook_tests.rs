use hkb_event_listener::hook::{Hook, HookError, HookManager, HookState};

const TARGET: u64 = 0x1_4145_a960;
const OTHER: u64 = 0x1_4145_ce30;

#[test]
fn new_manager_has_no_hooks() {
    let manager = HookManager::new();
    assert_eq!(manager.state(TARGET), HookState::Uninitialized);
    assert_eq!(manager.hook(TARGET), None);
    assert!(!manager.is_hooked(TARGET));
}

#[test]
fn install_records_an_installed_hook() {
    let mut manager = HookManager::new();
    let hook = manager.install(TARGET, 7, true);
    assert_eq!(hook, Ok(Hook { interceptor: 7, state: HookState::Installed, in_flight: 0 }));
    assert_eq!(manager.state(TARGET), HookState::Installed);
    assert!(manager.is_hooked(TARGET));
    assert_eq!(manager.state(OTHER), HookState::Uninitialized);
}

#[test]
fn install_on_a_hooked_target_is_refused() {
    let mut manager = HookManager::new();
    manager.install(TARGET, 7, true).unwrap();
    assert_eq!(manager.install(TARGET, 8, true), Err(HookError::AlreadyHooked));
    assert_eq!(manager.install(TARGET, 8, false), Err(HookError::AlreadyHooked));
    assert_eq!(
        manager.hook(TARGET),
        Some(Hook { interceptor: 7, state: HookState::Installed, in_flight: 0 })
    );
}

#[test]
fn install_on_a_hooked_target_is_refused_in_every_state() {
    let mut manager = HookManager::new();
    manager.install(TARGET, 7, true).unwrap();
    manager.enable(TARGET).unwrap();
    assert_eq!(manager.install(TARGET, 8, true), Err(HookError::AlreadyHooked));
    manager.disable(TARGET).unwrap();
    assert_eq!(manager.install(TARGET, 8, true), Err(HookError::AlreadyHooked));
}

#[test]
fn install_fails_when_the_redirection_was_not_written() {
    let mut manager = HookManager::new();
    assert_eq!(manager.install(TARGET, 7, false), Err(HookError::InstallFailure));
    assert_eq!(manager.state(TARGET), HookState::Uninitialized);
    assert_eq!(
        manager.install(TARGET, 7, true),
        Ok(Hook { interceptor: 7, state: HookState::Installed, in_flight: 0 })
    );
}

#[test]
fn hooks_on_different_targets_do_not_touch_each_other() {
    let mut manager = HookManager::new();
    manager.install(TARGET, 1, true).unwrap();
    manager.install(OTHER, 2, true).unwrap();
    manager.enable(OTHER).unwrap();
    assert_eq!(manager.state(TARGET), HookState::Installed);
    assert_eq!(manager.state(OTHER), HookState::Enabled);
    assert_eq!(manager.hook(TARGET).unwrap().interceptor, 1);
    assert_eq!(manager.hook(OTHER).unwrap().interceptor, 2);
}

#[test]
fn enable_and_disable_move_between_states() {
    let mut manager = HookManager::new();
    manager.install(TARGET, 7, true).unwrap();
    assert_eq!(manager.enable(TARGET), Ok(()));
    assert_eq!(manager.state(TARGET), HookState::Enabled);
    assert_eq!(manager.enable(TARGET), Ok(()));
    assert_eq!(manager.state(TARGET), HookState::Enabled);
    assert_eq!(manager.disable(TARGET), Ok(()));
    assert_eq!(manager.state(TARGET), HookState::Disabled);
    assert_eq!(manager.disable(TARGET), Ok(()));
    assert_eq!(manager.state(TARGET), HookState::Disabled);
    assert_eq!(manager.enable(TARGET), Ok(()));
    assert_eq!(manager.state(TARGET), HookState::Enabled);
}

#[test]
fn disable_leaves_a_hook_that_was_never_enabled() {
    let mut manager = HookManager::new();
    manager.install(TARGET, 7, true).unwrap();
    assert_eq!(manager.disable(TARGET), Ok(()));
    assert_eq!(manager.state(TARGET), HookState::Installed);
}

#[test]
fn operations_on_a_target_without_hook_are_refused() {
    let mut manager = HookManager::new();
    assert_eq!(manager.enable(TARGET), Err(HookError::NotInstalled));
    assert_eq!(manager.disable(TARGET), Err(HookError::NotInstalled));
    assert_eq!(manager.call_through(TARGET), Err(HookError::NotInstalled));
    assert_eq!(manager.leave(TARGET), Err(HookError::NotInstalled));
    assert_eq!(manager.enter(TARGET), None);
    assert_eq!(manager.state(TARGET), HookState::Uninitialized);
}

#[test]
fn calls_go_to_the_interceptor_of_an_enabled_hook_only() {
    let mut manager = HookManager::new();
    manager.install(TARGET, 7, true).unwrap();
    assert_eq!(manager.enter(TARGET), None);
    manager.enable(TARGET).unwrap();
    assert_eq!(manager.enter(TARGET), Some(7));
    assert_eq!(manager.hook(TARGET).unwrap().in_flight, 1);
    manager.leave(TARGET).unwrap();
    manager.disable(TARGET).unwrap();
    assert_eq!(manager.enter(TARGET), None);
    assert_eq!(manager.hook(TARGET).unwrap().in_flight, 0);
}

#[test]
fn call_through_is_granted_inside_the_interceptor_only() {
    let mut manager = HookManager::new();
    manager.install(TARGET, 7, true).unwrap();
    manager.enable(TARGET).unwrap();
    assert_eq!(manager.call_through(TARGET), Err(HookError::NotIntercepting));
    manager.enter(TARGET).unwrap();
    assert_eq!(manager.call_through(TARGET), Ok(TARGET));
    manager.leave(TARGET).unwrap();
    assert_eq!(manager.call_through(TARGET), Err(HookError::NotIntercepting));
    assert_eq!(manager.leave(TARGET), Err(HookError::NotIntercepting));
}

#[test]
fn disable_is_refused_while_a_call_is_in_flight() {
    let mut manager = HookManager::new();
    manager.install(TARGET, 7, true).unwrap();
    manager.enable(TARGET).unwrap();
    manager.enter(TARGET).unwrap();
    assert_eq!(manager.disable(TARGET), Err(HookError::CallInFlight));
    assert_eq!(manager.state(TARGET), HookState::Enabled);
    manager.leave(TARGET).unwrap();
    assert_eq!(manager.disable(TARGET), Ok(()));
    assert_eq!(manager.state(TARGET), HookState::Disabled);
}

#[test]
fn nested_calls_are_counted() {
    let mut manager = HookManager::new();
    manager.install(TARGET, 7, true).unwrap();
    manager.enable(TARGET).unwrap();
    assert_eq!(manager.enter(TARGET), Some(7));
    assert_eq!(manager.call_through(TARGET), Ok(TARGET));
    assert_eq!(manager.enter(TARGET), Some(7));
    assert_eq!(manager.hook(TARGET).unwrap().in_flight, 2);
    assert_eq!(manager.call_through(TARGET), Ok(TARGET));
    assert_eq!(manager.leave(TARGET), Ok(()));
    assert_eq!(manager.disable(TARGET), Err(HookError::CallInFlight));
    assert_eq!(manager.leave(TARGET), Ok(()));
    assert_eq!(manager.hook(TARGET).unwrap().in_flight, 0);
    assert_eq!(manager.disable(TARGET), Ok(()));
}
