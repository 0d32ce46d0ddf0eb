use rivals_rwinner::chase::ResolutionError;
use rivals_rwinner::hook::{intercept, locate_target, HookError, HookState, InterceptedFunction, Interception};

#[test]
fn new_hook_is_uninstalled() {
    let hook = InterceptedFunction::new();
    assert_eq!(hook.state, HookState::Uninstalled);
    assert!(!hook.is_enabled());
}

#[test]
fn install_then_enable_then_disable() {
    let mut hook = InterceptedFunction::new();
    assert_eq!(hook.install(0x0040_1000, 0x7000_0000), Ok(()));
    assert_eq!(hook, InterceptedFunction { target: 0x0040_1000, callback: 0x7000_0000, state: HookState::Installed });
    assert_eq!(hook.enable(), Ok(()));
    assert_eq!(hook.state, HookState::Enabled);
    assert!(hook.is_enabled());
    hook.disable();
    assert_eq!(hook.state, HookState::Disabled);
    assert_eq!(hook.enable(), Ok(()));
    assert_eq!(hook.state, HookState::Enabled);
}

#[test]
fn install_fails_on_null_target() {
    let mut hook = InterceptedFunction::new();
    assert_eq!(hook.install(0, 0x7000_0000), Err(HookError::UnresolvedTarget));
    assert_eq!(hook, InterceptedFunction::new());
}

#[test]
fn install_twice_fails() {
    let mut hook = InterceptedFunction::new();
    hook.install(0x0040_1000, 0x7000_0000).unwrap();
    assert_eq!(hook.install(0x0040_2000, 0x7000_0008), Err(HookError::AlreadyInstalled));
    assert_eq!(hook.target, 0x0040_1000);
    assert_eq!(hook.state, HookState::Installed);
}

#[test]
fn enable_without_install_is_an_error() {
    let mut hook = InterceptedFunction::new();
    assert_eq!(hook.enable(), Err(HookError::NotInstalled));
    assert_eq!(hook.state, HookState::Uninstalled);
}

#[test]
fn enable_twice_is_harmless() {
    let mut hook = InterceptedFunction::new();
    hook.install(0x0040_1000, 0x7000_0000).unwrap();
    assert_eq!(hook.enable(), Ok(()));
    let once = hook;
    assert_eq!(hook.enable(), Ok(()));
    assert_eq!(hook, once);
}

#[test]
fn disable_before_enable_changes_nothing() {
    let mut hook = InterceptedFunction::new();
    hook.disable();
    assert_eq!(hook, InterceptedFunction::new());
    hook.install(0x0040_1000, 0x7000_0000).unwrap();
    hook.disable();
    assert_eq!(hook.state, HookState::Installed);
    hook.enable().unwrap();
    hook.disable();
    hook.disable();
    assert_eq!(hook.state, HookState::Disabled);
}

#[test]
fn locate_target_adds_the_offset() {
    assert_eq!(locate_target(0x0040_0000, 0x1234), Some(0x0040_1234));
    assert_eq!(locate_target(u64::MAX, 1), None);
    assert_eq!(locate_target(u64::MAX - 1, 1), Some(u64::MAX));
}

#[test]
fn intercept_always_forwards_the_arguments() {
    let hit = intercept(0x0080_0000, 0x0090_0000, Ok(0x0080_0000));
    assert_eq!(hit, Interception { emit: true, forward_this: 0x0080_0000, forward_value: 0x0090_0000 });
    let miss = intercept(0x0080_0008, 0x0090_0000, Ok(0x0080_0000));
    assert_eq!(miss, Interception { emit: false, forward_this: 0x0080_0008, forward_value: 0x0090_0000 });
    let failed = intercept(0x0080_0000, 0x0090_0000, Err(ResolutionError::OutOfRange));
    assert_eq!(failed, Interception { emit: false, forward_this: 0x0080_0000, forward_value: 0x0090_0000 });
    let null = intercept(0, 7, Err(ResolutionError::NullPointer(0)));
    assert_eq!(null, Interception { emit: false, forward_this: 0, forward_value: 7 });
}
