use cosplay::seat::{
    handle_capability_impl, CapabilityChange, InputDevice, SeatCapabilities, SeatGetInputError, CAPABILITY_KEYBOARD,
    CAPABILITY_POINTER, CAPABILITY_TOUCH,
};

#[test]
fn capability_impl_decisions() {
    assert_eq!(CapabilityChange::Open, handle_capability_impl(false, true));
    assert_eq!(CapabilityChange::Close, handle_capability_impl(true, false));
    assert_eq!(CapabilityChange::Keep, handle_capability_impl(true, true));
    assert_eq!(CapabilityChange::Keep, handle_capability_impl(false, false));
}

#[test]
fn capability_appears_then_disappears() {
    let mut state = SeatCapabilities::new();

    let changes = state.handle_capability_change(CAPABILITY_POINTER);
    assert_eq!((CapabilityChange::Open, CapabilityChange::Keep, CapabilityChange::Keep), changes);
    assert!(state.pointer && !state.keyboard && !state.touch);

    let changes = state.handle_capability_change(0);
    assert_eq!((CapabilityChange::Close, CapabilityChange::Keep, CapabilityChange::Keep), changes);
    assert!(!state.pointer);
}

#[test]
fn repeated_announcement_changes_nothing() {
    let mut state = SeatCapabilities::new();
    let all = CAPABILITY_POINTER | CAPABILITY_KEYBOARD | CAPABILITY_TOUCH;

    state.handle_capability_change(all);
    let changes = state.handle_capability_change(all);
    assert_eq!((CapabilityChange::Keep, CapabilityChange::Keep, CapabilityChange::Keep), changes);
    assert!(state.pointer && state.keyboard && state.touch);
}

#[test]
fn other_capability_does_not_open_device() {
    let mut state = SeatCapabilities::new();
    let changes = state.handle_capability_change(CAPABILITY_KEYBOARD);
    assert_eq!((CapabilityChange::Keep, CapabilityChange::Open, CapabilityChange::Keep), changes);
    assert!(!state.pointer && state.keyboard && !state.touch);
}

fn removal_sends_broadcast_impl(capability: u32) -> (CapabilityChange, CapabilityChange, CapabilityChange) {
    let mut state = SeatCapabilities::new();
    state.handle_capability_change(capability);
    state.handle_capability_change(0)
}

#[test]
fn pointer_removal_sends_broadcast() {
    let closed = removal_sends_broadcast_impl(CAPABILITY_POINTER);
    assert_eq!(CapabilityChange::Close, closed.0);
}

#[test]
fn keyboard_removal_sends_broadcast() {
    let closed = removal_sends_broadcast_impl(CAPABILITY_KEYBOARD);
    assert_eq!(CapabilityChange::Close, closed.1);
}

#[test]
fn touch_removal_sends_broadcast() {
    let closed = removal_sends_broadcast_impl(CAPABILITY_TOUCH);
    assert_eq!(CapabilityChange::Close, closed.2);
}

fn get_device_requires_capability_impl(device: InputDevice, missing_capability: u32, contains_capability: u32) {
    let mut state = SeatCapabilities::new();

    assert!(matches!(state.require_device(device), Err(SeatGetInputError::MissingCapability)));

    state.handle_capability_change(missing_capability);

    assert!(matches!(state.require_device(device), Err(SeatGetInputError::MissingCapability)));

    state.handle_capability_change(contains_capability);

    assert!(state.require_device(device).is_ok());
}

#[test]
fn get_pointer_requires_capability() {
    get_device_requires_capability_impl(InputDevice::Pointer, CAPABILITY_KEYBOARD, CAPABILITY_POINTER);
}

#[test]
fn get_keyboard_requires_capability() {
    get_device_requires_capability_impl(InputDevice::Keyboard, CAPABILITY_TOUCH, CAPABILITY_KEYBOARD);
}

#[test]
fn get_touch_requires_capability() {
    get_device_requires_capability_impl(InputDevice::Touch, CAPABILITY_POINTER, CAPABILITY_TOUCH);
}

#[test]
fn device_lost_after_removal() {
    let mut state = SeatCapabilities::new();
    state.handle_capability_change(CAPABILITY_TOUCH);
    assert!(state.require_device(InputDevice::Touch).is_ok());
    state.handle_capability_change(0);
    assert!(matches!(state.require_device(InputDevice::Touch), Err(SeatGetInputError::MissingCapability)));
}
