use std::collections::HashSet;

use cosplay::toplevel::{
    new_dimensions, new_size_hint, parse_enum_array, process_inbound, Dimensions, SyncOutcome, TopLevelState,
    ToplevelConfigChange, ToplevelEvent, ToplevelStateError, ToplevelSync,
};
use cosplay::ToplevelConfigSerial;

fn assert_parse_array(items: &[u32]) {
    let mut buffer = Vec::new();

    for item in items {
        buffer.extend_from_slice(&item.to_ne_bytes());
    }

    let actual = parse_enum_array(buffer);

    let expected: HashSet<u32> = HashSet::from_iter(items.iter().copied());

    assert_eq!(expected, actual);
}

#[test]
fn parse_states() {
    // xdg_toplevel.state: maximized, resizing, tiled_bottom.
    assert_parse_array(&[1, 3, 8]);
}

#[test]
fn parse_capabilities() {
    // xdg_toplevel.wm_capabilities: maximize, window_menu, fullscreen.
    assert_parse_array(&[2, 1, 3]);
}

#[test]
fn parse_ignores_trailing_bytes() {
    let mut buffer = 7u32.to_ne_bytes().to_vec();
    buffer.extend_from_slice(&[1, 2, 3]);
    assert_eq!(HashSet::from([7]), parse_enum_array(buffer));
}

#[test]
fn parse_repeated_values_once() {
    assert_parse_array(&[1, 3, 1]);
    assert_eq!(2, parse_enum_array(states_bytes(&[1, 3, 1])).len());
}

#[test]
fn parse_empty_array() {
    assert!(parse_enum_array(Vec::new()).is_empty());
}

#[test]
fn config_serial_roundtrip() {
    assert_eq!(42, ToplevelConfigSerial::new(42).into_serial());
}

fn states_bytes(items: &[u32]) -> Vec<u8> {
    items.iter().flat_map(|item| item.to_ne_bytes()).collect()
}

#[test]
fn bounds_zero_means_none() {
    assert_eq!(Ok(None), new_dimensions(0, 0));
    assert_eq!(Ok(Some(Dimensions { width: 0, height: 5 })), new_dimensions(0, 5));
    assert_eq!(Err(ToplevelStateError::IntegerOverflow(-1, 5)), new_dimensions(-1, 5));
    assert_eq!(Err(ToplevelStateError::IntegerOverflow(70000, 5)), new_dimensions(70000, 5));
}

#[test]
fn size_with_a_zero_side_means_none() {
    assert_eq!(Ok(None), new_size_hint(0, 0));
    assert_eq!(Ok(None), new_size_hint(0, 600));
    assert_eq!(Ok(None), new_size_hint(800, 0));
    assert_eq!(Ok(None), new_size_hint(0, 70000));
    assert_eq!(Ok(Some(Dimensions { width: 800, height: 600 })), new_size_hint(800, 600));
    assert_eq!(Err(ToplevelStateError::IntegerOverflow(-1, 5)), new_size_hint(-1, 5));
}

#[test]
fn configure_with_zero_width_leaves_size_to_client() {
    let mut change = ToplevelConfigChange::new();
    let event = ToplevelEvent::Configure { width: 0, height: 600, states: Vec::new() };
    assert_eq!(Ok(false), process_inbound(event, &mut change));
    assert_eq!(None, change.size_hint);
}

#[test]
fn configure_overflow_is_an_error() {
    let mut change = ToplevelConfigChange::new();
    let event = ToplevelEvent::Configure { width: 70000, height: 600, states: Vec::new() };
    assert_eq!(Err(ToplevelStateError::IntegerOverflow(70000, 600)), process_inbound(event, &mut change));
    assert_eq!(ToplevelConfigChange::new(), change);
}

#[test]
fn configure_sets_size_and_states() {
    let mut change = ToplevelConfigChange::new();
    let event = ToplevelEvent::Configure { width: 640, height: 480, states: states_bytes(&[1, 4]) };
    assert_eq!(Ok(false), process_inbound(event, &mut change));
    assert_eq!(Some(Dimensions { width: 640, height: 480 }), change.size_hint);
    assert_eq!(HashSet::from([1, 4]), change.states);
    assert_eq!(None, change.bounds_hint);
}

#[test]
fn configure_bounds_sets_bounds_hint() {
    let mut change = ToplevelConfigChange::new();
    assert_eq!(Ok(false), process_inbound(ToplevelEvent::ConfigureBounds { width: 1920, height: 1080 }, &mut change));
    assert_eq!(Some(Dimensions { width: 1920, height: 1080 }), change.bounds_hint);
    assert_eq!(None, change.size_hint);
}

#[test]
fn close_requested() {
    let mut change = ToplevelConfigChange::new();
    assert_eq!(Ok(true), process_inbound(ToplevelEvent::Close, &mut change));
    assert_eq!(ToplevelConfigChange::new(), change);
}

#[test]
fn sync_with_serial_is_ready() {
    let mut sync = ToplevelSync::new();
    sync.toplevel_event(ToplevelEvent::WmCapabilities { capabilities: states_bytes(&[2]) }).unwrap();
    sync.surface_configure(10);
    sync.surface_configure(11);
    match sync.decide(false) {
        SyncOutcome::Ready(TopLevelState::Configure { serial, change }) => {
            assert_eq!(11, serial.into_serial());
            assert_eq!(HashSet::from([2]), change.capabilities);
        }
        _ => panic!("expected a configure state"),
    }
}

#[test]
fn sync_without_serial_waits_after_change() {
    let mut sync = ToplevelSync::new();
    sync.toplevel_event(ToplevelEvent::ConfigureBounds { width: 1, height: 1 }).unwrap();
    match sync.decide(false) {
        SyncOutcome::Wait(waiting) => match waiting.complete(3) {
            TopLevelState::Configure { serial, change } => {
                assert_eq!(3, serial.into_serial());
                assert_eq!(Some(Dimensions { width: 1, height: 1 }), change.bounds_hint);
            }
            TopLevelState::ShouldClose => panic!("expected a configure state"),
        },
        _ => panic!("expected to wait"),
    }
}

#[test]
fn sync_without_anything() {
    assert!(matches!(ToplevelSync::new().decide(false), SyncOutcome::Nothing));
    assert!(matches!(ToplevelSync::new().decide(true), SyncOutcome::Wait(_)));
}
