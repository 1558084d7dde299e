use cosplay::display::{DeleteId, DisplayError};
use cosplay::mediator::{InboundAction, MediatorInput, MediatorStep, ObjectMap, WL_DISPLAY_ID};
use cosplay::{OpaqueMessage, OpaqueObjectId};

#[test]
fn register_and_forward() {
    let mut map = ObjectMap::new();
    assert!(!map.register(OpaqueObjectId(5), "five"));
    assert_eq!(Some(&"five"), map.handle(OpaqueObjectId(5)));
    assert_eq!(None, map.handle(OpaqueObjectId(6)));
}

#[test]
fn register_twice_overwrites() {
    let mut map = ObjectMap::new();
    map.register(OpaqueObjectId(5), "first");
    assert!(map.register(OpaqueObjectId(5), "second"));
    assert_eq!(Some(&"second"), map.handle(OpaqueObjectId(5)));
}

#[test]
fn delete_id_removes_and_returns() {
    let mut map = ObjectMap::new();
    map.register(OpaqueObjectId(5), "five");
    assert_eq!(Some(OpaqueObjectId(5)), map.delete_id(5));
    assert_eq!(None, map.handle(OpaqueObjectId(5)));
}

#[test]
fn delete_id_zero_ignored() {
    let mut map: ObjectMap<&str> = ObjectMap::new();
    assert_eq!(None, map.delete_id(0));
}

#[test]
fn display_errors_are_not_forwarded() {
    let mut map = ObjectMap::new();
    map.register(OpaqueObjectId(WL_DISPLAY_ID), "display");
    map.register(OpaqueObjectId(3), "three");
    assert_eq!(None, map.error_recipient(OpaqueObjectId(WL_DISPLAY_ID)));
    assert_eq!(Some(&"three"), map.error_recipient(OpaqueObjectId(3)));
    assert_eq!(None, map.error_recipient(OpaqueObjectId(4)));
}

#[test]
fn delete_id_event_returns_id() {
    let mut map = ObjectMap::new();
    map.register(OpaqueObjectId(8), "eight");
    let event = OpaqueMessage::<i32>::from_concrete(DeleteId { id: 8 });
    assert!(matches!(map.handle_read_message(WL_DISPLAY_ID, event), InboundAction::ReturnId(OpaqueObjectId(8))));
    assert_eq!(None, map.handle(OpaqueObjectId(8)));
}

#[test]
fn delete_id_event_for_null_ignored() {
    let mut map: ObjectMap<&str> = ObjectMap::new();
    let event = OpaqueMessage::<i32>::from_concrete(DeleteId { id: 0 });
    assert!(matches!(map.handle_read_message(WL_DISPLAY_ID, event), InboundAction::NullIdIgnored));
}

#[test]
fn error_event_forwarded_to_object() {
    let mut map: ObjectMap<&str> = ObjectMap::new();
    let event = OpaqueMessage::<i32>::from_concrete(DisplayError {
        object_id: OpaqueObjectId(5),
        code: 3,
        message: "oops".to_string(),
    });
    match map.handle_read_message(WL_DISPLAY_ID, event) {
        InboundAction::ForwardError { object_id, code, message } => {
            assert_eq!(OpaqueObjectId(5), object_id);
            assert_eq!(3, code);
            assert_eq!("oops", message);
        }
        _ => panic!("expected the error to be forwarded"),
    }
}

#[test]
fn error_event_about_display_not_forwarded() {
    let mut map: ObjectMap<&str> = ObjectMap::new();
    let event = OpaqueMessage::<i32>::from_concrete(DisplayError {
        object_id: OpaqueObjectId(WL_DISPLAY_ID),
        code: 1,
        message: "display".to_string(),
    });
    assert!(matches!(map.handle_read_message(WL_DISPLAY_ID, event), InboundAction::DisplayError { code: 1, .. }));
}

#[test]
fn other_events_forwarded() {
    let mut map: ObjectMap<&str> = ObjectMap::new();
    let event = OpaqueMessage::<i32>::from_concrete(DeleteId { id: 4 });
    match map.handle_read_message(9, event) {
        InboundAction::ForwardEvent { object_id, message } => {
            assert_eq!(OpaqueObjectId(9), object_id);
            assert_eq!(1, message.op_code());
        }
        _ => panic!("expected the event to be forwarded"),
    }
}

#[test]
fn truncated_display_event_undecodable() {
    let mut map: ObjectMap<&str> = ObjectMap::new();
    let event = OpaqueMessage::<i32>::new(1, bytes::BytesMut::from_iter([1u8]), std::collections::VecDeque::new());
    assert!(matches!(map.handle_read_message(WL_DISPLAY_ID, event), InboundAction::Undecodable));
}

#[test]
fn step_registers_then_routes() {
    let mut map = ObjectMap::new();
    let step = map.step(MediatorInput::<&str, i32>::Register(OpaqueObjectId(6), "six"));
    assert!(matches!(step, MediatorStep::Registered { overwritten: false }));
    let step = map.step(MediatorInput::<&str, i32>::Register(OpaqueObjectId(6), "again"));
    assert!(matches!(step, MediatorStep::Registered { overwritten: true }));
    assert_eq!(Some(&"again"), map.handle(OpaqueObjectId(6)));

    let event = OpaqueMessage::<i32>::from_concrete(DeleteId { id: 6 });
    let step = map.step(MediatorInput::Inbound(WL_DISPLAY_ID, event));
    assert!(matches!(step, MediatorStep::Act(InboundAction::ReturnId(OpaqueObjectId(6)))));
    assert_eq!(None, map.handle(OpaqueObjectId(6)));
}

#[test]
fn step_stops_on_closed_or_failed_input() {
    let mut map: ObjectMap<&str> = ObjectMap::new();
    map.register(OpaqueObjectId(2), "two");
    assert!(matches!(map.step(MediatorInput::<&str, i32>::MediatorClosed), MediatorStep::Stop));
    assert!(matches!(map.step(MediatorInput::<&str, i32>::ReadFailed), MediatorStep::Stop));
    assert!(matches!(map.step(MediatorInput::<&str, i32>::ReadClosed), MediatorStep::Stop));
    assert_eq!(Some(&"two"), map.handle(OpaqueObjectId(2)));
}
