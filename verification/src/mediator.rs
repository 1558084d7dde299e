//! The object table of the event mediator: which handle receives the events of which object.
use std::collections::HashMap;

use vstd::prelude::*;

use crate::arguments::{string_encodable, string_wire};
use crate::display::{
    display_error_parse_spec, lemma_display_error_roundtrip, DeleteId, DisplayError, DELETE_ID_OP_CODE, ERROR_OP_CODE,
};
use crate::message::OpaqueMessage;
use crate::object_id::OpaqueObjectId;
use crate::stream::MessageUtils;
use crate::wire::{lemma_u32_value_roundtrip, u32_from_ne, u32_ne_bytes};

verus! {

broadcast use vstd::std_specs::hash::group_hash_axioms;

/// Identifier of the `wl_display` singleton.
pub const WL_DISPLAY_ID: u32 = 1;

/// What the event loop does with an inbound event after [`ObjectMap::handle_read_message`].
pub enum InboundAction<F> {
    /// A `wl_display::delete_id` removed the object; its identifier goes back to the pool.
    ReturnId(OpaqueObjectId),
    /// A `wl_display::delete_id` named the null identifier, which is ignored.
    NullIdIgnored,
    /// A `wl_display` event that should have been a `delete_id` or an `error` did not decode.
    Undecodable,
    /// A `wl_display::error` about `wl_display` itself; nothing to forward it to.
    DisplayError { code: u32, message: String },
    /// A `wl_display::error` to forward to the handle of the object it concerns.
    ForwardError { object_id: OpaqueObjectId, code: u32, message: String },
    /// An ordinary event to forward to the handle of the object it is addressed to.
    ForwardEvent { object_id: OpaqueObjectId, message: OpaqueMessage<F> },
}

/// How an event received for `object_id` is routed, given the object table `before` and
/// `after` it: a `wl_display::delete_id` removes the object and returns its identifier (the
/// null identifier and an undecodable event change nothing), a `wl_display::error` is reported
/// or forwarded to the object it concerns, and any other event is forwarded unchanged.
pub open spec fn read_message_routed<H, F>(
    object_id: u32,
    message: OpaqueMessage<F>,
    before: Map<u32, H>,
    after: Map<u32, H>,
    action: InboundAction<F>,
) -> bool {
    let args = message.argument_view();
    let for_display = object_id == WL_DISPLAY_ID;
    if for_display && message.op_code_view() == DELETE_ID_OP_CODE {
        if args.len() < 4 {
            action is Undecodable && after == before
        } else if u32_from_ne(args) == 0 {
            action is NullIdIgnored && after == before
        } else {
            action == InboundAction::<F>::ReturnId(OpaqueObjectId(u32_from_ne(args)))
                && after == before.remove(u32_from_ne(args))
        }
    } else if for_display && message.op_code_view() == ERROR_OP_CODE {
        &&& after == before
        &&& match display_error_parse_spec(args) {
            Err(_) => action is Undecodable,
            Ok((target, code, text)) => if target == WL_DISPLAY_ID {
                action matches InboundAction::DisplayError { code: c, message: m } && c == code && m@ == text
            } else {
                action matches InboundAction::ForwardError { object_id: o, code: c, message: m } && o@
                    == target && c == code && m@ == text
            },
        }
    } else {
        &&& after == before
        &&& action matches InboundAction::ForwardEvent { object_id: o, message: m } && o@ == object_id
            && m == message
    }
}

/// On `wl_display` (object 1), a `delete_id` (opcode 1) whose first word is a non-null `id`
/// removes exactly that object from the table and returns `id`.
pub proof fn lemma_delete_id_routed<H, F>(
    message: OpaqueMessage<F>,
    before: Map<u32, H>,
    after: Map<u32, H>,
    action: InboundAction<F>,
    id: u32,
    rest: Seq<u8>,
)
    requires
        read_message_routed(1, message, before, after, action),
        message.op_code_view() == 1,
        message.argument_view() == u32_ne_bytes(id) + rest,
        id != 0,
    ensures
        action == InboundAction::<F>::ReturnId(OpaqueObjectId(id)),
        after == before.remove(id),
{
    lemma_u32_value_roundtrip(id);
    let args = u32_ne_bytes(id) + rest;
    assert(args.take(4) =~= u32_ne_bytes(id));
    assert(u32_from_ne(args) == u32_from_ne(args.take(4)));
}

/// On `wl_display` (object 1), an `error` (opcode 0) laid out as object `o`, code `c` and
/// message `m` leaves the table alone and goes to `o` with that code and message, or is
/// reported on the display itself when `o` is the display.
pub proof fn lemma_error_routed<H, F>(
    message: OpaqueMessage<F>,
    before: Map<u32, H>,
    after: Map<u32, H>,
    action: InboundAction<F>,
    o: u32,
    c: u32,
    m: Seq<char>,
)
    requires
        read_message_routed(1, message, before, after, action),
        message.op_code_view() == 0,
        message.argument_view() == u32_ne_bytes(o) + u32_ne_bytes(c) + string_wire(m),
        o != 0,
        string_encodable(m),
    ensures
        after == before,
        o != 1 ==> (action matches InboundAction::ForwardError { object_id: t, code: k, message: text } && t@ == o
            && k == c && text@ == m),
        o == 1 ==> (action matches InboundAction::DisplayError { code: k, message: text } && k == c && text@ == m),
{
    lemma_display_error_roundtrip::<F>(o, c, m);
}

/// Any event for another object than `wl_display`, or with another opcode, is forwarded
/// unchanged to the object it is addressed to, and the table stays as it was.
pub proof fn lemma_other_events_forwarded<H, F>(
    object_id: u32,
    message: OpaqueMessage<F>,
    before: Map<u32, H>,
    after: Map<u32, H>,
    action: InboundAction<F>,
)
    requires
        read_message_routed(object_id, message, before, after, action),
        object_id != 1 || (message.op_code_view() != 0 && message.op_code_view() != 1),
    ensures
        after == before,
        action matches InboundAction::ForwardEvent { object_id: t, message: e } && t@ == object_id && e == message,
{
}

/// What wakes the event mediator: a registration from a new handle, or the result of reading
/// the socket. Registrations are looked at first, so that a new object's handle is known
/// before its first event is routed.
pub enum MediatorInput<H, F> {
    /// A handle asks to receive the events of a new object.
    Register(OpaqueObjectId, H),
    /// Every sender of registrations is gone.
    MediatorClosed,
    /// An event arrived for the object with this identifier.
    Inbound(u32, OpaqueMessage<F>),
    /// Bytes could not be read or framed; framing errors are fatal.
    ReadFailed,
    /// The socket's read half closed.
    ReadClosed,
}

/// What the event mediator does after one input.
pub enum MediatorStep<F> {
    /// A handle was registered; `overwritten` when one was already registered for the object.
    Registered { overwritten: bool },
    /// An inbound event was routed; the loop carries out the action.
    Act(InboundAction<F>),
    /// The loop ends.
    Stop,
}

/// Maps object identifiers to the handles that receive their events.
pub struct ObjectMap<H> {
    object_map: HashMap<u32, H>,
}

impl<H> View for ObjectMap<H> {
    type V = Map<u32, H>;

    closed spec fn view(&self) -> Map<u32, H> {
        self.object_map@
    }
}

impl<H> ObjectMap<H> {
    /// An empty table.
    pub fn new() -> (map: Self)
        ensures
            map@ == Map::<u32, H>::empty(),
    {
        ObjectMap { object_map: HashMap::new() }
    }

    /// Registers the handle of a new object. Returns whether a handle was already registered
    /// for it, which it replaces (identifiers should be unique).
    pub fn register(&mut self, object_id: OpaqueObjectId, handle: H) -> (overwritten: bool)
        ensures
            final(self)@ == old(self)@.insert(object_id@, handle),
            overwritten == old(self)@.contains_key(object_id@),
    {
        self.object_map.insert(object_id.0, handle).is_some()
    }

    /// Handles `wl_display::delete_id`: the object's entry is removed and its identifier is
    /// returned, to go back to the identifier pool. The null identifier is ignored.
    pub fn delete_id(&mut self, id: u32) -> (returned: Option<OpaqueObjectId>)
        ensures
            id == 0 ==> returned is None && final(self)@ == old(self)@,
            id != 0 ==> returned == Some(OpaqueObjectId(id)) && final(self)@ == old(self)@.remove(id),
    {
        if id == 0 {
            return None;
        }
        self.object_map.remove(&id);
        Some(OpaqueObjectId(id))
    }

    /// The handle that events of `object_id` are forwarded to, if one is registered.
    pub fn handle(&self, object_id: OpaqueObjectId) -> (handle: Option<&H>)
        ensures
            match handle {
                Some(h) => self@.contains_key(object_id@) && *h == self@[object_id@],
                None => !self@.contains_key(object_id@),
            },
    {
        self.object_map.get(&object_id.0)
    }

    /// The handle that a `wl_display::error` about `object_id` is forwarded to: none when the
    /// error concerns `wl_display` itself, else the object's handle if one is registered.
    pub fn error_recipient(&self, object_id: OpaqueObjectId) -> (handle: Option<&H>)
        ensures
            match handle {
                Some(h) => object_id@ != WL_DISPLAY_ID && self@.contains_key(object_id@) && *h == self@[object_id@],
                None => object_id@ == WL_DISPLAY_ID || !self@.contains_key(object_id@),
            },
    {
        if object_id.0 == WL_DISPLAY_ID {
            return None;
        }
        self.handle(object_id)
    }

    /// Routes an event received for `object_id`: the `wl_display::delete_id` and
    /// `wl_display::error` events are handled here, everything else is forwarded.
    pub fn handle_read_message<F>(&mut self, object_id: u32, message: OpaqueMessage<F>) -> (action: InboundAction<F>)
        ensures
            read_message_routed(object_id, message, old(self)@, final(self)@, action),
    {
        let op_code = message.op_code();
        if object_id == WL_DISPLAY_ID && op_code == DELETE_ID_OP_CODE {
            match MessageUtils::into_concrete_logged::<F, DeleteId>(message) {
                Some(DeleteId { id }) => match self.delete_id(id) {
                    Some(returned) => InboundAction::ReturnId(returned),
                    None => InboundAction::NullIdIgnored,
                },
                None => InboundAction::Undecodable,
            }
        } else if object_id == WL_DISPLAY_ID && op_code == ERROR_OP_CODE {
            match MessageUtils::into_concrete_logged::<F, DisplayError>(message) {
                Some(DisplayError { object_id: target, code, message }) => if target.0 == WL_DISPLAY_ID {
                    InboundAction::DisplayError { code, message }
                } else {
                    InboundAction::ForwardError { object_id: target, code, message }
                },
                None => InboundAction::Undecodable,
            }
        } else {
            InboundAction::ForwardEvent { object_id: OpaqueObjectId(object_id), message }
        }
    }

    /// One turn of the event mediator's loop: registrations update the table, inbound events
    /// are routed as [`Self::handle_read_message`] does, and a closed channel, a closed socket
    /// or a read error ends the loop.
    pub fn step<F>(&mut self, input: MediatorInput<H, F>) -> (step: MediatorStep<F>)
        ensures
            match input {
                MediatorInput::Register(object_id, handle) => {
                    &&& final(self)@ == old(self)@.insert(object_id@, handle)
                    &&& step matches MediatorStep::Registered { overwritten }
                    &&& overwritten == old(self)@.contains_key(object_id@)
                },
                MediatorInput::Inbound(object_id, message) => {
                    &&& step matches MediatorStep::Act(action)
                    &&& read_message_routed(object_id, message, old(self)@, final(self)@, action)
                },
                _ => step is Stop && final(self)@ == old(self)@,
            },
    {
        match input {
            MediatorInput::Register(object_id, handle) => {
                let overwritten = self.register(object_id, handle);
                MediatorStep::Registered { overwritten }
            },
            MediatorInput::Inbound(object_id, message) => MediatorStep::Act(self.handle_read_message(object_id, message)),
            MediatorInput::MediatorClosed => MediatorStep::Stop,
            MediatorInput::ReadFailed => MediatorStep::Stop,
            MediatorInput::ReadClosed => MediatorStep::Stop,
        }
    }
}

} // verus!
