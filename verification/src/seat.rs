//! Tracking which input devices a `wl_seat` currently offers.
use vstd::prelude::*;

use crate::request::RequestError;

verus! {

/// `wl_seat` capability bit of a pointer device.
pub const CAPABILITY_POINTER: u32 = 1;

/// `wl_seat` capability bit of a keyboard device.
pub const CAPABILITY_KEYBOARD: u32 = 2;

/// `wl_seat` capability bit of a touch device.
pub const CAPABILITY_TOUCH: u32 = 4;

/// What happens to a device's removal broadcast when the seat announces its capabilities.
#[derive(Debug, Clone, Copy, PartialEq, Eq, Structural)]
pub enum CapabilityChange {
    /// The capability appeared: open a broadcast for the device.
    Open,
    /// The capability disappeared: close the broadcast, telling every device handle.
    Close,
    /// Nothing to do.
    Keep,
}

/// The change for one device, given whether its broadcast is open and whether the announced
/// capabilities contain it.
pub open spec fn spec_capability_change(has_broadcast: bool, has_capability: bool) -> CapabilityChange {
    if !has_broadcast && has_capability {
        CapabilityChange::Open
    } else if has_broadcast && !has_capability {
        CapabilityChange::Close
    } else {
        CapabilityChange::Keep
    }
}

/// Whether the capability set `capabilities` contains `bit`.
pub open spec fn has_capability(capabilities: u32, bit: u32) -> bool {
    capabilities & bit == bit
}

/// Decides what to do with one device's broadcast.
pub fn handle_capability_impl(has_broadcast: bool, has_capability: bool) -> (change: CapabilityChange)
    ensures
        change == spec_capability_change(has_broadcast, has_capability),
{
    match (has_broadcast, has_capability) {
        (false, true) => CapabilityChange::Open,
        (true, false) => CapabilityChange::Close,
        _ => CapabilityChange::Keep,
    }
}

/// Which devices of a seat have an open removal broadcast.
#[derive(Debug, Clone, Copy, PartialEq, Eq, Structural)]
pub struct SeatCapabilities {
    pub pointer: bool,
    pub keyboard: bool,
    pub touch: bool,
}

impl SeatCapabilities {
    /// No device offered yet.
    pub fn new() -> (state: Self)
        ensures
            !state.pointer && !state.keyboard && !state.touch,
    {
        SeatCapabilities { pointer: false, keyboard: false, touch: false }
    }

    /// Applies a `wl_seat::capabilities` announcement: afterwards a device has a broadcast
    /// exactly when the announcement contains it. Returns the change for the pointer, the
    /// keyboard and the touch device.
    pub fn handle_capability_change(&mut self, new_capability: u32) -> (changes: (
        CapabilityChange,
        CapabilityChange,
        CapabilityChange,
    ))
        ensures
            final(self).pointer == has_capability(new_capability, CAPABILITY_POINTER),
            final(self).keyboard == has_capability(new_capability, CAPABILITY_KEYBOARD),
            final(self).touch == has_capability(new_capability, CAPABILITY_TOUCH),
            changes.0 == spec_capability_change(old(self).pointer, has_capability(new_capability, CAPABILITY_POINTER)),
            changes.1 == spec_capability_change(old(self).keyboard, has_capability(new_capability, CAPABILITY_KEYBOARD)),
            changes.2 == spec_capability_change(old(self).touch, has_capability(new_capability, CAPABILITY_TOUCH)),
    {
        let pointer = new_capability & CAPABILITY_POINTER == CAPABILITY_POINTER;
        let keyboard = new_capability & CAPABILITY_KEYBOARD == CAPABILITY_KEYBOARD;
        let touch = new_capability & CAPABILITY_TOUCH == CAPABILITY_TOUCH;
        let changes = (
            handle_capability_impl(self.pointer, pointer),
            handle_capability_impl(self.keyboard, keyboard),
            handle_capability_impl(self.touch, touch),
        );
        self.pointer = pointer;
        self.keyboard = keyboard;
        self.touch = touch;
        changes
    }
}

/// An input device of a seat.
#[derive(Debug, Clone, Copy, PartialEq, Eq, Structural)]
pub enum InputDevice {
    /// `wl_pointer`.
    Pointer,
    /// `wl_keyboard`.
    Keyboard,
    /// `wl_touch`.
    Touch,
}

/// Why an input device handle could not be had.
#[derive(Debug)]
pub enum SeatGetInputError {
    /// The request that creates the device object could not be enqueued.
    Init(RequestError),
    /// Input device capability not announced by server.
    MissingCapability,
}

impl SeatCapabilities {
    /// Whether `device` has an open broadcast, that is, whether the last announcement
    /// contained it.
    pub open spec fn spec_offers(&self, device: InputDevice) -> bool {
        match device {
            InputDevice::Pointer => self.pointer,
            InputDevice::Keyboard => self.keyboard,
            InputDevice::Touch => self.touch,
        }
    }

    /// The check made before a device object is created: the seat must currently offer the
    /// device, else the request fails with [`SeatGetInputError::MissingCapability`].
    pub fn require_device(&self, device: InputDevice) -> (res: Result<(), SeatGetInputError>)
        ensures
            res is Ok <==> self.spec_offers(device),
            res is Err ==> res matches Err(SeatGetInputError::MissingCapability),
    {
        let offered = match device {
            InputDevice::Pointer => self.pointer,
            InputDevice::Keyboard => self.keyboard,
            InputDevice::Touch => self.touch,
        };
        if offered {
            Ok(())
        } else {
            Err(SeatGetInputError::MissingCapability)
        }
    }
}

/// Announcing the same capabilities twice changes nothing the second time.
pub proof fn lemma_capability_change_idempotent(has_broadcast: bool, has_capability: bool)
    ensures
        ({
            let after = match spec_capability_change(has_broadcast, has_capability) {
                CapabilityChange::Open => true,
                CapabilityChange::Close => false,
                CapabilityChange::Keep => has_broadcast,
            };
            &&& after == has_capability
            &&& spec_capability_change(after, has_capability) == CapabilityChange::Keep
        }),
{
}

/// A device's broadcast opens when its capability appears, closes when it disappears, and is
/// otherwise left alone; a capability is present when its bit is set in the announcement, the
/// pointer, keyboard and touch bits being 1, 2 and 4.
pub proof fn lemma_capability_change_table(capabilities: u32)
    ensures
        spec_capability_change(false, true) == CapabilityChange::Open,
        spec_capability_change(true, false) == CapabilityChange::Close,
        spec_capability_change(true, true) == CapabilityChange::Keep,
        spec_capability_change(false, false) == CapabilityChange::Keep,
        has_capability(capabilities, CAPABILITY_POINTER) <==> capabilities & 1 != 0,
        has_capability(capabilities, CAPABILITY_KEYBOARD) <==> capabilities & 2 != 0,
        has_capability(capabilities, CAPABILITY_TOUCH) <==> capabilities & 4 != 0,
{
    assert(capabilities & 1 == 1 <==> capabilities & 1 != 0) by (bit_vector);
    assert(capabilities & 2 == 2 <==> capabilities & 2 != 0) by (bit_vector);
    assert(capabilities & 4 == 4 <==> capabilities & 4 != 0) by (bit_vector);
}

} // verus!
