//! Pieces of the `xdg_toplevel` configuration handling.
use std::collections::HashSet;

use vstd::prelude::*;

use crate::wire::{lemma_u32_value_roundtrip, u32_from_ne, u32_ne_bytes};

verus! {

broadcast use vstd::std_specs::hash::group_hash_axioms;

/// Serial of an `xdg_surface::configure`, to be acknowledged once.
///
/// Intentionally neither `Clone` nor `Copy`: "It is an error to issue multiple ack_configure
/// requests referencing a serial from the same configure".
#[derive(Debug)]
pub struct ToplevelConfigSerial(u32);

impl ToplevelConfigSerial {
    /// Wraps the serial of a received configure event.
    pub fn new(serial: u32) -> (s: Self)
        ensures
            s@ == serial,
    {
        ToplevelConfigSerial(serial)
    }

    /// The serial, consuming the wrapper so that it is acknowledged only once.
    pub fn into_serial(self) -> (serial: u32)
        ensures
            serial == self@,
    {
        self.0
    }
}

impl View for ToplevelConfigSerial {
    type V = u32;

    closed spec fn view(&self) -> u32 {
        self.0
    }
}

/// `u32::from_ne_bytes`: the integer whose bytes in the host's byte order are `bytes`.
#[verifier::external_body]
fn u32_from_ne_bytes(bytes: [u8; 4]) -> (v: u32)
    ensures
        v == u32_from_ne(bytes@),
{
    u32::from_ne_bytes(bytes)
}

/// The words of an enum array: one host-order word per whole four bytes; trailing bytes that
/// do not make a whole word are ignored.
pub open spec fn enum_array_reprs(bytes: Seq<u8>) -> Seq<u32> {
    Seq::new(bytes.len() / 4, |i: int| u32_from_ne(bytes.subrange(4 * i, 4 * i + 4)))
}

/// Reads the representations of the enum values in an `array` argument, such as the states of
/// an `xdg_toplevel::configure` or the capabilities of an `xdg_toplevel::wm_capabilities`, as
/// a set.
pub fn parse_enum_array(bytes: Vec<u8>) -> (reprs: HashSet<u32>)
    ensures
        reprs@ == enum_array_reprs(bytes@).to_set(),
{
    let mut reprs: HashSet<u32> = HashSet::new();
    let len = bytes.len();
    let chunks = len / 4;
    let mut i: usize = 0;
    proof {
        assert(enum_array_reprs(bytes@).take(0) =~= Seq::<u32>::empty());
        assert(Seq::<u32>::empty().to_set() =~= Set::<u32>::empty());
    }
    while i < chunks
        invariant
            len == bytes@.len(),
            chunks == bytes@.len() / 4,
            i <= chunks,
            reprs@ == enum_array_reprs(bytes@).take(i as int).to_set(),
        decreases chunks - i,
    {
        assert(4 * i + 4 <= bytes@.len()) by (nonlinear_arith)
            requires
                i < chunks,
                chunks == bytes@.len() / 4,
        ;
        let start = 4 * i;
        let chunk = [bytes[start], bytes[start + 1], bytes[start + 2], bytes[start + 3]];
        let repr = u32_from_ne_bytes(chunk);
        proof {
            assert(chunk@ =~= bytes@.subrange(4 * i as int, 4 * i as int + 4));
            let all = enum_array_reprs(bytes@);
            assert(all.take(i + 1) =~= all.take(i as int).push(repr));
            all.take(i as int).lemma_push_to_set_commute(repr);
        }
        reprs.insert(repr);
        i = i + 1;
    }
    proof {
        assert(enum_array_reprs(bytes@).take(chunks as int) =~= enum_array_reprs(bytes@));
    }
    reprs
}

/// The bytes of an enum array holding `reprs`: each as a host-order word.
pub open spec fn enum_array_bytes(reprs: Seq<u32>) -> Seq<u8>
    decreases reprs.len(),
{
    if reprs.len() == 0 {
        Seq::empty()
    } else {
        enum_array_bytes(reprs.drop_last()) + u32_ne_bytes(reprs.last())
    }
}

proof fn lemma_enum_array_bytes_len(reprs: Seq<u32>)
    ensures
        enum_array_bytes(reprs).len() == 4 * reprs.len(),
    decreases reprs.len(),
{
    if reprs.len() > 0 {
        lemma_enum_array_bytes_len(reprs.drop_last());
        lemma_u32_value_roundtrip(reprs.last());
    }
}

/// Reading the array written for `reprs`, followed by fewer than four stray bytes, gives
/// `reprs` back.
pub proof fn lemma_enum_array_roundtrip(reprs: Seq<u32>, trailing: Seq<u8>)
    requires
        trailing.len() < 4,
    ensures
        enum_array_reprs(enum_array_bytes(reprs) + trailing) == reprs,
    decreases reprs.len(),
{
    lemma_enum_array_bytes_len(reprs);
    let all = enum_array_bytes(reprs) + trailing;
    if reprs.len() > 0 {
        let front = reprs.drop_last();
        lemma_enum_array_bytes_len(front);
        lemma_enum_array_roundtrip(front, Seq::empty());
        lemma_u32_value_roundtrip(reprs.last());
        let prefix = enum_array_bytes(front);
        assert(prefix + Seq::<u8>::empty() =~= prefix);
        assert forall|i: int| 0 <= i < reprs.len() implies #[trigger] enum_array_reprs(all)[i] == reprs[i] by {
            if i < front.len() {
                assert(all.subrange(4 * i, 4 * i + 4) =~= prefix.subrange(4 * i, 4 * i + 4));
                assert(enum_array_reprs(prefix)[i] == front[i]);
            } else {
                assert(all.subrange(4 * i, 4 * i + 4) =~= u32_ne_bytes(reprs.last()));
            }
        }
    }
    assert(enum_array_reprs(all) =~= reprs);
}

/// Width and height of a size or bounds hint.
#[derive(Debug, Clone, Copy, PartialEq, Eq, Structural)]
pub struct Dimensions {
    pub width: u16,
    pub height: u16,
}

/// Why a configuration event could not be applied.
#[derive(Debug, Clone, Copy, PartialEq, Eq, Structural)]
pub enum ToplevelStateError {
    /// Failed to convert the provided width (first) or height (second) into an u16.
    IntegerOverflow(i32, i32),
}

/// An event of an `xdg_toplevel`, with its arguments.
#[derive(Debug)]
pub enum ToplevelEvent {
    /// `xdg_toplevel::close`.
    Close,
    /// `xdg_toplevel::configure`: suggested size and the array of states.
    Configure { width: i32, height: i32, states: Vec<u8> },
    /// `xdg_toplevel::configure_bounds`: the bounds of the surface.
    ConfigureBounds { width: i32, height: i32 },
    /// `xdg_toplevel::wm_capabilities`: the array of capabilities.
    WmCapabilities { capabilities: Vec<u8> },
}

/// The configuration gathered from the events that precede an `xdg_surface::configure`.
#[derive(Debug, PartialEq, Eq)]
pub struct ToplevelConfigChange {
    /// From `xdg_toplevel::configure_bounds`: for example the recommended size of a `wl_shm_pool`.
    pub bounds_hint: Option<Dimensions>,
    /// From `xdg_toplevel::configure`: recommended surface size.
    pub size_hint: Option<Dimensions>,
    /// From `xdg_toplevel::configure`: the representations of the states.
    pub states: HashSet<u32>,
    /// From `xdg_toplevel::wm_capabilities`: the representations of the capabilities.
    pub capabilities: HashSet<u32>,
}

impl ToplevelConfigChange {
    /// No hints, states or capabilities.
    pub fn new() -> (change: Self)
        ensures
            change.bounds_hint is None,
            change.size_hint is None,
            change.states@ == Set::<u32>::empty(),
            change.capabilities@ == Set::<u32>::empty(),
    {
        ToplevelConfigChange {
            bounds_hint: None,
            size_hint: None,
            states: HashSet::new(),
            capabilities: HashSet::new(),
        }
    }
}

/// The state a toplevel moves to.
#[derive(Debug)]
pub enum TopLevelState {
    /// The server asked for the toplevel to be closed.
    ShouldClose,
    /// A configuration to acknowledge with `serial`.
    Configure { serial: ToplevelConfigSerial, change: ToplevelConfigChange },
}

/// A bounds hint from a width and height: none when both are zero ("bounds is unknown"), an
/// error when either does not fit in a `u16`.
pub open spec fn spec_new_dimensions(width: i32, height: i32) -> Result<Option<Dimensions>, ToplevelStateError> {
    if width == 0 && height == 0 {
        Ok(None)
    } else if 0 <= width <= u16::MAX && 0 <= height <= u16::MAX {
        Ok(Some(Dimensions { width: width as u16, height: height as u16 }))
    } else {
        Err(ToplevelStateError::IntegerOverflow(width, height))
    }
}

/// A size hint from a width and height: none when either is zero ("the client should decide
/// its own window dimension"), else as for a bounds hint.
pub open spec fn spec_size_hint(width: i32, height: i32) -> Result<Option<Dimensions>, ToplevelStateError> {
    if width == 0 || height == 0 {
        Ok(None)
    } else {
        spec_new_dimensions(width, height)
    }
}

/// Converts the width and height of a configuration event into a hint; both zero means none.
pub fn new_dimensions(width: i32, height: i32) -> (res: Result<Option<Dimensions>, ToplevelStateError>)
    ensures
        res == spec_new_dimensions(width, height),
{
    if width == 0 && height == 0 {
        return Ok(None);
    }
    if width < 0 || width > 65535 || height < 0 || height > 65535 {
        return Err(ToplevelStateError::IntegerOverflow(width, height));
    }
    Ok(Some(Dimensions { width: width as u16, height: height as u16 }))
}

/// Converts the suggested size of an `xdg_toplevel::configure` into a size hint; a zero width
/// or height means none.
pub fn new_size_hint(width: i32, height: i32) -> (res: Result<Option<Dimensions>, ToplevelStateError>)
    ensures
        res == spec_size_hint(width, height),
{
    if width == 0 || height == 0 {
        return Ok(None);
    }
    new_dimensions(width, height)
}

/// What applying `event` to the configuration `before` gives: the result and the configuration
/// after. A close leaves the configuration as it was; a size that does not fit is an error and
/// leaves it as it was; any other event replaces the fields it carries and keeps the rest.
pub open spec fn inbound_applied(
    event: ToplevelEvent,
    before: ToplevelConfigChange,
    after: ToplevelConfigChange,
    res: Result<bool, ToplevelStateError>,
) -> bool {
    match event {
        ToplevelEvent::Close => res == Ok::<bool, ToplevelStateError>(true) && after == before,
        ToplevelEvent::Configure { width, height, states } => match spec_size_hint(width, height) {
            Err(e) => res == Err::<bool, ToplevelStateError>(e) && after == before,
            Ok(hint) => {
                &&& res == Ok::<bool, ToplevelStateError>(false)
                &&& after.size_hint == hint
                &&& after.states@ == enum_array_reprs(states@).to_set()
                &&& after.bounds_hint == before.bounds_hint
                &&& after.capabilities == before.capabilities
            },
        },
        ToplevelEvent::ConfigureBounds { width, height } => match spec_new_dimensions(width, height) {
            Err(e) => res == Err::<bool, ToplevelStateError>(e) && after == before,
            Ok(hint) => {
                &&& res == Ok::<bool, ToplevelStateError>(false)
                &&& after.bounds_hint == hint
                &&& after.size_hint == before.size_hint
                &&& after.states == before.states
                &&& after.capabilities == before.capabilities
            },
        },
        ToplevelEvent::WmCapabilities { capabilities } => {
            &&& res == Ok::<bool, ToplevelStateError>(false)
            &&& after.capabilities@ == enum_array_reprs(capabilities@).to_set()
            &&& after.bounds_hint == before.bounds_hint
            &&& after.size_hint == before.size_hint
            &&& after.states == before.states
        },
    }
}

/// Applies one `xdg_toplevel` event to the gathered configuration. Returns whether the event
/// asks for the toplevel to close.
pub fn process_inbound(event: ToplevelEvent, config_change: &mut ToplevelConfigChange) -> (res: Result<bool, ToplevelStateError>)
    ensures
        inbound_applied(event, *old(config_change), *final(config_change), res),
{
    match event {
        ToplevelEvent::Close => Ok(true),
        ToplevelEvent::Configure { width, height, states } => {
            let hint = match new_size_hint(width, height) {
                Ok(hint) => hint,
                Err(e) => return Err(e),
            };
            config_change.size_hint = hint;
            config_change.states = parse_enum_array(states);
            Ok(false)
        },
        ToplevelEvent::ConfigureBounds { width, height } => {
            let hint = match new_dimensions(width, height) {
                Ok(hint) => hint,
                Err(e) => return Err(e),
            };
            config_change.bounds_hint = hint;
            Ok(false)
        },
        ToplevelEvent::WmCapabilities { capabilities } => {
            config_change.capabilities = parse_enum_array(capabilities);
            Ok(false)
        },
    }
}

/// How each event lands in the gathered configuration: a close asks to close and changes
/// nothing; a configure whose width or height is zero leaves the size to the client, and one
/// whose sides are both positive and fit in a `u16` sets the size hint to exactly that width
/// and height; a bounds event whose sides fit sets the bounds hint and never the size hint;
/// a side that is negative or above `u16::MAX` is refused and changes nothing (for a configure,
/// unless the other side is zero).
pub proof fn lemma_events_set_their_hints(
    event: ToplevelEvent,
    before: ToplevelConfigChange,
    after: ToplevelConfigChange,
    res: Result<bool, ToplevelStateError>,
)
    requires
        inbound_applied(event, before, after, res),
    ensures
        event is Close ==> res == Ok::<bool, ToplevelStateError>(true) && after == before,
        event matches ToplevelEvent::Configure { width, height, .. } ==> {
            &&& (width == 0 || height == 0) ==> res == Ok::<bool, ToplevelStateError>(false) && after.size_hint is None
            &&& (0 < width <= u16::MAX && 0 < height <= u16::MAX) ==> res == Ok::<bool, ToplevelStateError>(false)
                && (after.size_hint matches Some(d) && d.width == width && d.height == height) && after.bounds_hint
                == before.bounds_hint
            &&& (width != 0 && height != 0 && !(0 <= width <= u16::MAX && 0 <= height <= u16::MAX)) ==> res
                == Err::<bool, ToplevelStateError>(ToplevelStateError::IntegerOverflow(width, height)) && after
                == before
        },
        event matches ToplevelEvent::ConfigureBounds { width, height } ==> {
            &&& after.size_hint == before.size_hint
            &&& (0 <= width <= u16::MAX && 0 <= height <= u16::MAX && (width != 0 || height != 0)) ==> res == Ok::<
                bool,
                ToplevelStateError,
            >(false) && (after.bounds_hint matches Some(d) && d.width == width && d.height == height)
            &&& (width == 0 && height == 0) ==> after.bounds_hint is None
            &&& !(0 <= width <= u16::MAX && 0 <= height <= u16::MAX) ==> res == Err::<bool, ToplevelStateError>(
                ToplevelStateError::IntegerOverflow(width, height),
            )
        },
        event is WmCapabilities ==> res == Ok::<bool, ToplevelStateError>(false) && after.size_hint
            == before.size_hint && after.bounds_hint == before.bounds_hint,
{
}

/// Reading an enum array takes each whole word in order: the array is one word per four bytes
/// (stray trailing bytes dropped), and word `i` is read from bytes `4 * i` to `4 * i + 4`.
pub proof fn lemma_enum_array_words(bytes: Seq<u8>, i: int)
    requires
        0 <= i < bytes.len() / 4,
    ensures
        enum_array_reprs(bytes).len() == bytes.len() / 4,
        enum_array_reprs(bytes)[i] == u32_from_ne(seq![bytes[4 * i], bytes[4 * i + 1], bytes[4 * i + 2], bytes[4 * i + 3]]),
{
    assert(4 * i + 4 <= bytes.len()) by (nonlinear_arith)
        requires
            0 <= i < bytes.len() / 4,
    ;
    assert(bytes.subrange(4 * i, 4 * i + 4) =~= seq![bytes[4 * i], bytes[4 * i + 1], bytes[4 * i + 2], bytes[4 * i + 3]]);
}

/// What to do once the queued events have been drained.
pub enum SyncOutcome {
    /// The next state is known.
    Ready(TopLevelState),
    /// Configuration events arrived (or a state was demanded) but not the closing
    /// `xdg_surface::configure`: wait for further events.
    Wait(ToplevelSync),
    /// Nothing happened.
    Nothing,
}

/// The gathering of one toplevel configuration: the `xdg_toplevel` events and the serial of
/// the `xdg_surface::configure` that ends it.
pub struct ToplevelSync {
    config_change: ToplevelConfigChange,
    received_config_change: bool,
    config_serial: Option<u32>,
}

impl ToplevelSync {
    /// The configuration gathered so far.
    pub closed spec fn change(&self) -> &ToplevelConfigChange {
        &self.config_change
    }

    /// Whether a configuration event has been applied.
    pub closed spec fn received(&self) -> bool {
        self.received_config_change
    }

    /// The serial of the last `xdg_surface::configure` seen.
    pub closed spec fn serial(&self) -> Option<u32> {
        self.config_serial
    }

    /// Nothing gathered yet.
    pub fn new() -> (sync: Self)
        ensures
            !sync.received(),
            sync.serial() is None,
            sync.change().bounds_hint is None && sync.change().size_hint is None,
            sync.change().states@ == Set::<u32>::empty() && sync.change().capabilities@ == Set::<u32>::empty(),
    {
        ToplevelSync { config_change: ToplevelConfigChange::new(), received_config_change: false, config_serial: None }
    }

    /// Applies an `xdg_toplevel` event. Returns whether it asks for the toplevel to close;
    /// any other event counts as a received configuration change.
    pub fn toplevel_event(&mut self, event: ToplevelEvent) -> (res: Result<bool, ToplevelStateError>)
        ensures
            inbound_applied(event, *old(self).change(), *final(self).change(), res),
            final(self).serial() == old(self).serial(),
            match res {
                Ok(true) => event is Close && final(self).received() == old(self).received(),
                Ok(false) => !(event is Close) && final(self).received(),
                Err(_) => final(self).received() == old(self).received(),
            },
    {
        let should_close = match process_inbound(event, &mut self.config_change) {
            Ok(should_close) => should_close,
            Err(e) => return Err(e),
        };
        if !should_close {
            self.received_config_change = true;
        }
        Ok(should_close)
    }

    /// Records an `xdg_surface::configure`; the last one seen wins.
    pub fn surface_configure(&mut self, serial: u32)
        ensures
            final(self).serial() == Some(serial),
            final(self).received() == old(self).received(),
            final(self).change() == old(self).change(),
    {
        self.config_serial = Some(serial);
    }

    /// Decides after draining: a configure serial gives the next state; without one, wait
    /// when configuration events arrived or a state is demanded (`force_sync`), else nothing.
    pub fn decide(self, force_sync: bool) -> (outcome: SyncOutcome)
        ensures
            match self.serial() {
                Some(serial) => outcome matches SyncOutcome::Ready(TopLevelState::Configure { serial: s, change: c })
                    && s@ == serial && c == *self.change(),
                None => if self.received() || force_sync {
                    outcome matches SyncOutcome::Wait(next) && next == self
                } else {
                    outcome is Nothing
                },
            },
    {
        match self.config_serial {
            Some(serial) => SyncOutcome::Ready(
                TopLevelState::Configure { serial: ToplevelConfigSerial(serial), change: self.config_change },
            ),
            None => if self.received_config_change || force_sync {
                SyncOutcome::Wait(self)
            } else {
                SyncOutcome::Nothing
            },
        }
    }

    /// Ends a wait with the `xdg_surface::configure` that arrived.
    pub fn complete(self, serial: u32) -> (state: TopLevelState)
        ensures
            state matches TopLevelState::Configure { serial: s, change: c } && s@ == serial && c == *self.change(),
    {
        TopLevelState::Configure { serial: ToplevelConfigSerial(serial), change: self.config_change }
    }
}

} // verus!
