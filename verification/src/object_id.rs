//! Object identifiers: opaque, entity-bounded, and the allocator that hands them out.
use core::marker::PhantomData;
use vstd::prelude::*;

use crate::entity::{Client, ObjectIdBounds, Server};

verus! {

/// An object identifier as it travels on the wire, without any entity information.
#[derive(Debug, PartialEq, Eq, Clone, Copy, Structural)]
pub struct OpaqueObjectId(pub u32);

impl OpaqueObjectId {
    /// Wraps a raw identifier.
    pub fn new(raw: u32) -> (id: Self)
        ensures
            id@ == raw,
    {
        OpaqueObjectId(raw)
    }

    /// The raw identifier.
    pub fn raw(&self) -> (raw: u32)
        ensures
            raw == self@,
    {
        self.0
    }
}

impl View for OpaqueObjectId {
    type V = u32;

    open spec fn view(&self) -> u32 {
        self.0
    }
}

impl DeepView for OpaqueObjectId {
    type V = u32;

    open spec fn deep_view(&self) -> u32 {
        self.0
    }
}

/// An object identifier allocated by the entity `E`.
#[derive(Debug)]
pub struct ObjectId<E> {
    pub(crate) inner: u32,
    pub(crate) entity_marker: PhantomData<E>,
}

/// Returned from [`ObjectId::from_raw`] when a raw value falls outside the entity's range.
#[derive(Debug, PartialEq, Eq, Clone, Copy, Structural)]
pub enum ObjectIdDecodeError {
    /// Provided value (first) greater than allowed maximum (second).
    RawGreaterThanMax(u32, u32),
    /// Provided value (first) less than allowed minimum (second).
    RawLessThanMin(u32, u32),
}

impl<E> View for ObjectId<E> {
    type V = u32;

    closed spec fn view(&self) -> u32 {
        self.inner
    }
}

impl<E> DeepView for ObjectId<E> {
    type V = u32;

    open spec fn deep_view(&self) -> u32 {
        self@
    }
}

impl<E> Clone for ObjectId<E> {
    fn clone(&self) -> (id: Self)
        ensures
            id == *self,
    {
        ObjectId { inner: self.inner, entity_marker: PhantomData }
    }
}

impl<E> Copy for ObjectId<E> {}

impl<E> PartialEq for ObjectId<E> {
    fn eq(&self, other: &Self) -> (equal: bool) {
        self.inner == other.inner
    }
}

impl<E> vstd::std_specs::cmp::PartialEqSpecImpl for ObjectId<E> {
    open spec fn obeys_eq_spec() -> bool {
        true
    }

    open spec fn eq_spec(&self, other: &Self) -> bool {
        self@ == other@
    }
}

impl<E> Eq for ObjectId<E> {}

/// What [`ObjectId::from_raw`] returns for `raw`, with the identifier given by its raw value.
pub open spec fn spec_from_raw<E: ObjectIdBounds>(raw: u32) -> Result<Option<u32>, ObjectIdDecodeError> {
    if raw == 0 {
        Ok(None)
    } else if raw < E::spec_start() {
        Err(ObjectIdDecodeError::RawLessThanMin(raw, E::spec_start()))
    } else if raw > E::spec_end() {
        Err(ObjectIdDecodeError::RawGreaterThanMax(raw, E::spec_end()))
    } else {
        Ok(Some(raw))
    }
}

impl<E> ObjectId<E> {
    /// The raw identifier.
    pub fn inner(&self) -> (raw: u32)
        ensures
            raw == self@,
    {
        self.inner
    }

    /// An identifier of `E` with the raw value `raw`, unchecked against `E`'s range.
    pub(crate) fn new_unchecked(raw: u32) -> (id: Self)
        ensures
            id@ == raw,
    {
        ObjectId { inner: raw, entity_marker: PhantomData }
    }

    /// Drops the entity information.
    pub fn as_opaque(&self) -> (id: OpaqueObjectId)
        ensures
            id@ == self@,
    {
        OpaqueObjectId(self.inner)
    }
}

impl<E: ObjectIdBounds> ObjectId<E> {
    /// Checks `raw` against the range of `E`. Zero is the null identifier and gives `None`.
    pub fn from_raw(raw: u32) -> (res: Result<Option<Self>, ObjectIdDecodeError>)
        ensures
            match (res, spec_from_raw::<E>(raw)) {
                (Ok(Some(id)), Ok(Some(expected))) => id@ == expected,
                (Ok(None), Ok(None)) => true,
                (Err(e), Err(expected)) => e == expected,
                _ => false,
            },
    {
        if raw == 0 {
            return Ok(None);
        }
        let start = E::range_start();
        if raw < start {
            return Err(ObjectIdDecodeError::RawLessThanMin(raw, start));
        }
        let end = E::range_end();
        if raw > end {
            return Err(ObjectIdDecodeError::RawGreaterThanMax(raw, end));
        }
        Ok(Some(ObjectId { inner: raw, entity_marker: PhantomData }))
    }
}

/// `new_id` message argument: an [`ObjectId<E>`] for an object of interface `I`.
#[derive(Debug)]
pub struct NewObjectId<E, I> {
    pub(crate) inner: ObjectId<E>,
    pub(crate) interface_marker: PhantomData<I>,
}

impl<E, I> NewObjectId<E, I> {
    /// Tags `inner` as the identifier of a new object of interface `I`.
    pub fn new(inner: ObjectId<E>) -> (id: Self)
        ensures
            id@ == inner@,
    {
        NewObjectId { inner, interface_marker: PhantomData }
    }

    /// The wrapped identifier.
    pub fn id(&self) -> (id: ObjectId<E>)
        ensures
            id@ == self@,
    {
        self.inner
    }
}

impl<E, I> View for NewObjectId<E, I> {
    type V = u32;

    closed spec fn view(&self) -> u32 {
        self.inner.inner
    }
}

impl<E, I> DeepView for NewObjectId<E, I> {
    type V = u32;

    open spec fn deep_view(&self) -> u32 {
        self@
    }
}

impl<E, I> Clone for NewObjectId<E, I> {
    fn clone(&self) -> (id: Self)
        ensures
            id == *self,
    {
        NewObjectId { inner: self.inner, interface_marker: PhantomData }
    }
}

impl<E, I> Copy for NewObjectId<E, I> {}

impl<E, I> PartialEq for NewObjectId<E, I> {
    fn eq(&self, other: &Self) -> (equal: bool) {
        self.inner.inner == other.inner.inner
    }
}

impl<E, I> vstd::std_specs::cmp::PartialEqSpecImpl for NewObjectId<E, I> {
    open spec fn obeys_eq_spec() -> bool {
        true
    }

    open spec fn eq_spec(&self, other: &Self) -> bool {
        self@ == other@
    }
}

impl<E, I> Eq for NewObjectId<E, I> {}

/// `new_id` argument of a request whose interface is only known at runtime.
#[derive(Debug)]
pub struct OpaqueNewObjectId<E> {
    pub(crate) interface_name: String,
    pub(crate) interface_version: u32,
    pub(crate) inner: ObjectId<E>,
}

impl<E> OpaqueNewObjectId<E> {
    /// Bundles an interface name, its version and the new object's identifier.
    pub fn new(interface_name: String, interface_version: u32, inner: ObjectId<E>) -> (id: Self)
        ensures
            id.deep_view() == (interface_name@, interface_version, inner@),
    {
        OpaqueNewObjectId { interface_name, interface_version, inner }
    }

    /// The interface name.
    pub fn interface_name(&self) -> (name: &String)
        ensures
            name@ == self.deep_view().0,
    {
        &self.interface_name
    }

    /// The interface version.
    pub fn interface_version(&self) -> (version: u32)
        ensures
            version == self.deep_view().1,
    {
        self.interface_version
    }

    /// The new object's identifier.
    pub fn id(&self) -> (id: ObjectId<E>)
        ensures
            id@ == self.deep_view().2,
    {
        self.inner
    }

    /// Splits into interface name, interface version and identifier.
    pub fn into_parts(self) -> (parts: (String, u32, ObjectId<E>))
        ensures
            (parts.0@, parts.1, parts.2@) == self.deep_view(),
    {
        (self.interface_name, self.interface_version, self.inner)
    }
}

impl<E> DeepView for OpaqueNewObjectId<E> {
    type V = (Seq<char>, u32, u32);

    closed spec fn deep_view(&self) -> (Seq<char>, u32, u32) {
        (self.interface_name@, self.interface_version, self.inner.inner)
    }
}

/// Hands out the identifiers of `E`'s range in increasing order, wrapping back to the start.
pub struct ObjectIdFactory<E: ObjectIdBounds> {
    next: u32,
    entity_marker: PhantomData<E>,
}

impl<E: ObjectIdBounds> ObjectIdFactory<E> {
    /// The next identifier always lies in `E`'s range.
    #[verifier::type_invariant]
    spec fn in_range(self) -> bool {
        E::spec_start() <= self.next <= E::spec_end()
    }

    /// The identifier that the next call of [`Self::next`] returns.
    pub closed spec fn upcoming(self) -> u32 {
        self.next
    }

    /// A factory whose first identifier is the start of `E`'s range.
    pub fn new() -> (factory: Self)
        ensures
            factory.upcoming() == E::spec_start(),
    {
        proof {
            E::lemma_range_wf();
        }
        ObjectIdFactory { next: E::range_start(), entity_marker: PhantomData }
    }

    /// A factory whose first identifier is `next`, or `None` when `next` lies outside `E`'s range.
    pub fn starting_at(next: u32) -> (factory: Option<Self>)
        ensures
            factory is Some <==> E::spec_start() <= next <= E::spec_end(),
            factory matches Some(f) ==> f.upcoming() == next,
    {
        if next < E::range_start() || next > E::range_end() {
            None
        } else {
            Some(ObjectIdFactory { next, entity_marker: PhantomData })
        }
    }

    /// Returns the upcoming identifier and advances, wrapping from the end of the range to its start.
    pub fn next(&mut self) -> (id: ObjectId<E>)
        ensures
            id@ == old(self).upcoming(),
            final(self).upcoming() == spec_successor::<E>(old(self).upcoming()),
            E::spec_start() <= id@ <= E::spec_end(),
    {
        proof {
            use_type_invariant(&*self);
            E::lemma_range_wf();
        }
        let current = self.next;
        self.next = if current == E::range_end() {
            E::range_start()
        } else {
            current + 1
        };
        ObjectId { inner: current, entity_marker: PhantomData }
    }
}

/// The identifier handed out after `id`: the next one up, or the start of the range after its end.
pub open spec fn spec_successor<E: ObjectIdBounds>(id: u32) -> u32 {
    if id == E::spec_end() {
        E::spec_start()
    } else {
        (id + 1) as u32
    }
}

/// The identifier that `k` calls of [`ObjectIdFactory::next`] lead to from `id`.
pub open spec fn spec_successor_iter<E: ObjectIdBounds>(id: u32, k: nat) -> u32
    decreases k,
{
    if k == 0 {
        id
    } else {
        spec_successor::<E>(spec_successor_iter::<E>(id, (k - 1) as nat))
    }
}

/// The number of identifiers in `E`'s range.
pub open spec fn range_size<E: ObjectIdBounds>() -> int {
    E::spec_end() - E::spec_start() + 1
}

/// `k` steps from `id` land `k` places further along the range, counted modulo its size.
proof fn lemma_successor_iter_offset<E: ObjectIdBounds>(id: u32, k: nat)
    requires
        E::spec_start() <= id <= E::spec_end(),
    ensures
        spec_successor_iter::<E>(id, k) == E::spec_start() + (id - E::spec_start() + k) % range_size::<E>(),
    decreases k,
{
    E::lemma_range_wf();
    let start = E::spec_start() as int;
    let size = range_size::<E>();
    if k == 0 {
        vstd::arithmetic::div_mod::lemma_small_mod((id - start) as nat, size as nat);
    } else {
        lemma_successor_iter_offset::<E>(id, (k - 1) as nat);
        let x = id - start + k - 1;
        let q = x / size;
        let r = x % size;
        vstd::arithmetic::div_mod::lemma_fundamental_div_mod(x, size);
        if r + 1 < size {
            vstd::arithmetic::div_mod::lemma_fundamental_div_mod_converse(x + 1, size, q, r + 1);
        } else {
            assert(x + 1 == (q + 1) * size + 0) by (nonlinear_arith)
                requires
                    x == size * q + r,
                    r + 1 == size,
            ;
            vstd::arithmetic::div_mod::lemma_fundamental_div_mod_converse(x + 1, size, q + 1, 0);
        }
    }
}

/// The factory hands out every identifier of the range before it repeats one: from any
/// identifier in the range, the identifiers after `i` and after `j` calls differ when
/// `i < j` and `j` is below the size of the range, both lie in the range, and a whole cycle
/// of calls leads back to the start.
pub proof fn lemma_factory_cycle<E: ObjectIdBounds>(id: u32, i: nat, j: nat)
    requires
        E::spec_start() <= id <= E::spec_end(),
        i < j < range_size::<E>(),
    ensures
        spec_successor_iter::<E>(id, i) != spec_successor_iter::<E>(id, j),
        E::spec_start() <= spec_successor_iter::<E>(id, j) <= E::spec_end(),
        spec_successor_iter::<E>(id, range_size::<E>() as nat) == id,
{
    E::lemma_range_wf();
    let start = E::spec_start() as int;
    let size = range_size::<E>();
    let d = id - start;
    lemma_successor_iter_offset::<E>(id, i);
    lemma_successor_iter_offset::<E>(id, j);
    lemma_successor_iter_offset::<E>(id, size as nat);
    vstd::arithmetic::div_mod::lemma_fundamental_div_mod(d + i, size);
    vstd::arithmetic::div_mod::lemma_fundamental_div_mod(d + j, size);
    vstd::arithmetic::div_mod::lemma_fundamental_div_mod_converse(d + size, size, 1, d);
    let qi = (d + i) / size;
    let qj = (d + j) / size;
    assert((d + i) % size != (d + j) % size) by (nonlinear_arith)
        requires
            0 <= d < size,
            0 <= i < j < size,
            d + i == size * qi + (d + i) % size,
            d + j == size * qj + (d + j) % size,
            0 <= (d + i) % size < size,
            0 <= (d + j) % size < size,
    ;
}

/// A raw identifier checks against its entity's range: zero is the null identifier; a client
/// accepts `1..=0xFEFF_FFFF` and a server `0xFF00_0000..=0xFFFF_FFFF`, each giving the raw
/// value back; a non-null value below the range is reported as too small and one above it as
/// too large, each with the value and the bound it broke.
pub proof fn lemma_from_raw_ranges(raw: u32)
    ensures
        spec_from_raw::<Client>(0) == Ok::<Option<u32>, ObjectIdDecodeError>(None),
        spec_from_raw::<Server>(0) == Ok::<Option<u32>, ObjectIdDecodeError>(None),
        1 <= raw <= 0xFEFF_FFFF ==> spec_from_raw::<Client>(raw) == Ok::<Option<u32>, ObjectIdDecodeError>(Some(raw)),
        raw > 0xFEFF_FFFF ==> spec_from_raw::<Client>(raw) == Err::<Option<u32>, ObjectIdDecodeError>(
            ObjectIdDecodeError::RawGreaterThanMax(raw, 0xFEFF_FFFF),
        ),
        raw >= 0xFF00_0000 ==> spec_from_raw::<Server>(raw) == Ok::<Option<u32>, ObjectIdDecodeError>(Some(raw)),
        0 < raw < 0xFF00_0000 ==> spec_from_raw::<Server>(raw) == Err::<Option<u32>, ObjectIdDecodeError>(
            ObjectIdDecodeError::RawLessThanMin(raw, 0xFF00_0000),
        ),
        Client::spec_start() == 1 && Client::spec_end() == 0xFEFF_FFFF,
        Server::spec_start() == 0xFF00_0000 && Server::spec_end() == 0xFFFF_FFFF,
{
}

/// Each call of the factory gives the identifier after the previous one, and after the last
/// identifier of the range comes its first.
pub proof fn lemma_successor_steps<E: ObjectIdBounds>(id: u32)
    requires
        E::spec_start() <= id <= E::spec_end(),
    ensures
        id < E::spec_end() ==> spec_successor::<E>(id) == id + 1,
        id == E::spec_end() ==> spec_successor::<E>(id) == E::spec_start(),
{
}

} // verus!
