//! Wayland protocol entity markers and the object identifier ranges they own.
use vstd::prelude::*;

verus! {

/// Marker trait for protocol entities.
pub trait Entity: crate::seal::Sealed {}

/// Server [Entity] marker.
#[derive(Debug, Clone, Copy, PartialEq, Eq)]
pub struct Server;

impl Entity for Server {}

/// Client [Entity] marker.
#[derive(Debug, Clone, Copy, PartialEq, Eq)]
pub struct Client;

impl Entity for Client {}

/// The inclusive range of object identifiers that an entity allocates.
pub trait ObjectIdBounds: Entity {
    /// Smallest identifier of the range.
    spec fn spec_start() -> u32;

    /// Largest identifier of the range.
    spec fn spec_end() -> u32;

    /// Smallest identifier of the range.
    fn range_start() -> (start: u32)
        ensures
            start == Self::spec_start(),
    ;

    /// Largest identifier of the range.
    fn range_end() -> (end: u32)
        ensures
            end == Self::spec_end(),
    ;

    /// The range is never empty and never holds the null identifier.
    proof fn lemma_range_wf()
        ensures
            0 < Self::spec_start() <= Self::spec_end(),
    ;
}

impl ObjectIdBounds for Client {
    open spec fn spec_start() -> u32 {
        1
    }

    open spec fn spec_end() -> u32 {
        0xFEFF_FFFF
    }

    fn range_start() -> (start: u32) {
        1
    }

    fn range_end() -> (end: u32) {
        0xFEFF_FFFF
    }

    proof fn lemma_range_wf() {
    }
}

impl ObjectIdBounds for Server {
    open spec fn spec_start() -> u32 {
        0xFF00_0000
    }

    open spec fn spec_end() -> u32 {
        0xFFFF_FFFF
    }

    fn range_start() -> (start: u32) {
        0xFF00_0000
    }

    fn range_end() -> (end: u32) {
        0xFFFF_FFFF
    }

    proof fn lemma_range_wf() {
    }
}

} // verus!
