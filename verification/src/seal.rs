use vstd::prelude::*;

verus! {

/// Restricts the implementors of [`crate::Entity`] to the two protocol sides.
pub trait Sealed {}

impl Sealed for crate::entity::Client {}

impl Sealed for crate::entity::Server {}

} // verus!

verus! {

/// Restricts the implementors of [`crate::surface_role::SurfaceRoleChange`].
pub trait SealedRoleChange {}

impl SealedRoleChange for crate::surface_role::OverridableRole {}

impl SealedRoleChange for crate::surface_role::FixedRole {}

} // verus!
