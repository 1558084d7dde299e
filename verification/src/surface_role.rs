//! Type-level markers for the role a `wl_surface` has been given.
use vstd::prelude::*;

verus! {

/// Whether a surface's role may still change. Implemented by [`OverridableRole`] and
/// [`FixedRole`] only.
pub trait SurfaceRoleChange: crate::seal::SealedRoleChange {}

/// The surface's role may still be replaced.
pub struct OverridableRole {
    _priv: (),
}

impl SurfaceRoleChange for OverridableRole {}

/// The surface's role is fixed for its lifetime.
pub struct FixedRole {
    _priv: (),
}

impl SurfaceRoleChange for FixedRole {}

/// A role a surface can have.
pub trait SurfaceRole {
    /// Whether the role may change.
    type Overridable: SurfaceRoleChange;
}

/// A surface that has not been given a role yet.
pub struct UnassignedRole;

impl SurfaceRole for UnassignedRole {
    type Overridable = OverridableRole;
}

/// Role of a surface that is being set up as an `xdg_surface`.
pub struct XdgSurfacePlaceholderRole;

impl SurfaceRole for XdgSurfacePlaceholderRole {
    type Overridable = OverridableRole;
}

} // verus!
