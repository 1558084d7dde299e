//! Wayland wire-format codec and the client-side protocol logic built on it.
//!
//! The codec has three layers: bytes to frames ([`decoder`], [`opaque`]), frames to primitive
//! arguments ([`arguments`]), and arguments to messages ([`message`], [`stream`]). The client
//! modules hold the decisions of the client handles: object tables ([`mediator`]), seat
//! capabilities ([`seat`]), shared-memory buffer sizing ([`shm`], [`shm_pool`]), socket path
//! resolution ([`socket_path`]) and toplevel configuration ([`toplevel`]).

mod seal;

pub mod entity;
pub mod object_id;
pub mod wire;
pub mod buffer;
pub mod fixed;
pub mod utf8;
pub mod arguments;
pub mod opaque;
pub mod decoder;
pub mod message;
pub mod stream;
pub mod request;
pub mod surface_role;
pub mod shm_pool;
pub mod shm;
pub mod socket_path;
pub mod seat;
pub mod toplevel;
pub mod mediator;
pub mod display;
pub mod wm_base;

pub use arguments::{ArgumentBag, ArgumentDecodeError, ArgumentRoundtrip, DecodeFailure, MarshalArgument, ParseArgument};
pub use decoder::{OpaqueMessageDecodeError, OpaqueMessageDecoder};
pub use entity::{Client, Entity, ObjectIdBounds, Server};
pub use fixed::Fixed;
pub use message::{DecodeMessage, DecodeMessageError, EncodeMessage, Message, OpaqueMessage};
pub use object_id::{NewObjectId, ObjectId, ObjectIdDecodeError, ObjectIdFactory, OpaqueNewObjectId, OpaqueObjectId};
pub use request::RequestError;
pub use socket_path::{SocketPath, SocketPathError};
pub use stream::{MessageUtils, WaylandMessageStreamError};
pub use surface_role::{FixedRole, OverridableRole, SurfaceRole, SurfaceRoleChange, UnassignedRole, XdgSurfacePlaceholderRole};
pub use toplevel::ToplevelConfigSerial;
