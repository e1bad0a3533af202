//! EtherNet/IP scanner: explicit messaging, implicit (class 1) IO connections, and discovery.

pub mod cip;
pub mod discovery;
pub mod eds;
pub mod eip;
pub mod error;
pub mod io;
pub mod message_router;
pub mod objects;
pub mod session;
pub mod wire;

pub use error::{Error, Result};
pub mod text;
pub use session::Session;
pub use message_router::MessageRouter;

use vstd::prelude::*;

verus! {

/// TCP port for explicit messaging.
pub const EIP_DEFAULT_EXPLICIT_PORT: u16 = 0xAF12;
/// UDP port for implicit messaging.
pub const EIP_DEFAULT_IMPLICIT_PORT: u16 = 0x08AE;

} // verus!
