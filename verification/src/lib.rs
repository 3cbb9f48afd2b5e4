//! Session and command protocol layer for a cloud smart-lighting service.
//!
//! The library covers the pure protocol logic: the colon-hex device
//! identifier codec, the login request/response shapes, the device
//! directory parser, and the command payload codec.  Network transport
//! (HTTP, the publish connection) is left to the caller.

pub mod command;
pub mod directory;
pub mod error;
pub mod json;
pub mod login;
pub mod mac;
pub mod text;

pub use command::{Command, CommandKind, CurrentTime};
pub use directory::Device;
pub use error::Error;
pub use mac::Mac;
