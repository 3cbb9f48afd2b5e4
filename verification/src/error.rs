use vstd::prelude::*;

verus! {

/// Failures the protocol layer can report.
///
/// Transport-level trouble (including bodies that are not JSON at all) is
/// kept distinct from a login that was understood but rejected, and from a
/// response that is well-formed JSON of the wrong shape.
#[derive(Clone, Copy, Debug, PartialEq, Eq, Structural)]
pub enum Error {
    /// The bytes received are not a complete JSON document.
    Transport,
    /// The login endpoint answered with a shape that carries no session token.
    AuthenticationFailure,
    /// A response was well-formed JSON but not of the shape the protocol expects.
    Serialization,
    /// A device identifier string does not denote exactly six hex octets.
    InvalidIdentifier,
}

} // verus!
