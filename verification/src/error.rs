//! What can go wrong between a request and a decoded response.

use vstd::prelude::*;

verus! {

/// Why a body is not a response.
#[derive(Debug, Clone, Copy, PartialEq, Eq, Structural)]
pub enum DecodeError {
    /// The body is not one JSON text.
    Syntax,
    /// The body is JSON, but not an object.
    NotAnObject,
    /// The member `type` is missing, is not a string, or names no kind of
    /// content that is known.
    UnknownVariant,
    /// A member that belongs to the kind of content is missing or has the
    /// wrong shape.
    MalformedVariant,
    /// `version` is missing, or a member common to all kinds has the wrong
    /// shape.
    MalformedField,
}

/// Why no answer could be had from a provider.
#[derive(Debug, Clone, Copy, PartialEq, Eq, Structural)]
pub enum TransportError {
    /// The endpoint is not a URL that a request can be sent to.
    Endpoint,
    /// The request would be longer than a URL can be.
    TooLong,
    /// The provider answered with this status, which is not a success.
    Status(u16),
}

/// Why a fetch failed: on the way, or in what came back.
#[derive(Debug, Clone, Copy, PartialEq, Eq, Structural)]
pub enum Error {
    Transport(TransportError),
    Decode(DecodeError),
}

} // verus!
