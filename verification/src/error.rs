//! The ways in which a datagram, a manifest or a command line can be refused.

use vstd::prelude::*;

verus! {

/// Why a datagram could not be decoded.
#[derive(Clone, Copy, Debug, PartialEq, Eq, Structural)]
pub enum ParseError {
    /// The datagram ends before the fields that its kind requires.
    ShortFrame,
    /// The type tag is none of the five known ones.
    UnknownType,
}

/// Why a manifest or a command line could not be used.
#[derive(Clone, Copy, Debug, PartialEq, Eq, Structural)]
pub enum ConfigError {
    /// A manifest line does not begin with a decimal 16-bit chunk identifier.
    KeyNotANumber,
    /// A manifest line has no `": "` between its identifier and its path.
    UnknownLineFormat,
    /// An item of the chunk list is not a decimal 16-bit chunk identifier.
    InvalidChunkId,
    /// The address to bind to is not given.
    MissingIp,
    /// The address to bind to is no IPv4 address in dotted decimal.
    InvalidIp,
    /// The port to bind to is not given.
    MissingPort,
    /// The port to bind to is no decimal 16-bit number.
    InvalidPort,
    /// The manifest's path is not given.
    MissingManifestPath,
    /// The address of the peer to greet is not given.
    MissingPeerAddress,
    /// A peer's address is not of the form `a.b.c.d:port`.
    InvalidPeerAddress,
    /// The list of chunks to collect is not given.
    MissingChunkList,
}

/// Why a client refused a datagram.
#[derive(Clone, Copy, Debug, PartialEq, Eq, Structural)]
pub enum ClientError {
    /// A RESPONSE carries a chunk that was never requested.
    UnexpectedChunk,
}

} // verus!
