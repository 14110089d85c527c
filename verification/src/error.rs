//! What the ledger reports when it refuses an input or a peer fails.

use vstd::prelude::*;
use vstd::string::*;

verus! {

/// Why a peer address was refused at registration.
#[derive(Clone, Copy, Debug, PartialEq, Eq, Structural)]
pub enum ValidationError {
    /// The address names no host.
    MissingHost,
    /// The address has no network location.
    EmptyLocation,
}

impl ValidationError {
    /// A sentence that says what was wrong with the address.
    pub fn message(&self) -> (text: String)
        ensures
            text@ == match *self {
                ValidationError::MissingHost => "peer address names no host"@,
                ValidationError::EmptyLocation => "peer address has no network location"@,
            },
    {
        match self {
            ValidationError::MissingHost => String::from_str("peer address names no host"),
            ValidationError::EmptyLocation => String::from_str(
                "peer address has no network location",
            ),
        }
    }
}

/// Why the chain of a peer could not be had. Neither case stops a
/// reconciliation: the peer is passed over.
#[derive(Clone, Copy, Debug, PartialEq, Eq, Structural)]
pub enum PeerError {
    /// The peer did not answer, or not in time.
    Unreachable,
    /// The peer answered with something that is no chain.
    MalformedResponse,
}

} // verus!
