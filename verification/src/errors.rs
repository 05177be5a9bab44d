//! Application-level errors surfaced to calling clients.

use vstd::prelude::*;

verus! {

/// Error raised by the request handlers.
///
/// Every variant is surfaced to the calling client as an error reply;
/// none causes a disconnect except [`ServiceError::GroupFull`], which
/// asks the client to close its connection.
#[derive(Debug, Clone)]
pub enum ServiceError {
    /// A group must have at least two parties.
    PartiesTooSmall,
    /// The signing threshold must be at least one.
    ThresholdTooSmall,
    /// The signing threshold must be less than the number of parties.
    ThresholdRange,
    /// The group already has as many clients as it has parties.
    GroupFull(String),
    /// No group with this identifier exists.
    GroupDoesNotExist(String),
    /// No session with this identifier exists in the group.
    SessionDoesNotExist(String),
    /// The party number has not signed up to the session.
    PartyDoesNotExist(u16),
    /// The party number is not owned by the calling connection.
    BadParty(u16),
    /// The receiver of a peer to peer message could not be resolved.
    BadPeerReceiver(u16),
    /// The calling connection does not belong to the group.
    BadConnection(usize, String),
    /// The method is only valid for key generation sessions.
    KeygenSessionExpected,
    /// A party number must be between one and the number of parties.
    PartyNumberOutOfRange(u16),
    /// The party number is already taken in this session.
    PartyNumberInUse(u16),
}

impl ServiceError {
    /// True of the one error on which the client must drop its socket.
    pub fn requires_close(&self) -> (r: bool)
        ensures
            r == (self matches ServiceError::GroupFull(_)),
    {
        match self {
            ServiceError::GroupFull(_) => true,
            _ => false,
        }
    }
}

} // verus!
