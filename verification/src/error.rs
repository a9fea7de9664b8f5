//! Error kinds reported by the display client core.

use vstd::prelude::*;

verus! {

/// What can go wrong while a session is established or a notification is
/// handled. Only `TransportError` ends a session; the other kinds concern a
/// single call and leave the session as it was.
#[derive(Clone, Copy, Debug, PartialEq, Eq, Structural)]
pub enum DisplayError {
    /// The private connection could not be created or bound.
    TransportError,
    /// The remote producer refused the listener registration.
    RegistrationError,
    /// A frame or region came with geometry that its data cannot satisfy,
    /// or with a pixel format that is not supported.
    FormatError,
    /// A foreign buffer could not be mapped.
    MapError,
    /// A foreign-memory operation was requested where it is not available.
    UnsupportedOperation,
    /// The consumer side of the dispatch channel is gone.
    ChannelClosed,
}

impl DisplayError {
    /// Whether an error of this kind tears the session down.
    pub open spec fn spec_is_fatal(self) -> bool {
        self == DisplayError::TransportError
    }

    /// Whether an error of this kind tears the session down. Per-call errors
    /// never do.
    #[verifier::when_used_as_spec(spec_is_fatal)]
    pub fn is_fatal(self) -> (fatal: bool)
        ensures
            fatal == (self == DisplayError::TransportError),
    {
        match self {
            DisplayError::TransportError => true,
            _ => false,
        }
    }
}

} // verus!
