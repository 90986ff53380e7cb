//! The errors of the accessor and the registry.
use vstd::prelude::*;

verus! {

/// The host's closed set of failure codes.
#[derive(Clone, Copy, Debug, PartialEq, Eq, Structural)]
pub enum ApiError {
    /// Nothing is stored under the key.
    ValueNotFound,
    /// A stored value could not be read as the expected type.
    Read,
    /// The reference lacks the right that the operation needs.
    PermissionDenied,
    /// The reference or address was not minted by this host.
    ForgedReference,
    /// A key of another variant than a reference was given where a reference is needed.
    UnexpectedKeyVariant,
    /// The stored value cannot be merged with the value added.
    TypeMismatch,
    /// No contract metadata record is stored at the key.
    ContractNotFound,
    /// The access reference is not the one paired with the record.
    InvalidAccess,
    /// The version is already callable and the host rejects a second one.
    DuplicateVersion,
    /// The version is not callable.
    InvalidVersion,
    /// A user group with this label already exists on the record.
    DuplicateGroup,
    /// The host has no fresh address left to mint.
    AddressesExhausted,
}

/// A fatal outcome: the instance stops with the host's error code.
#[derive(Clone, Copy, Debug, PartialEq, Eq, Structural)]
pub struct Revert {
    pub code: ApiError,
}

/// The outcome of a failed read: the bytes did not decode as the expected
/// type (recoverable), or the host signalled a fatal error.
#[derive(Clone, Copy, Debug, PartialEq, Eq, Structural)]
pub enum ReadError {
    Deserialize,
    Revert(ApiError),
}

} // verus!
