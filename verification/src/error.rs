//! The error taxonomy. Every rejected path surfaces one of these values;
//! nothing is swallowed, and each rejection is distinguishable by its
//! variant.

use vstd::prelude::*;

verus! {

/// Why a request was rejected. All errors are terminal for the current
/// request; a missing subject record is deliberately *not* here, because
/// inside gate logic absence is an ordinary denial, not an error.
#[derive(Debug, Clone, Copy, PartialEq, Eq, Structural)]
pub enum GatewayError {
    /// The request's operation tag matches no known operation.
    UnknownOperation,
    /// The request payload is too short to carry any operation tag.
    MalformedRequest,
    /// A signature or authority check failed on an administrative or
    /// privileged action.
    Unauthorized,
    /// A caller-supplied derived address does not match the recomputation,
    /// or no viable derivation exists.
    InvalidDerivedAddress,
    /// A permissionless flag was to be enabled while no gate is bound.
    GateNotConfigured,
    /// The matching permissionless enable-flag is not set.
    OperationDisabled,
    /// The consulted gate returned failure, including "operation not supported".
    GateDenied,
    /// A configuration record for the mint already exists.
    ConfigAlreadyExists,
    /// A persisted record failed to decode.
    MalformedRecord,
}

} // verus!
