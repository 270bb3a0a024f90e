//! Errors of the trust layer.
use vstd::prelude::*;

verus! {

/// Why a message was refused or an operation failed.
#[derive(Debug, Clone)]
pub enum ChassisError {
    /// Signature absent, malformed or wrong, or the sender is not trusted.
    SignatureError(String),
    /// A policy decision refused the action.
    PolicyError(String),
    /// The message's time-to-live has passed.
    MessageExpired,
    /// The message's nonce was seen before.
    ReplayAttack,
    /// A field could not be read, such as a timestamp that is not RFC 3339.
    SerializationError(String),
    /// Reading or writing outside state failed.
    IoError(String),
}

} // verus!
