use vstd::prelude::*;

verus! {

/// Why a call on either side of the bridge was refused. A refused call
/// changes no state and produces no notification.
#[derive(Debug, Clone, Copy, PartialEq, Eq, Structural)]
pub enum BridgeError {
    /// The component already has an administrator.
    AlreadyInitialized,
    /// The caller is not the administrator, or not the depositor it claims to be.
    Unauthorized,
    /// The amount is not positive.
    InvalidAmount,
    /// The target's locked balance is below the amount.
    InsufficientLockedBalance,
    /// The live reserve balance is below the amount.
    InsufficientReserve,
    /// The host's asset transfer was rejected.
    TransferFailed,
}

} // verus!
