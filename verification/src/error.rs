//! The refusals of the exchange protocol.

use vstd::prelude::*;

verus! {

/// Why an escrow operation was rejected. A rejected operation changes nothing.
#[derive(Clone, Copy, Debug, PartialEq, Eq, Structural)]
pub enum EscrowError {
    /// The request itself is malformed: a zero amount, or the same asset on both sides.
    InvalidParameters,
    /// The paying account holds less than the operation has to move.
    InsufficientFunds,
    /// A live escrow already sits at the maker's nonce.
    EscrowAlreadyExists,
    /// No live escrow sits at the given address: none was made, or it was closed.
    EscrowNotFound,
    /// The caller is not the owner of the escrow.
    Unauthorized,
    /// A supplied account disagrees with the escrow on an asset or a party.
    AssetMismatch,
}

} // verus!
