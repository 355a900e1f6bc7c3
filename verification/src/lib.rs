//! An escrow for the atomic exchange of two fungible assets between a maker and a taker.
//!
//! The maker locks an amount of one asset in a vault and names the price in another asset.
//! A taker who pays the price receives all that the vault holds, in one step; until then the
//! maker may take the offer back. [`Ledger`] keeps the balances, the live escrow records and
//! their vaults, and offers `make`, `take` and `cancel`. [`LedgerView`] is the same state as
//! mathematics; the module `laws` states what holds of each operation, and the module
//! `history` what holds of every run of them.

pub mod accounts;
mod assoc;
pub mod error;
pub mod history;
pub mod identity;
pub mod laws;
pub mod ledger;
pub mod model;
pub mod record;
mod store;
pub mod sums;

pub use crate::accounts::{Settlement, Take, TokenAccount};
pub use crate::error::EscrowError;
pub use crate::identity::{Asset, Identity};
pub use crate::ledger::Ledger;
pub use crate::model::LedgerView;
pub use crate::record::{Escrow, Vault, VaultRef};
use vstd::prelude::*;

verus! {

/// The accounts named by whoever brings the program up: none.
#[derive(Clone, Copy, Debug, PartialEq, Eq)]
pub struct Initialize {}

/// Brings the program up. It reads no account, moves nothing, and always succeeds.
pub fn initialize(_ctx: &Initialize) -> (r: Result<(), EscrowError>)
    ensures
        r is Ok,
{
    Ok(())
}

} // verus!
