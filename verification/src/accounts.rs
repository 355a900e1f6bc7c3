//! The accounts that a `take` is handed, and the check they pass before anything moves.

use crate::error::EscrowError;
use crate::identity::{Asset, Identity};
use crate::record::{Escrow, Vault};
use vstd::prelude::*;

verus! {

/// A balance account: what `authority` holds of the asset `mint`.
#[derive(Clone, Copy, Debug, PartialEq, Eq)]
pub struct TokenAccount {
    pub mint: Asset,
    pub authority: Identity,
    pub amount: u64,
}

impl TokenAccount {
    /// The account is the one in which `authority` holds `mint`.
    pub open spec fn is_account_of(&self, authority: Identity, mint: Asset) -> bool {
        self.authority == authority && self.mint == mint
    }
}

/// The two legs of a settlement, each moved whole or not at all.
#[derive(Clone, Copy, Debug, PartialEq, Eq)]
pub struct Settlement {
    /// What goes from the taker to the maker, in the desired asset.
    pub payment: u64,
    /// What goes from the vault to the taker, in the offered asset: all the vault holds.
    pub released: u64,
}

/// The parties and accounts named by whoever asks to take an escrow. Nothing in it is trusted
/// until `settle` has held it against the record.
#[derive(Clone, Copy, Debug, PartialEq, Eq)]
pub struct Take {
    /// Who takes the offer and pays for it.
    pub taker: Identity,
    /// Who made the offer.
    pub maker: Identity,
    /// The asset that the maker locked.
    pub mint_a: Asset,
    /// The asset that the maker asks for.
    pub mint_b: Asset,
    /// Where the taker receives the locked asset.
    pub taker_ata_a: TokenAccount,
    /// From where the taker pays.
    pub taker_ata_b: TokenAccount,
    /// Where the maker receives the payment.
    pub maker_ata_b: TokenAccount,
}

impl Take {
    /// The accounts are those of the named parties for the named assets.
    pub open spec fn consistent(&self) -> bool {
        &&& self.taker_ata_a.is_account_of(self.taker, self.mint_a)
        &&& self.taker_ata_b.is_account_of(self.taker, self.mint_b)
        &&& self.maker_ata_b.is_account_of(self.maker, self.mint_b)
    }

    /// The named parties and assets are those of `record`, the accounts are theirs, and
    /// `vault` is the vault of `record`.
    pub open spec fn agrees_with(&self, record: &Escrow, vault: &Vault) -> bool {
        &&& self.maker == record.owner
        &&& self.mint_a == record.offered_asset
        &&& self.mint_b == record.desired_asset
        &&& self.consistent()
        &&& vault.serves(record)
    }

    /// What `settle` answers: a mismatch before anything else, then the taker's funds, then
    /// the two amounts to move.
    pub open spec fn settlement(&self, record: &Escrow, vault: &Vault) -> Result<
        Settlement,
        EscrowError,
    > {
        if !self.agrees_with(record, vault) {
            Err(EscrowError::AssetMismatch)
        } else if self.taker_ata_b.amount < record.desired_amount {
            Err(EscrowError::InsufficientFunds)
        } else {
            Ok(Settlement { payment: record.desired_amount, released: vault.balance })
        }
    }

    fn check_consistent(&self) -> (r: bool)
        ensures
            r == self.consistent(),
    {
        self.taker_ata_a.authority == self.taker && self.taker_ata_a.mint == self.mint_a
            && self.taker_ata_b.authority == self.taker && self.taker_ata_b.mint == self.mint_b
            && self.maker_ata_b.authority == self.maker && self.maker_ata_b.mint == self.mint_b
    }

    /// Holds the accounts against the live `record` and its `vault` and says what a take would
    /// move. Nothing is moved here.
    pub fn settle(&self, record: &Escrow, vault: &Vault) -> (r: Result<Settlement, EscrowError>)
        ensures
            r == self.settlement(record, vault),
    {
        if !(self.maker == record.owner && self.mint_a == record.offered_asset && self.mint_b
            == record.desired_asset && self.check_consistent()) {
            return Err(EscrowError::AssetMismatch);
        }
        match vault.release(record) {
            Err(e) => Err(e),
            Ok(released) => {
                if self.taker_ata_b.amount < record.desired_amount {
                    Err(EscrowError::InsufficientFunds)
                } else {
                    Ok(Settlement { payment: record.desired_amount, released })
                }
            },
        }
    }
}

} // verus!
