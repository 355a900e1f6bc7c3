//! The escrow record, the address it is kept at, and the vault it speaks for.

use crate::error::EscrowError;
use crate::identity::{Asset, Identity};
use vstd::prelude::*;
use vstd::std_specs::cmp::PartialEqSpecImpl;

verus! {

/// The address of an escrow and of its vault. It is made of the maker and the maker's nonce and
/// of nothing else, so two offers share an address only if they share both.
#[derive(Clone, Copy, Debug)]
pub struct VaultRef {
    pub maker: Identity,
    pub nonce: u64,
}

impl VaultRef {
    /// The address at which the offer of `maker` under `nonce` is kept.
    pub fn derive(maker: Identity, nonce: u64) -> (r: VaultRef)
        ensures
            r == (VaultRef { maker, nonce }),
    {
        VaultRef { maker, nonce }
    }
}

impl PartialEq for VaultRef {
    fn eq(&self, other: &VaultRef) -> (r: bool) {
        self.nonce == other.nonce && self.maker == other.maker
    }
}

impl Eq for VaultRef {}

impl PartialEqSpecImpl for VaultRef {
    open spec fn obeys_eq_spec() -> bool {
        true
    }

    open spec fn eq_spec(&self, other: &VaultRef) -> bool {
        *self == *other
    }
}

/// One exchange offer: the owner locks an amount of `offered_asset` and asks
/// `desired_amount` of `desired_asset` for it. The locked amount is not written here: it is the
/// balance of the vault.
#[derive(Clone, Copy, Debug, PartialEq, Eq)]
pub struct Escrow {
    pub owner: Identity,
    pub offered_asset: Asset,
    pub desired_asset: Asset,
    pub desired_amount: u64,
    pub nonce: u64,
}

impl Escrow {
    /// The terms every record meets: something is asked, and in another asset than is offered.
    pub open spec fn valid(&self) -> bool {
        self.desired_amount > 0 && self.offered_asset != self.desired_asset
    }

    /// The address of the record and of its vault.
    pub open spec fn address(&self) -> VaultRef {
        VaultRef { maker: self.owner, nonce: self.nonce }
    }

    /// The record with the given terms, or `InvalidParameters` where nothing is asked or the
    /// two assets are the same.
    pub fn new(
        owner: Identity,
        offered_asset: Asset,
        desired_asset: Asset,
        desired_amount: u64,
        nonce: u64,
    ) -> (r: Result<Escrow, EscrowError>)
        ensures
            r == (if desired_amount > 0 && offered_asset != desired_asset {
                Ok(Escrow { owner, offered_asset, desired_asset, desired_amount, nonce })
            } else {
                Err(EscrowError::InvalidParameters)
            }),
    {
        if desired_amount == 0 || offered_asset == desired_asset {
            Err(EscrowError::InvalidParameters)
        } else {
            Ok(Escrow { owner, offered_asset, desired_asset, desired_amount, nonce })
        }
    }

    /// The vault of this record, computed from owner and nonce each time it is asked for.
    pub fn vault_ref(&self) -> (r: VaultRef)
        ensures
            r == self.address(),
    {
        VaultRef::derive(self.owner, self.nonce)
    }

    /// Whether `caller` may cancel: only the owner may.
    pub fn authorize_cancel(&self, caller: &Identity) -> (r: Result<(), EscrowError>)
        ensures
            r == (if *caller == self.owner {
                Ok(())
            } else {
                Err(EscrowError::Unauthorized)
            }),
    {
        if *caller == self.owner {
            Ok(())
        } else {
            Err(EscrowError::Unauthorized)
        }
    }
}

/// The custody account of one escrow. It holds one balance, of one asset, and is bound to the
/// address of the record that may move it.
#[derive(Clone, Copy, Debug, PartialEq, Eq)]
pub struct Vault {
    pub address: VaultRef,
    pub asset: Asset,
    pub balance: u64,
}

impl Vault {
    /// The vault belongs to `record`: it sits at the record's address and holds the asset that
    /// the record offers.
    pub open spec fn serves(&self, record: &Escrow) -> bool {
        self.address == record.address() && self.asset == record.offered_asset
    }

    /// What the vault hands out on presentation of `record`: its whole balance to the record
    /// it serves, nothing to any other.
    pub fn release(&self, record: &Escrow) -> (r: Result<u64, EscrowError>)
        ensures
            r == (if self.serves(record) {
                Ok(self.balance)
            } else {
                Err(EscrowError::AssetMismatch)
            }),
    {
        if self.address == record.vault_ref() && self.asset == record.offered_asset {
            Ok(self.balance)
        } else {
            Err(EscrowError::AssetMismatch)
        }
    }
}

} // verus!
