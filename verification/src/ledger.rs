//! The ledger in memory, and the operations that move value on it: `make`, `take` and
//! `cancel`, and `issue` for what the actors hold to begin with.

use crate::accounts::{Take, TokenAccount};
use crate::error::EscrowError;
use crate::identity::{Asset, Identity};
use crate::laws::{
    cancel_conserves_supply, issue_keeps_ledger_sound, make_conserves_supply,
    nothing_exists_on_the_empty_ledger, take_conserves_supply,
};
use crate::model::LedgerView;
use crate::record::{Escrow, Vault, VaultRef};
use crate::store::{
    amount_in, close_lot, credit, debit, find_lot, lemma_sound_wf, load, open_lot, sound,
    supply_in, transfer, view_of, Lot,
};
use vstd::prelude::*;

verus! {

/// The ledger: every balance account, every live escrow and its vault. Its state as
/// mathematics is its view, a [`LedgerView`], which is well formed at all times.
pub struct Ledger {
    accounts: Vec<TokenAccount>,
    lots: Vec<Lot>,
}

impl View for Ledger {
    type V = LedgerView;

    closed spec fn view(&self) -> LedgerView {
        view_of(self.accounts@, self.lots@)
    }
}

impl Ledger {
    #[verifier::type_invariant]
    spec fn kept(&self) -> bool {
        sound(self.accounts@, self.lots@)
    }

    /// The ledger on which nobody holds anything and no escrow is live.
    pub fn new() -> (r: Ledger)
        ensures
            r@ == LedgerView::empty(),
            r@.wf(),
    {
        let accounts: Vec<TokenAccount> = Vec::new();
        let lots: Vec<Lot> = Vec::new();
        proof {
            assert(view_of(accounts@, lots@) == LedgerView::empty());
            assert forall|asset: Asset| #[trigger]
                LedgerView::empty().supply(asset) <= u64::MAX by {
                nothing_exists_on_the_empty_ledger(asset);
            }
        }
        Ledger { accounts, lots }
    }

    /// Hands out the two lists for an operation to change them, and leaves the ledger empty
    /// until they are put back.
    fn lists(&mut self) -> (r: (Vec<TokenAccount>, Vec<Lot>))
        ensures
            r.0@ == old(self).accounts@,
            r.1@ == old(self).lots@,
            sound(r.0@, r.1@),
    {
        proof {
            use_type_invariant(&*self);
        }
        let mut state = Ledger::new();
        std::mem::swap(self, &mut state);
        proof {
            use_type_invariant(&state);
        }
        let Ledger { accounts, lots } = state;
        (accounts, lots)
    }

    /// What `holder` has of `asset`: zero where no balance account exists.
    pub fn balance_of(&self, holder: &Identity, asset: &Asset) -> (r: u64)
        ensures
            r == self@.balance(*holder, *asset),
            self@.wf(),
    {
        proof {
            use_type_invariant(&*self);
            lemma_sound_wf(self.accounts@, self.lots@);
        }
        amount_in(&self.accounts, holder, asset)
    }

    /// The live escrow record at `at`, if there is one.
    pub fn escrow(&self, at: &VaultRef) -> (r: Option<Escrow>)
        ensures
            r == (if self@.live(*at) {
                Some(self@.escrows[*at])
            } else {
                None
            }),
            self@.wf(),
    {
        proof {
            use_type_invariant(&*self);
            lemma_sound_wf(self.accounts@, self.lots@);
        }
        match find_lot(&self.lots, at) {
            Some(i) => Some(self.lots[i].record),
            None => None,
        }
    }

    /// The vault of the live escrow at `at`, if there is one.
    pub fn vault(&self, at: &VaultRef) -> (r: Option<Vault>)
        ensures
            r == (if self@.live(*at) {
                Some(self@.vaults[*at])
            } else {
                None
            }),
            self@.wf(),
    {
        proof {
            use_type_invariant(&*self);
            lemma_sound_wf(self.accounts@, self.lots@);
        }
        match find_lot(&self.lots, at) {
            Some(i) => Some(self.lots[i].vault),
            None => None,
        }
    }

    /// All there is of `asset`: what the actors hold and what the vaults hold.
    pub fn supply(&self, asset: &Asset) -> (r: u64)
        ensures
            r == self@.supply(*asset),
            self@.wf(),
    {
        proof {
            use_type_invariant(&*self);
            lemma_sound_wf(self.accounts@, self.lots@);
        }
        supply_in(&self.accounts, &self.lots, asset)
    }

    /// Brings `amount` of `asset` into being in the hands of `holder`, whose balance account is
    /// opened if there was none. Refused with `InvalidParameters`, and nothing changed, where
    /// more of the asset would then exist than a balance can hold.
    pub fn issue(&mut self, holder: Identity, asset: Asset, amount: u64) -> (r: Result<
        (),
        EscrowError,
    >)
        ensures
            r == old(self)@.issue_outcome(asset, amount),
            final(self)@ == old(self)@.issued(holder, asset, amount),
            final(self)@.wf(),
    {
        let exists = self.supply(&asset);
        if amount > u64::MAX - exists {
            return Err(EscrowError::InvalidParameters);
        }
        let ghost before = self@;
        let ghost after = before.issued(holder, asset, amount);
        proof {
            issue_keeps_ledger_sound(before, holder, asset, amount);
            after.lemma_balance_within_supply(holder, asset);
        }
        let (mut accounts, lots) = self.lists();
        credit(&mut accounts, holder, asset, amount);
        assert(view_of(accounts@, lots@) == after);
        *self = Ledger { accounts, lots };
        Ok(())
    }

    /// Opens an escrow: `maker` locks `offered_amount` of `offered_asset` in a new vault and
    /// asks `desired_amount` of `desired_asset` for it. On success the address of the new
    /// escrow comes back; on failure nothing has changed. A live escrow of the same maker under
    /// the same nonce is `EscrowAlreadyExists`; otherwise a zero amount or one asset on both
    /// sides is `InvalidParameters`; otherwise a maker who holds less than the offer is
    /// `InsufficientFunds`.
    pub fn make(
        &mut self,
        maker: Identity,
        offered_asset: Asset,
        desired_asset: Asset,
        desired_amount: u64,
        offered_amount: u64,
        nonce: u64,
    ) -> (r: Result<VaultRef, EscrowError>)
        ensures
            r == old(self)@.make_outcome(
                maker,
                offered_asset,
                desired_asset,
                desired_amount,
                offered_amount,
                nonce,
            ),
            final(self)@ == old(self)@.made(
                maker,
                offered_asset,
                desired_asset,
                desired_amount,
                offered_amount,
                nonce,
            ),
            final(self)@.wf(),
    {
        proof {
            use_type_invariant(&*self);
            lemma_sound_wf(self.accounts@, self.lots@);
        }
        let at = VaultRef::derive(maker, nonce);
        if find_lot(&self.lots, &at).is_some() {
            return Err(EscrowError::EscrowAlreadyExists);
        }
        if offered_amount == 0 {
            return Err(EscrowError::InvalidParameters);
        }
        let record = match Escrow::new(maker, offered_asset, desired_asset, desired_amount, nonce) {
            Ok(record) => record,
            Err(e) => {
                return Err(e);
            },
        };
        if amount_in(&self.accounts, &maker, &offered_asset) < offered_amount {
            return Err(EscrowError::InsufficientFunds);
        }
        let ghost before = self@;
        let ghost after = before.made(
            maker,
            offered_asset,
            desired_asset,
            desired_amount,
            offered_amount,
            nonce,
        );
        proof {
            make_conserves_supply(
                before,
                maker,
                offered_asset,
                desired_asset,
                desired_amount,
                offered_amount,
                nonce,
            );
        }
        let (mut accounts, mut lots) = self.lists();
        debit(&mut accounts, maker, offered_asset, offered_amount);
        open_lot(&mut lots, record, offered_amount);
        assert(view_of(accounts@, lots@) == after);
        *self = Ledger { accounts, lots };
        Ok(at)
    }

    /// Settles the escrow at `escrow` for `taker`: the price goes from the taker to the owner,
    /// all that the vault holds goes to the taker, and record and vault are closed. Either all
    /// of this happens or, on failure, nothing. No live escrow at that address is
    /// `EscrowNotFound`; otherwise a taker who holds less than the price is
    /// `InsufficientFunds`.
    pub fn take(&mut self, taker: Identity, escrow: VaultRef) -> (r: Result<(), EscrowError>)
        ensures
            r == old(self)@.take_outcome(taker, escrow),
            final(self)@ == old(self)@.taken(taker, escrow),
            final(self)@.wf(),
    {
        proof {
            use_type_invariant(&*self);
            lemma_sound_wf(self.accounts@, self.lots@);
        }
        let i = match find_lot(&self.lots, &escrow) {
            Some(i) => i,
            None => {
                return Err(EscrowError::EscrowNotFound);
            },
        };
        let record = self.lots[i].record;
        let vault = self.lots[i].vault;
        let named = Take {
            taker,
            maker: record.owner,
            mint_a: record.offered_asset,
            mint_b: record.desired_asset,
            taker_ata_a: load(&self.accounts, taker, record.offered_asset),
            taker_ata_b: load(&self.accounts, taker, record.desired_asset),
            maker_ata_b: load(&self.accounts, record.owner, record.desired_asset),
        };
        let settlement = match named.settle(&record, &vault) {
            Ok(settlement) => settlement,
            Err(e) => {
                return Err(e);
            },
        };
        let ghost before = self@;
        let ghost after = before.taken(taker, escrow);
        proof {
            take_conserves_supply(before, taker, escrow);
            after.lemma_balance_within_supply(record.owner, record.desired_asset);
            after.lemma_balance_within_supply(taker, record.offered_asset);
        }
        let (mut accounts, mut lots) = self.lists();
        transfer(&mut accounts, taker, record.owner, record.desired_asset, settlement.payment);
        credit(&mut accounts, taker, record.offered_asset, settlement.released);
        close_lot(&mut lots, i);
        assert(view_of(accounts@, lots@) == after);
        *self = Ledger { accounts, lots };
        Ok(())
    }

    /// Unwinds the escrow at `escrow` for its owner: all that the vault holds goes back to the
    /// owner, and record and vault are closed. Either all of this happens or, on failure,
    /// nothing. No live escrow at that address is `EscrowNotFound`; otherwise a caller who is
    /// not the owner is `Unauthorized`.
    pub fn cancel(&mut self, caller: Identity, escrow: VaultRef) -> (r: Result<(), EscrowError>)
        ensures
            r == old(self)@.cancel_outcome(caller, escrow),
            final(self)@ == old(self)@.cancelled(caller, escrow),
            final(self)@.wf(),
    {
        proof {
            use_type_invariant(&*self);
            lemma_sound_wf(self.accounts@, self.lots@);
        }
        let i = match find_lot(&self.lots, &escrow) {
            Some(i) => i,
            None => {
                return Err(EscrowError::EscrowNotFound);
            },
        };
        let record = self.lots[i].record;
        let vault = self.lots[i].vault;
        match record.authorize_cancel(&caller) {
            Ok(()) => {},
            Err(e) => {
                return Err(e);
            },
        }
        let refund = match vault.release(&record) {
            Ok(refund) => refund,
            Err(e) => {
                return Err(e);
            },
        };
        let ghost before = self@;
        let ghost after = before.cancelled(caller, escrow);
        proof {
            cancel_conserves_supply(before, caller, escrow);
            after.lemma_balance_within_supply(record.owner, record.offered_asset);
        }
        let (mut accounts, mut lots) = self.lists();
        credit(&mut accounts, record.owner, record.offered_asset, refund);
        close_lot(&mut lots, i);
        assert(view_of(accounts@, lots@) == after);
        *self = Ledger { accounts, lots };
        Ok(())
    }
}

} // verus!
