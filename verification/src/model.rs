//! The ledger as mathematics: who holds what, which escrows are live, what their vaults hold,
//! and what each operation makes of such a state.

use crate::error::EscrowError;
use crate::identity::{Asset, Identity};
use crate::record::{Escrow, Vault, VaultRef};
use crate::sums::{lemma_total_insert, lemma_total_share, share, total};
use vstd::prelude::*;
use vstd::set_lib::lemma_set_subset_finite;

verus! {

/// Of the balance accounts, those of one asset.
pub open spec fn held_in(balances: Map<(Identity, Asset), nat>, asset: Asset) -> Map<
    (Identity, Asset),
    nat,
> {
    Map::new(
        |k: (Identity, Asset)| balances.dom().contains(k) && k.1 == asset,
        |k: (Identity, Asset)| balances[k],
    )
}

/// Of the vaults, the balances of those that hold one asset.
pub open spec fn locked_in(vaults: Map<VaultRef, Vault>, asset: Asset) -> Map<VaultRef, nat> {
    Map::new(
        |at: VaultRef| vaults.dom().contains(at) && vaults[at].asset == asset,
        |at: VaultRef| vaults[at].balance as nat,
    )
}

/// The balances after `amount` of `asset` has come to `holder`, whose balance account is
/// opened if there was none.
pub open spec fn credited(
    balances: Map<(Identity, Asset), nat>,
    holder: Identity,
    asset: Asset,
    amount: nat,
) -> Map<(Identity, Asset), nat> {
    balances.insert((holder, asset), share(balances, (holder, asset)) + amount)
}

/// The balances after `amount` of `asset` has left `holder`.
pub open spec fn debited(
    balances: Map<(Identity, Asset), nat>,
    holder: Identity,
    asset: Asset,
    amount: nat,
) -> Map<(Identity, Asset), nat>
    recommends
        amount <= share(balances, (holder, asset)),
{
    balances.insert((holder, asset), (share(balances, (holder, asset)) - amount) as nat)
}

/// Of finitely many balance accounts, finitely many are of one asset.
pub proof fn lemma_held_in_finite(balances: Map<(Identity, Asset), nat>, asset: Asset)
    requires
        balances.dom().finite(),
    ensures
        held_in(balances, asset).dom().finite(),
{
    lemma_set_subset_finite(balances.dom(), held_in(balances, asset).dom());
}

/// Of finitely many vaults, finitely many hold one asset.
pub proof fn lemma_locked_in_finite(vaults: Map<VaultRef, Vault>, asset: Asset)
    requires
        vaults.dom().finite(),
    ensures
        locked_in(vaults, asset).dom().finite(),
{
    lemma_set_subset_finite(vaults.dom(), locked_in(vaults, asset).dom());
}

/// The state of a ledger between two operations.
#[verifier::ext_equal]
pub struct LedgerView {
    /// The balance of each balance account that exists, by holder and asset.
    pub balances: Map<(Identity, Asset), nat>,
    /// The live escrow records, by address.
    pub escrows: Map<VaultRef, Escrow>,
    /// The live vaults, by address.
    pub vaults: Map<VaultRef, Vault>,
}

impl LedgerView {
    /// The ledger on which nobody holds anything and no escrow is live.
    pub open spec fn empty() -> LedgerView {
        LedgerView { balances: Map::empty(), escrows: Map::empty(), vaults: Map::empty() }
    }

    /// What `holder` has of `asset`: zero where no balance account exists.
    pub open spec fn balance(self, holder: Identity, asset: Asset) -> nat {
        share(self.balances, (holder, asset))
    }

    /// An escrow is live at `at`.
    pub open spec fn live(self, at: VaultRef) -> bool {
        self.escrows.dom().contains(at)
    }

    /// The balance accounts of one asset.
    pub open spec fn held(self, asset: Asset) -> Map<(Identity, Asset), nat> {
        held_in(self.balances, asset)
    }

    /// The vault balances of one asset.
    pub open spec fn locked(self, asset: Asset) -> Map<VaultRef, nat> {
        locked_in(self.vaults, asset)
    }

    /// All there is of `asset`: what the actors hold and what the vaults hold.
    pub open spec fn supply(self, asset: Asset) -> nat {
        total(self.held(asset)) + total(self.locked(asset))
    }

    /// What holds of a ledger between any two operations. Every live record has its vault, and
    /// no vault is without its record; a record sits at its own address and meets the terms of
    /// `Escrow::valid`; its vault holds the offered asset, and something of it; and all there is
    /// of an asset fits a balance.
    pub open spec fn wf(self) -> bool {
        &&& self.balances.dom().finite()
        &&& self.escrows.dom().finite()
        &&& self.vaults.dom() == self.escrows.dom()
        &&& forall|at: VaultRef| #[trigger]
            self.escrows.dom().contains(at) ==> {
                &&& self.escrows[at].valid()
                &&& self.escrows[at].address() == at
                &&& self.vaults[at].serves(&self.escrows[at])
                &&& self.vaults[at].balance > 0
            }
        &&& forall|asset: Asset| #[trigger] self.supply(asset) <= u64::MAX
    }

    /// The ledger after `amount` of `asset` has come to `holder`, whose balance account is
    /// opened if there was none.
    pub open spec fn credit(self, holder: Identity, asset: Asset, amount: nat) -> LedgerView {
        LedgerView { balances: credited(self.balances, holder, asset, amount), ..self }
    }

    /// The ledger after `amount` of `asset` has left `holder`.
    pub open spec fn debit(self, holder: Identity, asset: Asset, amount: nat) -> LedgerView
        recommends
            amount <= self.balance(holder, asset),
    {
        LedgerView { balances: debited(self.balances, holder, asset, amount), ..self }
    }

    /// The ledger after `amount` of `asset` has gone from one holder to another, whose balance
    /// account is opened if there was none.
    pub open spec fn transfer(
        self,
        from: Identity,
        to: Identity,
        asset: Asset,
        amount: nat,
    ) -> LedgerView
        recommends
            amount <= self.balance(from, asset),
    {
        self.debit(from, asset, amount).credit(to, asset, amount)
    }

    /// The ledger with a new escrow and its funded vault at the record's address.
    pub open spec fn with_escrow(self, record: Escrow, amount: u64) -> LedgerView {
        LedgerView {
            escrows: self.escrows.insert(record.address(), record),
            vaults: self.vaults.insert(
                record.address(),
                Vault { address: record.address(), asset: record.offered_asset, balance: amount },
            ),
            ..self
        }
    }

    /// The ledger without the escrow at `at` and without its vault.
    pub open spec fn without_escrow(self, at: VaultRef) -> LedgerView {
        LedgerView { escrows: self.escrows.remove(at), vaults: self.vaults.remove(at), ..self }
    }

    /// How issuing `amount` of `asset` ends: refused where more would exist than a balance
    /// can hold.
    pub open spec fn issue_outcome(self, asset: Asset, amount: u64) -> Result<(), EscrowError> {
        if self.supply(asset) + amount > u64::MAX {
            Err(EscrowError::InvalidParameters)
        } else {
            Ok(())
        }
    }

    /// How `make` ends. The address is looked at first, then the terms, then the funds.
    pub open spec fn make_outcome(
        self,
        maker: Identity,
        offered_asset: Asset,
        desired_asset: Asset,
        desired_amount: u64,
        offered_amount: u64,
        nonce: u64,
    ) -> Result<VaultRef, EscrowError> {
        let at = VaultRef { maker, nonce };
        if self.live(at) {
            Err(EscrowError::EscrowAlreadyExists)
        } else if offered_amount == 0 || desired_amount == 0 || offered_asset == desired_asset {
            Err(EscrowError::InvalidParameters)
        } else if self.balance(maker, offered_asset) < offered_amount {
            Err(EscrowError::InsufficientFunds)
        } else {
            Ok(at)
        }
    }

    /// The ledger after a `make` that succeeded: the offer has moved from the maker into a new
    /// vault, and the record stands at the address of maker and nonce.
    pub open spec fn after_make(
        self,
        maker: Identity,
        offered_asset: Asset,
        desired_asset: Asset,
        desired_amount: u64,
        offered_amount: u64,
        nonce: u64,
    ) -> LedgerView {
        self.debit(maker, offered_asset, offered_amount as nat).with_escrow(
            Escrow { owner: maker, offered_asset, desired_asset, desired_amount, nonce },
            offered_amount,
        )
    }

    /// How `take` ends. Whether the escrow is live is looked at first, then the taker's funds.
    pub open spec fn take_outcome(self, taker: Identity, at: VaultRef) -> Result<(), EscrowError> {
        if !self.live(at) {
            Err(EscrowError::EscrowNotFound)
        } else if self.balance(taker, self.escrows[at].desired_asset)
            < self.escrows[at].desired_amount {
            Err(EscrowError::InsufficientFunds)
        } else {
            Ok(())
        }
    }

    /// The ledger after a `take` that succeeded: the price has moved from taker to owner, the
    /// whole vault to the taker, and record and vault are gone.
    pub open spec fn after_take(self, taker: Identity, at: VaultRef) -> LedgerView {
        let record = self.escrows[at];
        self.transfer(
            taker,
            record.owner,
            record.desired_asset,
            record.desired_amount as nat,
        ).credit(taker, record.offered_asset, self.vaults[at].balance as nat).without_escrow(at)
    }

    /// How `cancel` ends. Whether the escrow is live is looked at first, then who calls.
    pub open spec fn cancel_outcome(self, caller: Identity, at: VaultRef) -> Result<
        (),
        EscrowError,
    > {
        if !self.live(at) {
            Err(EscrowError::EscrowNotFound)
        } else if caller != self.escrows[at].owner {
            Err(EscrowError::Unauthorized)
        } else {
            Ok(())
        }
    }

    /// The ledger after a `cancel` that succeeded: the whole vault is back with the owner, and
    /// record and vault are gone.
    pub open spec fn after_cancel(self, at: VaultRef) -> LedgerView {
        self.credit(
            self.escrows[at].owner,
            self.escrows[at].offered_asset,
            self.vaults[at].balance as nat,
        ).without_escrow(at)
    }
}

impl LedgerView {
    /// The ledger once `issue` has run: credited where it succeeded, as before where not.
    pub open spec fn issued(self, holder: Identity, asset: Asset, amount: u64) -> LedgerView {
        if self.issue_outcome(asset, amount) is Ok {
            self.credit(holder, asset, amount as nat)
        } else {
            self
        }
    }

    /// The ledger once `make` has run: as `after_make` says where it succeeded, as before
    /// where not.
    pub open spec fn made(
        self,
        maker: Identity,
        offered_asset: Asset,
        desired_asset: Asset,
        desired_amount: u64,
        offered_amount: u64,
        nonce: u64,
    ) -> LedgerView {
        if self.make_outcome(
            maker,
            offered_asset,
            desired_asset,
            desired_amount,
            offered_amount,
            nonce,
        ) is Ok {
            self.after_make(
                maker,
                offered_asset,
                desired_asset,
                desired_amount,
                offered_amount,
                nonce,
            )
        } else {
            self
        }
    }

    /// The ledger once `take` has run: as `after_take` says where it succeeded, as before
    /// where not.
    pub open spec fn taken(self, taker: Identity, at: VaultRef) -> LedgerView {
        if self.take_outcome(taker, at) is Ok {
            self.after_take(taker, at)
        } else {
            self
        }
    }

    /// The ledger once `cancel` has run: as `after_cancel` says where it succeeded, as before
    /// where not.
    pub open spec fn cancelled(self, caller: Identity, at: VaultRef) -> LedgerView {
        if self.cancel_outcome(caller, at) is Ok {
            self.after_cancel(at)
        } else {
            self
        }
    }
}

impl LedgerView {
    /// The balance accounts and the vaults of one asset are finitely many.
    pub proof fn lemma_parts_finite(self, asset: Asset)
        requires
            self.balances.dom().finite(),
            self.vaults.dom().finite(),
        ensures
            self.held(asset).dom().finite(),
            self.locked(asset).dom().finite(),
    {
        lemma_held_in_finite(self.balances, asset);
        lemma_locked_in_finite(self.vaults, asset);
    }

    /// No balance is more than all there is of its asset.
    pub proof fn lemma_balance_within_supply(self, holder: Identity, asset: Asset)
        requires
            self.balances.dom().finite(),
            self.vaults.dom().finite(),
        ensures
            self.balance(holder, asset) <= self.supply(asset),
    {
        self.lemma_parts_finite(asset);
        lemma_total_share(self.held(asset), (holder, asset));
    }

    /// A credit adds its amount to the supply of its asset and leaves every other supply.
    pub proof fn lemma_credit_supply(self, holder: Identity, asset: Asset, amount: nat, of: Asset)
        requires
            self.balances.dom().finite(),
            self.vaults.dom().finite(),
        ensures
            self.credit(holder, asset, amount).balances.dom().finite(),
            self.credit(holder, asset, amount).supply(of) == self.supply(of) + if of == asset {
                amount
            } else {
                0
            },
    {
        let after = self.credit(holder, asset, amount);
        self.lemma_parts_finite(of);
        assert(after.locked(of) =~= self.locked(of));
        if of == asset {
            let k = (holder, asset);
            assert(after.held(of) =~= self.held(of).insert(k, self.balance(holder, asset) + amount));
            lemma_total_insert(self.held(of), k, self.balance(holder, asset) + amount);
            lemma_total_share(self.held(of), k);
        } else {
            assert(after.held(of) =~= self.held(of));
        }
    }

    /// A debit takes its amount from the supply of its asset and leaves every other supply.
    pub proof fn lemma_debit_supply(self, holder: Identity, asset: Asset, amount: nat, of: Asset)
        requires
            self.balances.dom().finite(),
            self.vaults.dom().finite(),
            amount <= self.balance(holder, asset),
        ensures
            self.debit(holder, asset, amount).balances.dom().finite(),
            self.debit(holder, asset, amount).supply(of) + (if of == asset {
                amount
            } else {
                0
            }) == self.supply(of),
    {
        let after = self.debit(holder, asset, amount);
        self.lemma_parts_finite(of);
        assert(after.locked(of) =~= self.locked(of));
        if of == asset {
            let k = (holder, asset);
            let left = (self.balance(holder, asset) - amount) as nat;
            assert(after.held(of) =~= self.held(of).insert(k, left));
            lemma_total_insert(self.held(of), k, left);
            lemma_total_share(self.held(of), k);
        } else {
            assert(after.held(of) =~= self.held(of));
        }
    }

    /// A transfer leaves every supply as it was.
    pub proof fn lemma_transfer_supply(
        self,
        from: Identity,
        to: Identity,
        asset: Asset,
        amount: nat,
        of: Asset,
    )
        requires
            self.balances.dom().finite(),
            self.vaults.dom().finite(),
            amount <= self.balance(from, asset),
        ensures
            self.transfer(from, to, asset, amount).balances.dom().finite(),
            self.transfer(from, to, asset, amount).supply(of) == self.supply(of),
    {
        self.lemma_debit_supply(from, asset, amount, of);
        self.debit(from, asset, amount).lemma_credit_supply(to, asset, amount, of);
    }

    /// A new vault adds its balance to the supply of its asset and leaves every other supply.
    pub proof fn lemma_with_escrow_supply(self, record: Escrow, amount: u64, of: Asset)
        requires
            self.balances.dom().finite(),
            self.vaults.dom().finite(),
            !self.vaults.dom().contains(record.address()),
        ensures
            self.with_escrow(record, amount).supply(of) == self.supply(of) + if of
                == record.offered_asset {
                amount as nat
            } else {
                0
            },
    {
        let after = self.with_escrow(record, amount);
        let at = record.address();
        self.lemma_parts_finite(of);
        assert(after.held(of) =~= self.held(of));
        if of == record.offered_asset {
            assert(after.locked(of) =~= self.locked(of).insert(at, amount as nat));
            lemma_total_insert(self.locked(of), at, amount as nat);
            lemma_total_share(self.locked(of), at);
        } else {
            assert(after.locked(of) =~= self.locked(of));
        }
    }

    /// A vault that goes takes its balance from the supply of its asset and leaves every other
    /// supply.
    pub proof fn lemma_without_escrow_supply(self, at: VaultRef, of: Asset)
        requires
            self.balances.dom().finite(),
            self.vaults.dom().finite(),
            self.vaults.dom().contains(at),
        ensures
            self.without_escrow(at).supply(of) + (if of == self.vaults[at].asset {
                self.vaults[at].balance as nat
            } else {
                0
            }) == self.supply(of),
    {
        let after = self.without_escrow(at);
        self.lemma_parts_finite(of);
        assert(after.held(of) =~= self.held(of));
        if of == self.vaults[at].asset {
            assert(after.locked(of) =~= self.locked(of).remove(at));
            lemma_total_share(self.locked(of), at);
        } else {
            assert(after.locked(of) =~= self.locked(of));
        }
    }
}

} // verus!
