//! What holds of every ledger and of every run of operations on it.

use crate::accounts::{Settlement, Take, TokenAccount};
use crate::error::EscrowError;
use crate::identity::{Asset, Identity};
use crate::model::LedgerView;
use crate::record::{Escrow, Vault, VaultRef};
use vstd::prelude::*;

verus! {

/// On the empty ledger nothing exists of any asset, and the empty ledger is well formed.
pub proof fn nothing_exists_on_the_empty_ledger(asset: Asset)
    ensures
        LedgerView::empty().supply(asset) == 0,
        LedgerView::empty().wf(),
{
    assert forall|of: Asset| #[trigger] LedgerView::empty().supply(of) == 0 by {
        assert(LedgerView::empty().held(of) =~= Map::empty());
        assert(LedgerView::empty().locked(of) =~= Map::empty());
    }
}

/// Issuing keeps the ledger well formed, adds the amount to the supply of its asset where it
/// succeeds, and touches no other supply.
pub proof fn issue_keeps_ledger_sound(
    s: LedgerView,
    holder: Identity,
    asset: Asset,
    amount: u64,
)
    requires
        s.wf(),
    ensures
        s.issued(holder, asset, amount).wf(),
        forall|of: Asset|
            of != asset ==> #[trigger] s.issued(holder, asset, amount).supply(of) == s.supply(of),
        s.issue_outcome(asset, amount) is Ok ==> s.issued(holder, asset, amount).supply(asset)
            == s.supply(asset) + amount,
{
    let t = s.credit(holder, asset, amount as nat);
    assert forall|of: Asset| #[trigger]
        t.supply(of) == s.supply(of) + if of == asset {
            amount as nat
        } else {
            0
        } by {
        s.lemma_credit_supply(holder, asset, amount as nat, of);
    }
    s.lemma_credit_supply(holder, asset, amount as nat, asset);
}

/// `make` keeps the ledger well formed and leaves all there is of every asset as it was: what
/// leaves the maker is in the vault.
pub proof fn make_conserves_supply(
    s: LedgerView,
    maker: Identity,
    offered_asset: Asset,
    desired_asset: Asset,
    desired_amount: u64,
    offered_amount: u64,
    nonce: u64,
)
    requires
        s.wf(),
    ensures
        s.made(maker, offered_asset, desired_asset, desired_amount, offered_amount, nonce).wf(),
        forall|of: Asset| #[trigger]
            s.made(
                maker,
                offered_asset,
                desired_asset,
                desired_amount,
                offered_amount,
                nonce,
            ).supply(of) == s.supply(of),
{
    if s.make_outcome(maker, offered_asset, desired_asset, desired_amount, offered_amount, nonce)
        is Ok {
        let record = Escrow { owner: maker, offered_asset, desired_asset, desired_amount, nonce };
        let debited = s.debit(maker, offered_asset, offered_amount as nat);
        let t = debited.with_escrow(record, offered_amount);
        assert(t.vaults.dom() =~= t.escrows.dom());
        assert forall|of: Asset| #[trigger] t.supply(of) == s.supply(of) by {
            s.lemma_debit_supply(maker, offered_asset, offered_amount as nat, of);
            debited.lemma_with_escrow_supply(record, offered_amount, of);
        }
    }
}

/// `take` keeps the ledger well formed and leaves all there is of every asset as it was: the
/// price only changes hands, and what leaves the vault is with the taker.
pub proof fn take_conserves_supply(s: LedgerView, taker: Identity, at: VaultRef)
    requires
        s.wf(),
    ensures
        s.taken(taker, at).wf(),
        forall|of: Asset| #[trigger] s.taken(taker, at).supply(of) == s.supply(of),
{
    if s.take_outcome(taker, at) is Ok {
        let record = s.escrows[at];
        let price = record.desired_amount as nat;
        let lot = s.vaults[at].balance as nat;
        let paid = s.transfer(taker, record.owner, record.desired_asset, price);
        let released = paid.credit(taker, record.offered_asset, lot);
        let t = released.without_escrow(at);
        assert(t.vaults.dom() =~= t.escrows.dom());
        assert forall|of: Asset| #[trigger] t.supply(of) == s.supply(of) by {
            s.lemma_transfer_supply(taker, record.owner, record.desired_asset, price, of);
            paid.lemma_credit_supply(taker, record.offered_asset, lot, of);
            released.lemma_without_escrow_supply(at, of);
        }
    }
}

/// `cancel` keeps the ledger well formed and leaves all there is of every asset as it was:
/// what leaves the vault is with the owner.
pub proof fn cancel_conserves_supply(s: LedgerView, caller: Identity, at: VaultRef)
    requires
        s.wf(),
    ensures
        s.cancelled(caller, at).wf(),
        forall|of: Asset| #[trigger] s.cancelled(caller, at).supply(of) == s.supply(of),
{
    if s.cancel_outcome(caller, at) is Ok {
        let record = s.escrows[at];
        let lot = s.vaults[at].balance as nat;
        let s1 = s.credit(record.owner, record.offered_asset, lot);
        let t = s1.without_escrow(at);
        assert(t.vaults.dom() =~= t.escrows.dom());
        assert forall|of: Asset| #[trigger] t.supply(of) == s.supply(of) by {
            s.lemma_credit_supply(record.owner, record.offered_asset, lot, of);
            s1.lemma_without_escrow_supply(at, of);
        }
    }
}

/// Two offers share an address only if they share maker and nonce.
pub proof fn addresses_do_not_collide(maker: Identity, nonce: u64, other: Identity, then: u64)
    requires
        (VaultRef { maker, nonce }) == (VaultRef { maker: other, nonce: then }),
    ensures
        maker == other,
        nonce == then,
{
}

/// After a `make` that succeeded, the record stands at the address of maker and nonce with the
/// terms that were given, its vault holds exactly the offer, the maker has exactly the offer
/// less of the offered asset, and no other balance has moved.
pub proof fn make_locks_the_offer(
    s: LedgerView,
    maker: Identity,
    offered_asset: Asset,
    desired_asset: Asset,
    desired_amount: u64,
    offered_amount: u64,
    nonce: u64,
)
    requires
        s.wf(),
        s.make_outcome(maker, offered_asset, desired_asset, desired_amount, offered_amount, nonce)
            is Ok,
    ensures
        ({
            let t = s.made(
                maker,
                offered_asset,
                desired_asset,
                desired_amount,
                offered_amount,
                nonce,
            );
            let at = VaultRef { maker, nonce };
            &&& t.live(at)
            &&& t.escrows[at] == (Escrow {
                owner: maker,
                offered_asset,
                desired_asset,
                desired_amount,
                nonce,
            })
            &&& t.vaults.dom().contains(at)
            &&& t.vaults[at] == (Vault { address: at, asset: offered_asset, balance: offered_amount })
            &&& t.balance(maker, offered_asset) + offered_amount == s.balance(maker, offered_asset)
            &&& forall|holder: Identity, asset: Asset|
                (holder, asset) != (maker, offered_asset) ==> #[trigger] t.balance(holder, asset)
                    == s.balance(holder, asset)
        }),
{
}

/// Once an escrow has been taken, whoever takes or cancels at its address next is told
/// `EscrowNotFound`, and the ledger stays as the take left it.
pub proof fn taken_is_terminal(s: LedgerView, taker: Identity, at: VaultRef, next: Identity)
    requires
        s.wf(),
        s.take_outcome(taker, at) is Ok,
    ensures
        ({
            let t = s.taken(taker, at);
            &&& !t.live(at)
            &&& !t.vaults.dom().contains(at)
            &&& t.take_outcome(next, at) matches Err(EscrowError::EscrowNotFound)
            &&& t.cancel_outcome(next, at) matches Err(EscrowError::EscrowNotFound)
            &&& t.taken(next, at) == t
            &&& t.cancelled(next, at) == t
        }),
{
}

/// Once an escrow has been cancelled, whoever takes or cancels at its address next is told
/// `EscrowNotFound`, and the ledger stays as the cancel left it.
pub proof fn cancelled_is_terminal(s: LedgerView, owner: Identity, at: VaultRef, next: Identity)
    requires
        s.wf(),
        s.cancel_outcome(owner, at) is Ok,
    ensures
        ({
            let t = s.cancelled(owner, at);
            &&& !t.live(at)
            &&& !t.vaults.dom().contains(at)
            &&& t.take_outcome(next, at) matches Err(EscrowError::EscrowNotFound)
            &&& t.cancel_outcome(next, at) matches Err(EscrowError::EscrowNotFound)
            &&& t.taken(next, at) == t
            &&& t.cancelled(next, at) == t
        }),
{
}

/// A maker who makes an offer and cancels it has the ledger back exactly as it was before:
/// every balance, and neither record nor vault.
pub proof fn make_then_cancel_restores(
    s: LedgerView,
    maker: Identity,
    offered_asset: Asset,
    desired_asset: Asset,
    desired_amount: u64,
    offered_amount: u64,
    nonce: u64,
)
    requires
        s.wf(),
        s.make_outcome(maker, offered_asset, desired_asset, desired_amount, offered_amount, nonce)
            is Ok,
    ensures
        ({
            let t = s.made(
                maker,
                offered_asset,
                desired_asset,
                desired_amount,
                offered_amount,
                nonce,
            );
            let at = VaultRef { maker, nonce };
            &&& t.cancel_outcome(maker, at) is Ok
            &&& t.cancelled(maker, at) == s
        }),
{
    let t = s.made(maker, offered_asset, desired_asset, desired_amount, offered_amount, nonce);
    let at = VaultRef { maker, nonce };
    let u = t.cancelled(maker, at);
    assert(u.balances =~= s.balances);
    assert(u.escrows =~= s.escrows);
    assert(u.vaults =~= s.vaults);
}

/// What a `take` that succeeded has moved. The taker has all that the vault held more of the
/// offered asset. Of the desired asset the owner has the price more and the taker the price
/// less, unless the owner took the offer, who then has as much as before. Record and vault are
/// gone, and no other balance has moved.
pub proof fn take_settles_both_legs(s: LedgerView, taker: Identity, at: VaultRef)
    requires
        s.wf(),
        s.take_outcome(taker, at) is Ok,
    ensures
        ({
            let t = s.taken(taker, at);
            let record = s.escrows[at];
            let owner = record.owner;
            &&& !t.live(at)
            &&& !t.vaults.dom().contains(at)
            &&& t.balance(taker, record.offered_asset) == s.balance(taker, record.offered_asset)
                + s.vaults[at].balance
            &&& taker != owner ==> t.balance(owner, record.desired_asset) == s.balance(
                owner,
                record.desired_asset,
            ) + record.desired_amount
            &&& taker != owner ==> t.balance(taker, record.desired_asset) + record.desired_amount
                == s.balance(taker, record.desired_asset)
            &&& taker == owner ==> t.balance(taker, record.desired_asset) == s.balance(
                taker,
                record.desired_asset,
            )
            &&& forall|holder: Identity, asset: Asset|
                (holder, asset) != (taker, record.offered_asset) && (holder, asset) != (
                    taker,
                    record.desired_asset,
                ) && (holder, asset) != (owner, record.desired_asset) ==> #[trigger] t.balance(
                    holder,
                    asset,
                ) == s.balance(holder, asset)
        }),
{
}

/// A take does all or nothing: the ledger after it is either the ledger before it or the
/// ledger with both legs settled and the escrow closed, and it is the first exactly when the
/// take was refused.
pub proof fn take_is_all_or_nothing(s: LedgerView, taker: Identity, at: VaultRef)
    ensures
        s.take_outcome(taker, at) is Err ==> s.taken(taker, at) == s,
        s.take_outcome(taker, at) is Ok ==> s.taken(taker, at) == s.after_take(taker, at),
{
}

/// An offer that is made and then taken by another party is a swap: the maker has the offer
/// less of the offered asset and the price more of the desired one, the taker the reverse,
/// nothing else has moved, and record and vault are gone.
pub proof fn make_then_take_swaps(
    s: LedgerView,
    maker: Identity,
    taker: Identity,
    offered_asset: Asset,
    desired_asset: Asset,
    desired_amount: u64,
    offered_amount: u64,
    nonce: u64,
)
    requires
        s.wf(),
        s.make_outcome(maker, offered_asset, desired_asset, desired_amount, offered_amount, nonce)
            is Ok,
        taker != maker,
        s.balance(taker, desired_asset) >= desired_amount,
    ensures
        ({
            let at = VaultRef { maker, nonce };
            let t = s.made(
                maker,
                offered_asset,
                desired_asset,
                desired_amount,
                offered_amount,
                nonce,
            );
            let u = t.taken(taker, at);
            &&& t.take_outcome(taker, at) is Ok
            &&& u.balance(maker, offered_asset) + offered_amount == s.balance(maker, offered_asset)
            &&& u.balance(maker, desired_asset) == s.balance(maker, desired_asset) + desired_amount
            &&& u.balance(taker, offered_asset) == s.balance(taker, offered_asset) + offered_amount
            &&& u.balance(taker, desired_asset) + desired_amount == s.balance(taker, desired_asset)
            &&& forall|holder: Identity, asset: Asset|
                (holder != maker && holder != taker) || (asset != offered_asset && asset
                    != desired_asset) ==> #[trigger] u.balance(holder, asset) == s.balance(
                    holder,
                    asset,
                )
            &&& u.escrows == s.escrows
            &&& u.vaults == s.vaults
        }),
{
    let at = VaultRef { maker, nonce };
    let t = s.made(maker, offered_asset, desired_asset, desired_amount, offered_amount, nonce);
    let u = t.taken(taker, at);
    assert(u.escrows =~= s.escrows);
    assert(u.vaults =~= s.vaults);
}

/// Whoever holds the price may take a live escrow; whoever holds less is told
/// `InsufficientFunds`, and nothing changes: no balance, and neither record nor vault.
pub proof fn take_needs_the_price(s: LedgerView, taker: Identity, at: VaultRef)
    requires
        s.live(at),
    ensures
        s.balance(taker, s.escrows[at].desired_asset) >= s.escrows[at].desired_amount
            ==> s.take_outcome(taker, at) is Ok,
        s.balance(taker, s.escrows[at].desired_asset) < s.escrows[at].desired_amount ==> {
            &&& s.take_outcome(taker, at) matches Err(EscrowError::InsufficientFunds)
            &&& s.taken(taker, at) == s
        },
{
}

/// The owner may cancel a live escrow; anyone else is told `Unauthorized`, and nothing
/// changes: no balance, and neither record nor vault.
pub proof fn cancel_needs_the_owner(s: LedgerView, caller: Identity, at: VaultRef)
    requires
        s.live(at),
    ensures
        caller == s.escrows[at].owner ==> s.cancel_outcome(caller, at) is Ok,
        caller != s.escrows[at].owner ==> {
            &&& s.cancel_outcome(caller, at) matches Err(EscrowError::Unauthorized)
            &&& s.cancelled(caller, at) == s
        },
{
}

/// While an escrow of a maker is live under a nonce, every `make` of that maker under that
/// nonce is told `EscrowAlreadyExists`, whatever its terms, and nothing changes.
pub proof fn live_nonce_is_taken(
    s: LedgerView,
    maker: Identity,
    offered_asset: Asset,
    desired_asset: Asset,
    desired_amount: u64,
    offered_amount: u64,
    nonce: u64,
)
    requires
        s.live(VaultRef { maker, nonce }),
    ensures
        s.make_outcome(
            maker,
            offered_asset,
            desired_asset,
            desired_amount,
            offered_amount,
            nonce,
        ) matches Err(EscrowError::EscrowAlreadyExists),
        s.made(maker, offered_asset, desired_asset, desired_amount, offered_amount, nonce) == s,
{
}

/// `make` and `cancel` move the offered asset only: every balance of any other asset is after
/// them what it was before.
pub proof fn make_and_cancel_move_the_offered_asset_only(
    s: LedgerView,
    maker: Identity,
    offered_asset: Asset,
    desired_asset: Asset,
    desired_amount: u64,
    offered_amount: u64,
    nonce: u64,
    caller: Identity,
    at: VaultRef,
)
    ensures
        forall|holder: Identity, asset: Asset|
            asset != offered_asset ==> #[trigger] s.made(
                maker,
                offered_asset,
                desired_asset,
                desired_amount,
                offered_amount,
                nonce,
            ).balance(holder, asset) == s.balance(holder, asset),
        forall|holder: Identity, asset: Asset|
            s.live(at) && asset != s.escrows[at].offered_asset ==> #[trigger] s.cancelled(
                caller,
                at,
            ).balance(holder, asset) == s.balance(holder, asset),
{
}

/// Accounts that are named after a record itself agree with it: held against the record and
/// its vault, they are refused only where the taker holds less than the price, and else
/// settle for the price against all that the vault holds.
pub proof fn own_accounts_agree(
    record: Escrow,
    vault: Vault,
    taker: Identity,
    taker_has_a: u64,
    taker_has_b: u64,
    maker_has_b: u64,
)
    requires
        vault.serves(&record),
    ensures
        ({
            let named = Take {
                taker,
                maker: record.owner,
                mint_a: record.offered_asset,
                mint_b: record.desired_asset,
                taker_ata_a: TokenAccount {
                    mint: record.offered_asset,
                    authority: taker,
                    amount: taker_has_a,
                },
                taker_ata_b: TokenAccount {
                    mint: record.desired_asset,
                    authority: taker,
                    amount: taker_has_b,
                },
                maker_ata_b: TokenAccount {
                    mint: record.desired_asset,
                    authority: record.owner,
                    amount: maker_has_b,
                },
            };
            named.settlement(&record, &vault) == (if taker_has_b < record.desired_amount {
                Err(EscrowError::InsufficientFunds)
            } else {
                Ok(Settlement { payment: record.desired_amount, released: vault.balance })
            })
        }),
{
}

} // verus!
