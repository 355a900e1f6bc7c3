//! Runs of calls on a ledger, and what holds at every point of every run.

use crate::error::EscrowError;
use crate::identity::{Asset, Identity};
use crate::laws::{
    cancel_conserves_supply, issue_keeps_ledger_sound, make_conserves_supply,
    take_conserves_supply,
};
use crate::model::LedgerView;
use crate::record::VaultRef;
use vstd::prelude::*;

verus! {

/// One call on a ledger, with its arguments.
pub enum Call {
    /// `issue(holder, asset, amount)`.
    Issue { holder: Identity, asset: Asset, amount: u64 },
    /// `make(maker, offered_asset, desired_asset, desired_amount, offered_amount, nonce)`.
    Make {
        maker: Identity,
        offered_asset: Asset,
        desired_asset: Asset,
        desired_amount: u64,
        offered_amount: u64,
        nonce: u64,
    },
    /// `take(taker, at)`.
    Take { taker: Identity, at: VaultRef },
    /// `cancel(caller, at)`.
    Cancel { caller: Identity, at: VaultRef },
}

impl Call {
    /// The call is a `make` at the address `at`.
    pub open spec fn makes_at(self, at: VaultRef) -> bool {
        self matches Call::Make { maker, nonce, .. } && (VaultRef { maker, nonce }) == at
    }

    /// The call is a `take` or a `cancel` at the address `at`.
    pub open spec fn closes_at(self, at: VaultRef) -> bool {
        ||| self matches Call::Take { at: there, .. } && there == at
        ||| self matches Call::Cancel { at: there, .. } && there == at
    }

    /// The call is an `issue` of `asset`.
    pub open spec fn issues(self, asset: Asset) -> bool {
        self matches Call::Issue { asset: issued, .. } && issued == asset
    }
}

/// No call of the run is a `make` at `at`.
pub open spec fn none_makes_at(calls: Seq<Call>, at: VaultRef) -> bool {
    forall|i: int| 0 <= i < calls.len() ==> !(#[trigger] calls[i]).makes_at(at)
}

/// No call of the run is an `issue` of `asset`.
pub open spec fn none_issues(calls: Seq<Call>, asset: Asset) -> bool {
    forall|i: int| 0 <= i < calls.len() ==> !(#[trigger] calls[i]).issues(asset)
}

/// The escrow at `at` is in `t` what it is in `s`: the same record with the same vault.
pub open spec fn same_escrow(s: LedgerView, t: LedgerView, at: VaultRef) -> bool {
    t.live(at) && t.escrows[at] == s.escrows[at] && t.vaults[at] == s.vaults[at]
}

impl LedgerView {
    /// The ledger once `call` has run on it, whether it succeeded or not.
    pub open spec fn after(self, call: Call) -> LedgerView {
        match call {
            Call::Issue { holder, asset, amount } => self.issued(holder, asset, amount),
            Call::Make {
                maker,
                offered_asset,
                desired_asset,
                desired_amount,
                offered_amount,
                nonce,
            } => self.made(
                maker,
                offered_asset,
                desired_asset,
                desired_amount,
                offered_amount,
                nonce,
            ),
            Call::Take { taker, at } => self.taken(taker, at),
            Call::Cancel { caller, at } => self.cancelled(caller, at),
        }
    }

    /// The ledger once the calls have run on it one after the other.
    pub open spec fn after_all(self, calls: Seq<Call>) -> LedgerView
        decreases calls.len(),
    {
        if calls.len() == 0 {
            self
        } else {
            self.after_all(calls.drop_last()).after(calls.last())
        }
    }
}

/// Whatever is called, with whatever arguments, a well-formed ledger stays well formed, and
/// all there is of an asset stays what it was unless the call issues that asset.
pub proof fn every_call_keeps_the_ledger_sound(s: LedgerView, call: Call)
    requires
        s.wf(),
    ensures
        s.after(call).wf(),
        forall|asset: Asset|
            !call.issues(asset) ==> #[trigger] s.after(call).supply(asset) == s.supply(asset),
{
    match call {
        Call::Issue { holder, asset, amount } => {
            issue_keeps_ledger_sound(s, holder, asset, amount);
        },
        Call::Make {
            maker,
            offered_asset,
            desired_asset,
            desired_amount,
            offered_amount,
            nonce,
        } => {
            make_conserves_supply(
                s,
                maker,
                offered_asset,
                desired_asset,
                desired_amount,
                offered_amount,
                nonce,
            );
        },
        Call::Take { taker, at } => {
            take_conserves_supply(s, taker, at);
        },
        Call::Cancel { caller, at } => {
            cancel_conserves_supply(s, caller, at);
        },
    }
}

/// No call but a `make` at an address brings an escrow to life there.
pub proof fn only_make_opens(s: LedgerView, call: Call, at: VaultRef)
    requires
        !s.live(at),
        !call.makes_at(at),
    ensures
        !s.after(call).live(at),
{
}

/// No call but a take or a cancel at an address closes the escrow there, and an escrow that
/// is live before a call and after it is the same record with the same vault.
pub proof fn only_take_and_cancel_close(s: LedgerView, call: Call, at: VaultRef)
    requires
        s.wf(),
        s.live(at),
    ensures
        s.after(call).live(at) ==> same_escrow(s, s.after(call), at),
        !s.after(call).live(at) ==> call.closes_at(at),
{
}

/// Where no call of a run is a `make` at `at`, none of its calls but the last is, nor is the
/// last.
proof fn lemma_front_makes(calls: Seq<Call>, at: VaultRef)
    requires
        calls.len() > 0,
        none_makes_at(calls, at),
    ensures
        none_makes_at(calls.drop_last(), at),
        !calls.last().makes_at(at),
{
    let front = calls.drop_last();
    assert(!calls[calls.len() - 1].makes_at(at));
    assert forall|i: int| 0 <= i < front.len() implies !(#[trigger] front[i]).makes_at(at) by {
        assert(!calls[i].makes_at(at));
    }
}

/// Where no call of a run is an `issue` of `asset`, none of its calls but the last is, nor is
/// the last.
proof fn lemma_front_issues(calls: Seq<Call>, asset: Asset)
    requires
        calls.len() > 0,
        none_issues(calls, asset),
    ensures
        none_issues(calls.drop_last(), asset),
        !calls.last().issues(asset),
{
    let front = calls.drop_last();
    assert(!calls[calls.len() - 1].issues(asset));
    assert forall|i: int| 0 <= i < front.len() implies !(#[trigger] front[i]).issues(asset) by {
        assert(!calls[i].issues(asset));
    }
}

/// The ledger is well formed between any two calls of any run, and a run that issues nothing
/// of an asset leaves all there is of that asset as it was.
pub proof fn every_run_keeps_the_ledger_sound(s: LedgerView, calls: Seq<Call>)
    requires
        s.wf(),
    ensures
        s.after_all(calls).wf(),
        forall|asset: Asset|
            none_issues(calls, asset) ==> #[trigger] s.after_all(calls).supply(asset) == s.supply(
                asset,
            ),
    decreases calls.len(),
{
    if calls.len() > 0 {
        let front = calls.drop_last();
        every_run_keeps_the_ledger_sound(s, front);
        every_call_keeps_the_ledger_sound(s.after_all(front), calls.last());
        assert forall|asset: Asset| none_issues(calls, asset) implies #[trigger] s.after_all(
            calls,
        ).supply(asset) == s.supply(asset) by {
            lemma_front_issues(calls, asset);
        }
    }
}

/// An address at which no escrow is live stays so through every run that holds no `make` at
/// that address, and whoever takes or cancels there afterwards is told `EscrowNotFound`. So
/// an escrow that was taken or cancelled is never settled or unwound a second time.
pub proof fn closed_until_made_again(s: LedgerView, calls: Seq<Call>, at: VaultRef, who: Identity)
    requires
        !s.live(at),
        none_makes_at(calls, at),
    ensures
        !s.after_all(calls).live(at),
        s.after_all(calls).take_outcome(who, at) matches Err(EscrowError::EscrowNotFound),
        s.after_all(calls).cancel_outcome(who, at) matches Err(EscrowError::EscrowNotFound),
    decreases calls.len(),
{
    if calls.len() > 0 {
        lemma_front_makes(calls, at);
        closed_until_made_again(s, calls.drop_last(), at, who);
        only_make_opens(s.after_all(calls.drop_last()), calls.last(), at);
    }
}

/// Once a call has closed an escrow, every take and every cancel at its address is told
/// `EscrowNotFound`, however many calls come in between, until a new offer is made there.
pub proof fn closure_is_terminal(
    s: LedgerView,
    closing: Call,
    calls: Seq<Call>,
    at: VaultRef,
    who: Identity,
)
    requires
        s.live(at),
        !s.after(closing).live(at),
        none_makes_at(calls, at),
    ensures
        s.after(closing).after_all(calls).take_outcome(who, at) matches Err(
            EscrowError::EscrowNotFound,
        ),
        s.after(closing).after_all(calls).cancel_outcome(who, at) matches Err(
            EscrowError::EscrowNotFound,
        ),
{
    closed_until_made_again(s.after(closing), calls, at, who);
}

/// An escrow that is live before a run and after it, with no `make` at its address in
/// between, is the same record with the same vault: the terms never change, and the vault
/// holds what was locked in it for as long as the escrow is live.
pub proof fn live_through_a_run_is_unchanged(s: LedgerView, calls: Seq<Call>, at: VaultRef)
    requires
        s.wf(),
        s.live(at),
        none_makes_at(calls, at),
        s.after_all(calls).live(at),
    ensures
        same_escrow(s, s.after_all(calls), at),
    decreases calls.len(),
{
    if calls.len() > 0 {
        let front = calls.drop_last();
        let t = s.after_all(front);
        lemma_front_makes(calls, at);
        every_run_keeps_the_ledger_sound(s, front);
        if !t.live(at) {
            only_make_opens(t, calls.last(), at);
        }
        live_through_a_run_is_unchanged(s, front, at);
        only_take_and_cancel_close(t, calls.last(), at);
    }
}

} // verus!
