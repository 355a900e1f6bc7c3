//! The two lists behind a ledger, the balance accounts and the live escrows with their vaults,
//! and the state that they stand for.

use crate::accounts::TokenAccount;
use crate::assoc::{
    distinct_keys, has_key, lemma_to_map_dom, lemma_to_map_push, lemma_to_map_remove,
    lemma_to_map_row, lemma_to_map_update, to_map,
};
use crate::identity::{Asset, Identity};
use crate::model::{
    credited, debited, held_in, lemma_held_in_finite, lemma_locked_in_finite, locked_in,
    LedgerView,
};
use crate::record::{Escrow, Vault, VaultRef};
use crate::sums::{lemma_total_insert, share, total};
use vstd::prelude::*;

verus! {

/// A live escrow with its vault.
pub(crate) struct Lot {
    pub(crate) record: Escrow,
    pub(crate) vault: Vault,
}

/// The balance accounts as rows of holder and asset against balance.
pub(crate) open spec fn account_rows(accounts: Seq<TokenAccount>) -> Seq<
    ((Identity, Asset), nat),
> {
    accounts.map_values(|a: TokenAccount| ((a.authority, a.mint), a.amount as nat))
}

/// The live records as rows of address against record.
pub(crate) open spec fn record_rows(lots: Seq<Lot>) -> Seq<(VaultRef, Escrow)> {
    lots.map_values(|l: Lot| (l.record.address(), l.record))
}

/// The live vaults as rows of address against vault.
pub(crate) open spec fn vault_rows(lots: Seq<Lot>) -> Seq<(VaultRef, Vault)> {
    lots.map_values(|l: Lot| (l.record.address(), l.vault))
}

/// The balances that a list of accounts stands for.
pub(crate) open spec fn balances_of(accounts: Seq<TokenAccount>) -> Map<(Identity, Asset), nat> {
    to_map(account_rows(accounts))
}

/// The live records that a list of lots stands for.
pub(crate) open spec fn escrows_of(lots: Seq<Lot>) -> Map<VaultRef, Escrow> {
    to_map(record_rows(lots))
}

/// The live vaults that a list of lots stands for.
pub(crate) open spec fn vaults_of(lots: Seq<Lot>) -> Map<VaultRef, Vault> {
    to_map(vault_rows(lots))
}

/// The state that a list of accounts and a list of lots stand for.
pub(crate) open spec fn view_of(accounts: Seq<TokenAccount>, lots: Seq<Lot>) -> LedgerView {
    LedgerView {
        balances: balances_of(accounts),
        escrows: escrows_of(lots),
        vaults: vaults_of(lots),
    }
}

/// What the two lists keep to: no account and no address stands twice, each lot pairs a valid
/// record with the vault that serves it, no vault is empty, and all there is of an asset fits
/// a balance.
pub(crate) open spec fn sound(accounts: Seq<TokenAccount>, lots: Seq<Lot>) -> bool {
    &&& distinct_keys(account_rows(accounts))
    &&& distinct_keys(record_rows(lots))
    &&& forall|i: int|
        0 <= i < lots.len() ==> {
            &&& (#[trigger] lots[i]).record.valid()
            &&& lots[i].vault.serves(&lots[i].record)
            &&& lots[i].vault.balance > 0
        }
    &&& forall|asset: Asset| #[trigger] view_of(accounts, lots).supply(asset) <= u64::MAX
}

/// The vaults stand under the same addresses as the records, so no address stands twice among
/// them either.
proof fn lemma_vault_rows_distinct(lots: Seq<Lot>)
    requires
        distinct_keys(record_rows(lots)),
    ensures
        distinct_keys(vault_rows(lots)),
{
    assert forall|i: int, j: int| 0 <= i < j < lots.len() implies vault_rows(lots)[i].0
        != vault_rows(lots)[j].0 by {
        assert(record_rows(lots)[i].0 != record_rows(lots)[j].0);
    }
}

/// Lists that are sound stand for a well-formed state.
pub(crate) proof fn lemma_sound_wf(accounts: Seq<TokenAccount>, lots: Seq<Lot>)
    requires
        sound(accounts, lots),
    ensures
        view_of(accounts, lots).wf(),
{
    let v = view_of(accounts, lots);
    lemma_vault_rows_distinct(lots);
    lemma_to_map_dom(account_rows(accounts));
    lemma_to_map_dom(record_rows(lots));
    lemma_to_map_dom(vault_rows(lots));
    assert forall|at: VaultRef| v.vaults.dom().contains(at) <==> v.escrows.dom().contains(at) by {
        if has_key(vault_rows(lots), at) {
            let i = choose|i: int| 0 <= i < lots.len() && (#[trigger] vault_rows(lots)[i]).0 == at;
            assert(record_rows(lots)[i].0 == at);
        }
        if has_key(record_rows(lots), at) {
            let i = choose|i: int| 0 <= i < lots.len() && (#[trigger] record_rows(lots)[i]).0 == at;
            assert(vault_rows(lots)[i].0 == at);
        }
    }
    assert(v.vaults.dom() =~= v.escrows.dom());
    assert forall|at: VaultRef| #[trigger] v.escrows.dom().contains(at) implies {
        &&& v.escrows[at].valid()
        &&& v.escrows[at].address() == at
        &&& v.vaults[at].serves(&v.escrows[at])
        &&& v.vaults[at].balance > 0
    } by {
        assert(has_key(record_rows(lots), at));
        let i = choose|i: int| 0 <= i < lots.len() && (#[trigger] record_rows(lots)[i]).0 == at;
        lemma_to_map_row(record_rows(lots), i);
        lemma_to_map_row(vault_rows(lots), i);
        assert(lots[i].record.valid());
    }
}

/// What the list gives as a balance is the amount of an account, and so fits a balance.
proof fn lemma_balance_fits(accounts: Seq<TokenAccount>, holder: Identity, asset: Asset)
    requires
        distinct_keys(account_rows(accounts)),
    ensures
        share(balances_of(accounts), (holder, asset)) <= u64::MAX,
{
    let rows = account_rows(accounts);
    lemma_to_map_dom(rows);
    if has_key(rows, (holder, asset)) {
        let i = choose|i: int| 0 <= i < rows.len() && (#[trigger] rows[i]).0 == (holder, asset);
        lemma_to_map_row(rows, i);
    }
}

/// Where the account of `holder` for `asset` stands in the list, if it is there.
fn find_account(accounts: &Vec<TokenAccount>, holder: &Identity, asset: &Asset) -> (r: Option<
    usize,
>)
    ensures
        match r {
            Some(i) => i < accounts.len() && accounts[i as int].is_account_of(*holder, *asset)
                && has_key(account_rows(accounts@), (*holder, *asset)),
            None => !has_key(account_rows(accounts@), (*holder, *asset)),
        },
{
    let mut i: usize = 0;
    while i < accounts.len()
        invariant
            i <= accounts.len(),
            forall|j: int| 0 <= j < i ==> !accounts[j].is_account_of(*holder, *asset),
        decreases accounts.len() - i,
    {
        if accounts[i].authority == *holder && accounts[i].mint == *asset {
            assert(account_rows(accounts@)[i as int].0 == (*holder, *asset));
            return Some(i);
        }
        i += 1;
    }
    proof {
        let rows = account_rows(accounts@);
        if has_key(rows, (*holder, *asset)) {
            let j = choose|j: int|
                0 <= j < rows.len() && (#[trigger] rows[j]).0 == (*holder, *asset);
            assert(accounts[j].is_account_of(*holder, *asset));
        }
    }
    None
}

/// What `holder` has of `asset` in the list.
pub(crate) fn amount_in(accounts: &Vec<TokenAccount>, holder: &Identity, asset: &Asset) -> (r:
    u64)
    requires
        distinct_keys(account_rows(accounts@)),
    ensures
        r == share(balances_of(accounts@), (*holder, *asset)),
{
    proof {
        lemma_to_map_dom(account_rows(accounts@));
    }
    match find_account(accounts, holder, asset) {
        Some(i) => {
            proof {
                lemma_to_map_row(account_rows(accounts@), i as int);
            }
            accounts[i].amount
        },
        None => 0,
    }
}

/// The account of `holder` for `asset` as the list has it, or as it would be when first
/// opened.
pub(crate) fn load(accounts: &Vec<TokenAccount>, holder: Identity, asset: Asset) -> (r:
    TokenAccount)
    requires
        distinct_keys(account_rows(accounts@)),
    ensures
        r.is_account_of(holder, asset),
        r.amount == share(balances_of(accounts@), (holder, asset)),
{
    TokenAccount { mint: asset, authority: holder, amount: amount_in(accounts, &holder, &asset) }
}

/// Writes `amount` as the balance of `holder` in `asset`, opening the account if there is none.
fn set_amount(accounts: &mut Vec<TokenAccount>, holder: Identity, asset: Asset, amount: u64)
    requires
        distinct_keys(account_rows(old(accounts)@)),
    ensures
        distinct_keys(account_rows(final(accounts)@)),
        balances_of(final(accounts)@) == balances_of(old(accounts)@).insert(
            (holder, asset),
            amount as nat,
        ),
{
    let entry = TokenAccount { mint: asset, authority: holder, amount };
    match find_account(accounts, &holder, &asset) {
        Some(i) => {
            proof {
                lemma_to_map_update(account_rows(accounts@), i as int, amount as nat);
                assert(account_rows(accounts@.update(i as int, entry)) =~= account_rows(
                    accounts@,
                ).update(i as int, ((holder, asset), amount as nat)));
            }
            accounts.set(i, entry);
        },
        None => {
            proof {
                lemma_to_map_push(account_rows(accounts@), (holder, asset), amount as nat);
                assert(account_rows(accounts@.push(entry)) =~= account_rows(accounts@).push(
                    ((holder, asset), amount as nat),
                ));
            }
            accounts.push(entry);
        },
    }
}

/// Adds `amount` to what `holder` has of `asset`, opening the account if there is none.
pub(crate) fn credit(accounts: &mut Vec<TokenAccount>, holder: Identity, asset: Asset, amount: u64)
    requires
        distinct_keys(account_rows(old(accounts)@)),
        share(balances_of(old(accounts)@), (holder, asset)) + amount <= u64::MAX,
    ensures
        distinct_keys(account_rows(final(accounts)@)),
        balances_of(final(accounts)@) == credited(
            balances_of(old(accounts)@),
            holder,
            asset,
            amount as nat,
        ),
{
    let had = amount_in(accounts, &holder, &asset);
    set_amount(accounts, holder, asset, had + amount);
}

/// Takes `amount` from what `holder` has of `asset`.
pub(crate) fn debit(accounts: &mut Vec<TokenAccount>, holder: Identity, asset: Asset, amount: u64)
    requires
        distinct_keys(account_rows(old(accounts)@)),
        amount <= share(balances_of(old(accounts)@), (holder, asset)),
    ensures
        distinct_keys(account_rows(final(accounts)@)),
        balances_of(final(accounts)@) == debited(
            balances_of(old(accounts)@),
            holder,
            asset,
            amount as nat,
        ),
{
    let had = amount_in(accounts, &holder, &asset);
    set_amount(accounts, holder, asset, had - amount);
}

/// Moves `amount` of `asset` from one holder to another, opening the account of the second
/// if there is none.
pub(crate) fn transfer(
    accounts: &mut Vec<TokenAccount>,
    from: Identity,
    to: Identity,
    asset: Asset,
    amount: u64,
)
    requires
        distinct_keys(account_rows(old(accounts)@)),
        amount <= share(balances_of(old(accounts)@), (from, asset)),
        from != to ==> share(balances_of(old(accounts)@), (to, asset)) + amount <= u64::MAX,
    ensures
        distinct_keys(account_rows(final(accounts)@)),
        balances_of(final(accounts)@) == credited(
            debited(balances_of(old(accounts)@), from, asset, amount as nat),
            to,
            asset,
            amount as nat,
        ),
{
    proof {
        lemma_balance_fits(accounts@, from, asset);
    }
    debit(accounts, from, asset, amount);
    credit(accounts, to, asset, amount);
}

/// Where the escrow at `at` stands in the list, if it is live.
pub(crate) fn find_lot(lots: &Vec<Lot>, at: &VaultRef) -> (r: Option<usize>)
    requires
        distinct_keys(record_rows(lots@)),
    ensures
        match r {
            Some(i) => {
                &&& i < lots.len()
                &&& escrows_of(lots@).dom().contains(*at)
                &&& escrows_of(lots@)[*at] == lots[i as int].record
                &&& vaults_of(lots@)[*at] == lots[i as int].vault
            },
            None => !escrows_of(lots@).dom().contains(*at),
        },
{
    proof {
        lemma_to_map_dom(record_rows(lots@));
        lemma_vault_rows_distinct(lots@);
    }
    let mut i: usize = 0;
    while i < lots.len()
        invariant
            i <= lots.len(),
            distinct_keys(record_rows(lots@)),
            distinct_keys(vault_rows(lots@)),
            forall|j: int| 0 <= j < i ==> lots[j].record.address() != *at,
        decreases lots.len() - i,
    {
        if lots[i].record.vault_ref() == *at {
            proof {
                assert(record_rows(lots@)[i as int].0 == *at);
                lemma_to_map_row(record_rows(lots@), i as int);
                lemma_to_map_row(vault_rows(lots@), i as int);
            }
            return Some(i);
        }
        i += 1;
    }
    proof {
        let rows = record_rows(lots@);
        if has_key(rows, *at) {
            let j = choose|j: int| 0 <= j < rows.len() && (#[trigger] rows[j]).0 == *at;
            assert(lots[j].record.address() == *at);
        }
    }
    None
}

/// Puts a new escrow and its vault, funded with `amount`, on the list.
pub(crate) fn open_lot(lots: &mut Vec<Lot>, record: Escrow, amount: u64)
    requires
        distinct_keys(record_rows(old(lots)@)),
        !escrows_of(old(lots)@).dom().contains(record.address()),
    ensures
        final(lots)@ == old(lots)@.push(
            Lot {
                record,
                vault: Vault {
                    address: record.address(),
                    asset: record.offered_asset,
                    balance: amount,
                },
            },
        ),
        distinct_keys(record_rows(final(lots)@)),
        escrows_of(final(lots)@) == escrows_of(old(lots)@).insert(record.address(), record),
        vaults_of(final(lots)@) == vaults_of(old(lots)@).insert(
            record.address(),
            Vault { address: record.address(), asset: record.offered_asset, balance: amount },
        ),
{
    let at = record.vault_ref();
    let vault = Vault { address: at, asset: record.offered_asset, balance: amount };
    let lot = Lot { record, vault };
    proof {
        lemma_to_map_dom(record_rows(lots@));
        lemma_to_map_push(record_rows(lots@), at, record);
        lemma_to_map_push(vault_rows(lots@), at, vault);
        assert(record_rows(lots@.push(lot)) =~= record_rows(lots@).push((at, record)));
        assert(vault_rows(lots@.push(lot)) =~= vault_rows(lots@).push((at, vault)));
    }
    lots.push(lot);
}

/// Takes the escrow at place `i` and its vault off the list.
pub(crate) fn close_lot(lots: &mut Vec<Lot>, i: usize)
    requires
        distinct_keys(record_rows(old(lots)@)),
        i < old(lots).len(),
    ensures
        final(lots)@ == old(lots)@.remove(i as int),
        distinct_keys(record_rows(final(lots)@)),
        escrows_of(final(lots)@) == escrows_of(old(lots)@).remove(
            old(lots)[i as int].record.address(),
        ),
        vaults_of(final(lots)@) == vaults_of(old(lots)@).remove(
            old(lots)[i as int].record.address(),
        ),
{
    proof {
        lemma_vault_rows_distinct(lots@);
        lemma_to_map_remove(record_rows(lots@), i as int);
        lemma_to_map_remove(vault_rows(lots@), i as int);
        assert(record_rows(lots@.remove(i as int)) =~= record_rows(lots@).remove(i as int));
        assert(vault_rows(lots@.remove(i as int)) =~= vault_rows(lots@).remove(i as int));
    }
    lots.remove(i);
}

/// What the listed accounts hold of `asset`, added up in order.
spec fn held_sum(accounts: Seq<TokenAccount>, asset: Asset) -> nat
    decreases accounts.len(),
{
    if accounts.len() == 0 {
        0
    } else {
        held_sum(accounts.drop_last(), asset) + if accounts.last().mint == asset {
            accounts.last().amount as nat
        } else {
            0
        }
    }
}

/// What the listed vaults hold of `asset`, added up in order.
spec fn locked_sum(lots: Seq<Lot>, asset: Asset) -> nat
    decreases lots.len(),
{
    if lots.len() == 0 {
        0
    } else {
        locked_sum(lots.drop_last(), asset) + if lots.last().vault.asset == asset {
            lots.last().vault.balance as nat
        } else {
            0
        }
    }
}

/// Added up in order, the accounts give the total of the balances they stand for.
proof fn lemma_held_sum(accounts: Seq<TokenAccount>, asset: Asset)
    requires
        distinct_keys(account_rows(accounts)),
    ensures
        held_sum(accounts, asset) == total(held_in(balances_of(accounts), asset)),
    decreases accounts.len(),
{
    if accounts.len() == 0 {
        assert(held_in(balances_of(accounts), asset) =~= Map::empty());
    } else {
        let front = accounts.drop_last();
        let last = accounts.last();
        let k = (last.authority, last.mint);
        assert(account_rows(front) =~= account_rows(accounts).drop_last());
        lemma_held_sum(front, asset);
        lemma_to_map_dom(account_rows(front));
        assert(!has_key(account_rows(front), k)) by {
            if has_key(account_rows(front), k) {
                let j = choose|j: int|
                    0 <= j < front.len() && (#[trigger] account_rows(front)[j]).0 == k;
                assert(account_rows(accounts)[j].0 == account_rows(accounts)[accounts.len() - 1].0);
            }
        }
        let before = held_in(balances_of(front), asset);
        lemma_held_in_finite(balances_of(front), asset);
        if last.mint == asset {
            assert(held_in(balances_of(accounts), asset) =~= before.insert(k, last.amount as nat));
            lemma_total_insert(before, k, last.amount as nat);
            assert(before.remove(k) =~= before);
        } else {
            assert(held_in(balances_of(accounts), asset) =~= before);
        }
    }
}

/// Added up in order, the lots give the total of the vaults they stand for.
proof fn lemma_locked_sum(lots: Seq<Lot>, asset: Asset)
    requires
        distinct_keys(vault_rows(lots)),
    ensures
        locked_sum(lots, asset) == total(locked_in(vaults_of(lots), asset)),
    decreases lots.len(),
{
    if lots.len() == 0 {
        assert(locked_in(vaults_of(lots), asset) =~= Map::empty());
    } else {
        let front = lots.drop_last();
        let last = lots.last();
        let k = last.record.address();
        assert(vault_rows(front) =~= vault_rows(lots).drop_last());
        lemma_locked_sum(front, asset);
        lemma_to_map_dom(vault_rows(front));
        assert(!has_key(vault_rows(front), k)) by {
            if has_key(vault_rows(front), k) {
                let j = choose|j: int|
                    0 <= j < front.len() && (#[trigger] vault_rows(front)[j]).0 == k;
                assert(vault_rows(lots)[j].0 == vault_rows(lots)[lots.len() - 1].0);
            }
        }
        let before = locked_in(vaults_of(front), asset);
        lemma_locked_in_finite(vaults_of(front), asset);
        if last.vault.asset == asset {
            assert(locked_in(vaults_of(lots), asset) =~= before.insert(
                k,
                last.vault.balance as nat,
            ));
            lemma_total_insert(before, k, last.vault.balance as nat);
            assert(before.remove(k) =~= before);
        } else {
            assert(locked_in(vaults_of(lots), asset) =~= before);
        }
    }
}

/// The first `n` accounts hold no more than all of them.
proof fn lemma_held_sum_prefix(accounts: Seq<TokenAccount>, n: int, asset: Asset)
    requires
        0 <= n <= accounts.len(),
    ensures
        held_sum(accounts.take(n), asset) <= held_sum(accounts, asset),
    decreases accounts.len(),
{
    if n == accounts.len() {
        assert(accounts.take(n) =~= accounts);
    } else {
        lemma_held_sum_prefix(accounts.drop_last(), n, asset);
        assert(accounts.drop_last().take(n) =~= accounts.take(n));
    }
}

/// The first `n` vaults hold no more than all of them.
proof fn lemma_locked_sum_prefix(lots: Seq<Lot>, n: int, asset: Asset)
    requires
        0 <= n <= lots.len(),
    ensures
        locked_sum(lots.take(n), asset) <= locked_sum(lots, asset),
    decreases lots.len(),
{
    if n == lots.len() {
        assert(lots.take(n) =~= lots);
    } else {
        lemma_locked_sum_prefix(lots.drop_last(), n, asset);
        assert(lots.drop_last().take(n) =~= lots.take(n));
    }
}

/// Adds up what the accounts hold of `asset`.
fn held_total(accounts: &Vec<TokenAccount>, asset: &Asset) -> (r: u64)
    requires
        held_sum(accounts@, *asset) <= u64::MAX,
    ensures
        r == held_sum(accounts@, *asset),
{
    let mut sum: u64 = 0;
    let mut i: usize = 0;
    while i < accounts.len()
        invariant
            i <= accounts.len(),
            sum == held_sum(accounts@.take(i as int), *asset),
            held_sum(accounts@, *asset) <= u64::MAX,
        decreases accounts.len() - i,
    {
        proof {
            lemma_held_sum_prefix(accounts@, i + 1, *asset);
            assert(accounts@.take(i + 1).drop_last() =~= accounts@.take(i as int));
        }
        if accounts[i].mint == *asset {
            sum = sum + accounts[i].amount;
        }
        i += 1;
    }
    assert(accounts@.take(i as int) =~= accounts@);
    sum
}

/// Adds up what the vaults hold of `asset`.
fn locked_total(lots: &Vec<Lot>, asset: &Asset) -> (r: u64)
    requires
        locked_sum(lots@, *asset) <= u64::MAX,
    ensures
        r == locked_sum(lots@, *asset),
{
    let mut sum: u64 = 0;
    let mut i: usize = 0;
    while i < lots.len()
        invariant
            i <= lots.len(),
            sum == locked_sum(lots@.take(i as int), *asset),
            locked_sum(lots@, *asset) <= u64::MAX,
        decreases lots.len() - i,
    {
        proof {
            lemma_locked_sum_prefix(lots@, i + 1, *asset);
            assert(lots@.take(i + 1).drop_last() =~= lots@.take(i as int));
        }
        if lots[i].vault.asset == *asset {
            sum = sum + lots[i].vault.balance;
        }
        i += 1;
    }
    assert(lots@.take(i as int) =~= lots@);
    sum
}

/// All there is of `asset` on the two lists.
pub(crate) fn supply_in(accounts: &Vec<TokenAccount>, lots: &Vec<Lot>, asset: &Asset) -> (r: u64)
    requires
        sound(accounts@, lots@),
    ensures
        r == view_of(accounts@, lots@).supply(*asset),
{
    proof {
        lemma_vault_rows_distinct(lots@);
        lemma_held_sum(accounts@, *asset);
        lemma_locked_sum(lots@, *asset);
        assert(view_of(accounts@, lots@).supply(*asset) <= u64::MAX);
    }
    held_total(accounts, asset) + locked_total(lots, asset)
}

} // verus!
