//! Properties of the registry that hold across entrypoints and calls.

use vstd::prelude::*;

use crate::error::Error;
use crate::ledger::{
    batch_transfer_step, buy_step, initialize_step, list_step, mint_step, retire_step,
    set_admin_step, set_paused_step, step, transfer_step, unlist_step, Call, Ledger,
};
use crate::rules::{
    amount_sent_to, credit_all, items_total, lemma_credit_all_adds, lemma_items_total_ok,
};
use crate::store::balance_in;
use crate::types::{Batch, TransferItem};

verus! {

/// All balances of `m` are non-negative.
pub open spec fn nonnegative(m: Map<(Seq<char>, u64), i128>) -> bool {
    forall|k: (Seq<char>, u64)| #[trigger] m.contains_key(k) ==> m[k] >= 0
}

proof fn lemma_credit_all_nonnegative(
    m: Map<(Seq<char>, u64), i128>,
    batch_id: u64,
    items: Seq<TransferItem>,
)
    requires
        nonnegative(m),
        forall|i: int| 0 <= i < items.len() ==> (#[trigger] items[i]).amount > 0,
        credit_all(m, batch_id, items) is Some,
    ensures
        nonnegative(credit_all(m, batch_id, items)->Some_0),
    decreases items.len(),
{
    if items.len() > 0 {
        let t = items.drop_last();
        assert forall|i: int| 0 <= i < t.len() implies (#[trigger] t[i]).amount > 0 by {
            assert(t[i] == items[i]);
        }
        lemma_credit_all_nonnegative(m, batch_id, t);
        assert(items.last() == items[items.len() - 1]);
    }
}

/// Every successful call keeps the registry's invariant: batch and
/// certificate ids stay dense and equal to their positions, every batch has
/// a retired total, and no balance or retired total is ever negative.
pub proof fn law_calls_preserve_invariant(l: Ledger, c: Call)
    requires
        l.wf(),
        step(l, c) is Ok,
    ensures
        step(l, c)->Ok_0.wf(),
{
    match c {
        Call::BatchTransfer { from, batch_id, recipients } => {
            lemma_items_total_ok(from@, recipients);
            let total = items_total(from@, recipients)->Ok_0;
            let start = l.balances.insert((from@, batch_id), (l.balance(from@, batch_id) - total) as i128);
            assert(nonnegative(start));
            lemma_credit_all_nonnegative(start, batch_id, recipients);
        },
        Call::MintBatch { issuer, project_id, vintage, amount, price } => {
            let l2 = mint_step(l, issuer, project_id, vintage, amount, price)->Ok_0;
            assert(l2.wf());
        },
        Call::Retire { holder, batch_id, amount, beneficiary } => {
            let l2 = retire_step(l, holder, batch_id, amount, beneficiary)->Ok_0;
            assert(l2.wf());
        },
        Call::Buy { buyer, batch_id, amount } => {
            let l2 = buy_step(l, buyer, batch_id, amount)->Ok_0;
            assert(l2.wf());
        },
        Call::Transfer { from, to, batch_id, amount } => {
            let l2 = transfer_step(l, from, to, batch_id, amount)->Ok_0;
            assert(l2.wf());
        },
        Call::List { batch_id, price } => {
            let l2 = list_step(l, batch_id, price)->Ok_0;
            assert(l2.wf());
        },
        Call::Unlist { batch_id } => {
            let l2 = unlist_step(l, batch_id)->Ok_0;
            assert(l2.wf());
        },
        _ => {},
    }
}

/// Only minting changes the cumulative minted total, and it only grows (by
/// the minted amount); in particular retiring never reduces it.
pub proof fn law_total_minted_never_decreases(l: Ledger, c: Call)
    requires
        step(l, c) is Ok,
    ensures
        step(l, c)->Ok_0.total_minted >= l.total_minted,
        match c {
            Call::MintBatch { amount, .. } => step(l, c)->Ok_0.total_minted == l.total_minted
                + amount,
            _ => step(l, c)->Ok_0.total_minted == l.total_minted,
        },
{
}

/// Only retiring changes the circulating supply of an existing batch:
/// minting, listing, buying and transferring leave it as it was.
pub proof fn law_only_retiring_changes_circulating_supply(l: Ledger, c: Call, batch_id: u64)
    requires
        l.wf(),
        step(l, c) is Ok,
        !(c is Retire),
        l.has_batch(batch_id),
    ensures
        step(l, c)->Ok_0.circulating(batch_id) == l.circulating(batch_id),
{
    let i = batch_id - 1;
    match c {
        Call::MintBatch { issuer, project_id, vintage, amount, price } => {
            let l2 = mint_step(l, issuer, project_id, vintage, amount, price)->Ok_0;
            assert(l2.batches[i] == l.batches[i]);
            assert(l2.retired[i] == l.retired[i]);
        },
        Call::List { batch_id: b, price } => {
            let l2 = list_step(l, b, price)->Ok_0;
            assert(l2.batches[i].supply == l.batches[i].supply);
        },
        Call::Unlist { batch_id: b } => {
            let l2 = unlist_step(l, b)->Ok_0;
            assert(l2.batches[i].supply == l.batches[i].supply);
        },
        _ => {},
    }
}

/// Retiring `amount` credits burns them from the holder, adds exactly
/// `amount` to the batch's retired total (so the circulating supply drops by
/// `amount`), and issues the next certificate recording the retirement.
pub proof fn law_retire_burns_exactly(
    l: Ledger,
    holder: String,
    batch_id: u64,
    amount: i128,
    beneficiary: String,
)
    requires
        l.wf(),
        retire_step(l, holder, batch_id, amount, beneficiary) is Ok,
    ensures
        ({
            let l2 = retire_step(l, holder, batch_id, amount, beneficiary)->Ok_0;
            &&& l2.balance(holder@, batch_id) == l.balance(holder@, batch_id) - amount
            &&& l2.retired_of(batch_id) == l.retired_of(batch_id) + amount
            &&& l2.batch(batch_id).supply - l2.retired_of(batch_id) == l.batch(batch_id).supply
                - l.retired_of(batch_id) - amount
            &&& l2.total_minted == l.total_minted
            &&& l2.certificates.len() == l.certificates.len() + 1
            &&& l2.has_certificate((l.certificates.len() + 1) as u64)
            &&& l2.certificates[l.certificates.len() as int].batch_id == batch_id
            &&& l2.certificates[l.certificates.len() as int].holder == holder
            &&& l2.certificates[l.certificates.len() as int].amount == amount
            &&& l2.certificates[l.certificates.len() as int].beneficiary == beneficiary
        }),
{
}

/// `initialize` succeeds at most once: after it, every later call of it is
/// refused with `AlreadyInitialized`, and no call ever un-initializes the
/// registry.
pub proof fn law_initialize_once(l: Ledger, admin: String, c: Call, other: String)
    requires
        initialize_step(l, admin) is Ok,
    ensures
        initialize_step(l, admin)->Ok_0.admin == Some(admin),
        initialize_step(initialize_step(l, admin)->Ok_0, other) == Err::<Ledger, Error>(
            Error::AlreadyInitialized,
        ),
        l.admin is Some && step(l, c) is Ok ==> step(l, c)->Ok_0.admin is Some,
{
}

/// The admin reads back as set: `set_admin(new)` makes `new` the admin,
/// and `set_paused(p)` makes the pause flag read `p`.
pub proof fn law_admin_and_pause_read_back(l: Ledger, new_admin: String, paused: bool)
    ensures
        set_admin_step(l, new_admin) is Ok ==> set_admin_step(l, new_admin)->Ok_0.admin == Some(
            new_admin,
        ),
        set_paused_step(l, paused) is Ok ==> set_paused_step(l, paused)->Ok_0.paused == paused,
        set_admin_step(l, new_admin) is Ok <==> l.admin is Some,
        set_paused_step(l, paused) is Ok <==> l.admin is Some,
{
}

/// A mint creates batch `batch_count + 1` exactly as requested, listed, with
/// nothing retired, and its whole supply held by the issuer.
pub proof fn law_mint_reads_back(
    l: Ledger,
    issuer: String,
    project_id: String,
    vintage: u32,
    amount: i128,
    price: i128,
)
    requires
        l.wf(),
        mint_step(l, issuer, project_id, vintage, amount, price) is Ok,
    ensures
        ({
            let l2 = mint_step(l, issuer, project_id, vintage, amount, price)->Ok_0;
            let id = (l.batches.len() + 1) as u64;
            &&& l2.batches.len() == l.batches.len() + 1
            &&& l2.has_batch(id)
            &&& l2.batch(id) == Batch {
                id,
                issuer,
                project_id,
                vintage,
                supply: amount,
                price,
                listed: true,
            }
            &&& l2.balance(issuer@, id) == amount
            &&& l2.retired_of(id) == 0
            &&& l2.circulating(id) == Ok::<i128, Error>(amount)
            &&& l2.total_minted == l.total_minted + amount
        }),
{
    let l2 = mint_step(l, issuer, project_id, vintage, amount, price)->Ok_0;
    let id = (l.batches.len() + 1) as u64;
    assert(id - 1 == l.batches.len());
    assert(l2.batches[id - 1] == l2.batches.last());
    assert(l2.retired[id - 1] == 0);
    assert(l2.balance(issuer@, id) == amount);
    assert(l2.circulating(id) == Ok::<i128, Error>(amount));
}

/// Minting is refused while paused; every other call behaves the same
/// whether or not minting is paused (pausing blocks minting only).
pub proof fn law_pause_blocks_only_minting(l: Ledger, c: Call, paused: bool)
    ensures
        l.admin is Some && l.paused ==> (match c {
            Call::MintBatch { .. } => step(l, c) == Err::<Ledger, Error>(Error::Paused),
            _ => true,
        }),
        !(c is MintBatch) && !(c is SetPaused) ==> ({
            let lp = Ledger { paused, ..l };
            match (step(lp, c), step(l, c)) {
                (Ok(a), Ok(b)) => a == Ledger { paused, ..b },
                (Err(e1), Err(e2)) => e1 == e2,
                _ => false,
            }
        }),
{
    let lp = Ledger { paused, ..l };
    if !(c is MintBatch) && !(c is SetPaused) {
        match (step(lp, c), step(l, c)) {
            (Ok(a), Ok(b)) => {
                assert(a =~= Ledger { paused, ..b });
            },
            _ => {},
        }
    }
}

/// Listing reprices and lists a batch; unlisting only clears the listed flag
/// and keeps the price.
pub proof fn law_list_and_unlist_read_back(l: Ledger, batch_id: u64, price: i128)
    requires
        l.wf(),
    ensures
        list_step(l, batch_id, price) is Ok ==> ({
            let b = list_step(l, batch_id, price)->Ok_0.batch(batch_id);
            &&& b.price == price
            &&& b.listed
            &&& b.supply == l.batch(batch_id).supply
            &&& b.issuer == l.batch(batch_id).issuer
        }),
        unlist_step(l, batch_id) is Ok ==> ({
            let b = unlist_step(l, batch_id)->Ok_0.batch(batch_id);
            &&& b.price == l.batch(batch_id).price
            &&& !b.listed
            &&& b.supply == l.batch(batch_id).supply
        }),
{
}

/// A direct transfer moves exactly `amount` credits from `from` to `to`
/// and leaves every other balance as it was; a transfer to oneself is
/// refused.
pub proof fn law_transfer_conserves_credits(
    l: Ledger,
    from: String,
    to: String,
    batch_id: u64,
    amount: i128,
    owner: Seq<char>,
    other_batch: u64,
)
    ensures
        amount > 0 && from@ == to@ ==> transfer_step(l, from, to, batch_id, amount) == Err::<
            Ledger,
            Error,
        >(Error::SameAccount),
        transfer_step(l, from, to, batch_id, amount) is Ok ==> ({
            let l2 = transfer_step(l, from, to, batch_id, amount)->Ok_0;
            &&& l2.balance(from@, batch_id) == l.balance(from@, batch_id) - amount
            &&& l2.balance(to@, batch_id) == l.balance(to@, batch_id) + amount
            &&& (owner, other_batch) != (from@, batch_id) && (owner, other_batch) != (to@, batch_id)
                ==> l2.balance(owner, other_batch) == l.balance(owner, other_batch)
        }),
{
}

/// Buying moves exactly `amount` credits from the seller (the issuer) to the
/// buyer and leaves every other balance as it was; an issuer buying from
/// itself keeps every balance as it was.
pub proof fn law_buy_conserves_credits(
    l: Ledger,
    buyer: String,
    batch_id: u64,
    amount: i128,
    owner: Seq<char>,
    other_batch: u64,
)
    requires
        buy_step(l, buyer, batch_id, amount) is Ok,
    ensures
        ({
            let l2 = buy_step(l, buyer, batch_id, amount)->Ok_0;
            let seller = l.batch(batch_id).issuer@;
            &&& buyer@ == seller ==> l2.balances == l.balances
            &&& buyer@ != seller ==> l2.balance(seller, batch_id) == l.balance(seller, batch_id)
                - amount
            &&& buyer@ != seller ==> l2.balance(buyer@, batch_id) == l.balance(buyer@, batch_id)
                + amount
            &&& (owner, other_batch) != (seller, batch_id) && (owner, other_batch) != (
                buyer@,
                batch_id,
            ) ==> l2.balance(owner, other_batch) == l.balance(owner, other_batch)
        }),
{
}

/// The account whose authorization a successful state-changing call
/// requires (initialization requires none).
pub open spec fn authorizer(l: Ledger, c: Call) -> String {
    match c {
        Call::Initialize { admin } => admin,
        Call::SetAdmin { .. } => l.admin->Some_0,
        Call::SetPaused { .. } => l.admin->Some_0,
        Call::MintBatch { issuer, .. } => issuer,
        Call::List { batch_id, .. } => l.batch(batch_id).issuer,
        Call::Unlist { batch_id } => l.batch(batch_id).issuer,
        Call::Buy { buyer, .. } => buyer,
        Call::Transfer { from, .. } => from,
        Call::BatchTransfer { from, .. } => from,
        Call::Retire { holder, .. } => holder,
    }
}

/// Every successful state-changing call other than `initialize` required
/// the authorization of the right account (the admin for admin rotation and
/// pausing, the issuer for minting and listing, the buyer, the sender, the
/// holder) and published exactly one event; `initialize` requires no
/// authorization and publishes nothing.
pub proof fn law_successful_calls_are_authorized(l: Ledger, c: Call)
    requires
        step(l, c) is Ok,
    ensures
        c is Initialize ==> step(l, c)->Ok_0.auths == l.auths && step(l, c)->Ok_0.events
            == l.events,
        !(c is Initialize) ==> step(l, c)->Ok_0.auths == l.auths.push(authorizer(l, c))
            && step(l, c)->Ok_0.events.len() == l.events.len() + 1
            && step(l, c)->Ok_0.events.drop_last() == l.events,
{
    let l2 = step(l, c)->Ok_0;
    if !(c is Initialize) {
        assert(l2.events.drop_last() =~= l.events);
    }
}

/// The combined amount of a list of transfer items.
pub open spec fn sum_amounts(items: Seq<TransferItem>) -> int
    decreases items.len(),
{
    if items.len() == 0 {
        0
    } else {
        sum_amounts(items.drop_last()) + items.last().amount
    }
}

pub proof fn lemma_items_total_is_sum(from: Seq<char>, items: Seq<TransferItem>)
    requires
        items_total(from, items) is Ok,
    ensures
        items_total(from, items)->Ok_0 == sum_amounts(items),
    decreases items.len(),
{
    if items.len() > 0 {
        lemma_items_total_is_sum(from, items.drop_last());
    }
}

/// A batch transfer debits exactly the sum of the items' amounts from the
/// sender, credits every other account exactly the sum of the amounts sent
/// to it, and leaves the balances of other batches as they were.
pub proof fn law_batch_transfer_conserves_credits(
    l: Ledger,
    from: String,
    batch_id: u64,
    recipients: Seq<TransferItem>,
    owner: Seq<char>,
    other_batch: u64,
)
    requires
        batch_transfer_step(l, from, batch_id, recipients) is Ok,
    ensures
        ({
            let l2 = batch_transfer_step(l, from, batch_id, recipients)->Ok_0;
            &&& l2.balance(from@, batch_id) == l.balance(from@, batch_id) - sum_amounts(recipients)
            &&& owner != from@ ==> l2.balance(owner, batch_id) == l.balance(owner, batch_id)
                + amount_sent_to(recipients, owner)
            &&& other_batch != batch_id ==> l2.balance(owner, other_batch) == l.balance(
                owner,
                other_batch,
            )
        }),
{
    lemma_items_total_ok(from@, recipients);
    lemma_items_total_is_sum(from@, recipients);
    let total = items_total(from@, recipients)->Ok_0;
    let start = l.balances.insert((from@, batch_id), (l.balance(from@, batch_id) - total) as i128);
    lemma_credit_all_adds(start, batch_id, recipients, owner, other_batch);
    lemma_credit_all_adds(start, batch_id, recipients, from@, other_batch);
    lemma_nothing_sent_to_sender(from@, recipients);
}

proof fn lemma_nothing_sent_to_sender(from: Seq<char>, items: Seq<TransferItem>)
    requires
        forall|i: int| 0 <= i < items.len() ==> (#[trigger] items[i]).to@ != from,
    ensures
        amount_sent_to(items, from) == 0,
    decreases items.len(),
{
    if items.len() > 0 {
        let t = items.drop_last();
        assert forall|i: int| 0 <= i < t.len() implies (#[trigger] t[i]).to@ != from by {
            assert(t[i] == items[i]);
        }
        lemma_nothing_sent_to_sender(from, t);
        assert(items.last() == items[items.len() - 1]);
    }
}

} // verus!
