//! When each entrypoint succeeds, stated on the registry's state and the
//! call's arguments alone: every call that meets its entrypoint's documented
//! conditions goes through, whatever else holds of the registry (whether
//! the batch is listed, whether minting is paused, ...).

use vstd::prelude::*;

use crate::error::Error;
use crate::ledger::{
    batch_transfer_step, buy_step, initialize_step, list_step, mint_step, retire_step,
    transfer_step, unlist_step, Ledger,
};
use crate::laws::{lemma_items_total_is_sum, sum_amounts};
use crate::rules::{amount_sent_to, credit_all, items_total, lemma_credit_all_adds};
use crate::store::balance_in;
use crate::types::{TransferItem, MAX_RECIPIENTS};

verus! {

/// `initialize` succeeds exactly on a registry that has no admin yet.
pub proof fn law_initialize_accepts(l: Ledger, admin: String)
    ensures
        initialize_step(l, admin) is Ok <==> l.admin is None,
{
}

/// `mint_batch` succeeds exactly when the registry is initialized and not
/// paused, the amount is positive, the price is not negative (a free batch
/// is allowed), and neither the new batch id nor the minted total overflows.
pub proof fn law_mint_accepts(
    l: Ledger,
    issuer: String,
    project_id: String,
    vintage: u32,
    amount: i128,
    price: i128,
)
    ensures
        mint_step(l, issuer, project_id, vintage, amount, price) is Ok <==> (l.admin is Some
            && !l.paused && amount > 0 && price >= 0 && l.batches.len() + 1 <= u64::MAX
            && l.total_minted + amount <= i128::MAX),
{
}

/// `list` succeeds exactly for an existing batch and a price that is not
/// negative (a price of zero is allowed), whether or not the batch is
/// listed already.
pub proof fn law_list_accepts(l: Ledger, batch_id: u64, price: i128)
    ensures
        list_step(l, batch_id, price) is Ok <==> (l.has_batch(batch_id) && price >= 0),
{
}

/// `unlist` succeeds exactly for an existing batch, also one that is not
/// listed (unlisting twice is allowed).
pub proof fn law_unlist_accepts(l: Ledger, batch_id: u64)
    ensures
        unlist_step(l, batch_id) is Ok <==> l.has_batch(batch_id),
{
}

/// `buy` succeeds exactly when the amount is positive, the batch exists and
/// is listed, the issuer holds at least the amount (possibly exactly it),
/// and the buyer's new balance fits; an issuer buying from itself needs only
/// to hold the amount.
pub proof fn law_buy_accepts(l: Ledger, buyer: String, batch_id: u64, amount: i128)
    ensures
        buy_step(l, buyer, batch_id, amount) is Ok <==> (amount > 0 && l.has_batch(batch_id)
            && l.batch(batch_id).listed && l.balance(l.batch(batch_id).issuer@, batch_id)
            >= amount && (buyer@ != l.batch(batch_id).issuer@ ==> l.balance(buyer@, batch_id)
            + amount <= i128::MAX)),
{
}

/// `transfer` succeeds exactly when the amount is positive, the accounts
/// differ, the batch exists (listed or not), the sender holds at least the
/// amount (possibly exactly it), and the receiver's new balance fits.
pub proof fn law_transfer_accepts(l: Ledger, from: String, to: String, batch_id: u64, amount: i128)
    ensures
        transfer_step(l, from, to, batch_id, amount) is Ok <==> (amount > 0 && from@ != to@
            && l.has_batch(batch_id) && l.balance(from@, batch_id) >= amount && l.balance(
            to@,
            batch_id,
        ) + amount <= i128::MAX),
{
}

/// `retire` and `retire_for` succeed exactly when the amount is positive,
/// the batch exists, the holder holds at least the amount (possibly exactly
/// it), and neither the retired total nor the certificate count overflows.
/// The listing is never consulted: a delisted batch can be retired.
pub proof fn law_retire_accepts(
    l: Ledger,
    holder: String,
    batch_id: u64,
    amount: i128,
    beneficiary: String,
)
    ensures
        retire_step(l, holder, batch_id, amount, beneficiary) is Ok <==> (amount > 0
            && l.has_batch(batch_id) && l.balance(holder@, batch_id) >= amount && l.retired_of(
            batch_id,
        ) + amount <= i128::MAX && l.certificates.len() + 1 <= u64::MAX),
{
}

proof fn lemma_sum_amounts_grows(items: Seq<TransferItem>)
    requires
        forall|i: int| 0 <= i < items.len() ==> (#[trigger] items[i]).amount > 0,
    ensures
        sum_amounts(items) >= 0,
        items.len() > 0 ==> sum_amounts(items.drop_last()) < sum_amounts(items),
    decreases items.len(),
{
    if items.len() > 0 {
        let t = items.drop_last();
        assert forall|i: int| 0 <= i < t.len() implies (#[trigger] t[i]).amount > 0 by {
            assert(t[i] == items[i]);
        }
        lemma_sum_amounts_grows(t);
        assert(items.last() == items[items.len() - 1]);
    }
}

/// Valid items whose sum fits in `i128` total to that sum.
proof fn lemma_items_total_of_valid(from: Seq<char>, items: Seq<TransferItem>)
    requires
        forall|i: int| 0 <= i < items.len() ==> (#[trigger] items[i]).amount > 0,
        forall|i: int| 0 <= i < items.len() ==> (#[trigger] items[i]).to@ != from,
        sum_amounts(items) <= i128::MAX,
    ensures
        items_total(from, items) is Ok,
    decreases items.len(),
{
    if items.len() > 0 {
        let t = items.drop_last();
        assert forall|i: int| 0 <= i < t.len() implies (#[trigger] t[i]).amount > 0 && t[i].to@
            != from by {
            assert(t[i] == items[i]);
        }
        lemma_sum_amounts_grows(items);
        lemma_sum_amounts_grows(t);
        lemma_items_total_of_valid(from, t);
        lemma_items_total_is_sum(from, t);
        assert(items.last() == items[items.len() - 1]);
    }
}

proof fn lemma_sent_grows(items: Seq<TransferItem>, owner: Seq<char>)
    requires
        forall|i: int| 0 <= i < items.len() ==> (#[trigger] items[i]).amount > 0,
    ensures
        amount_sent_to(items, owner) >= 0,
        items.len() > 0 ==> amount_sent_to(items.drop_last(), owner) <= amount_sent_to(
            items,
            owner,
        ),
    decreases items.len(),
{
    if items.len() > 0 {
        let t = items.drop_last();
        assert forall|i: int| 0 <= i < t.len() implies (#[trigger] t[i]).amount > 0 by {
            assert(t[i] == items[i]);
        }
        lemma_sent_grows(t, owner);
        assert(items.last() == items[items.len() - 1]);
    }
}

/// Crediting positive amounts succeeds when every recipient's final
/// balance fits.
proof fn lemma_credit_all_fits(m: Map<(Seq<char>, u64), i128>, batch_id: u64, items: Seq<TransferItem>)
    requires
        forall|i: int| 0 <= i < items.len() ==> (#[trigger] items[i]).amount > 0,
        forall|i: int|
            0 <= i < items.len() ==> balance_in(m, (#[trigger] items[i]).to@, batch_id)
                + amount_sent_to(items, items[i].to@) <= i128::MAX,
    ensures
        credit_all(m, batch_id, items) is Some,
    decreases items.len(),
{
    if items.len() > 0 {
        let t = items.drop_last();
        assert forall|i: int| 0 <= i < t.len() implies (#[trigger] t[i]).amount > 0 by {
            assert(t[i] == items[i]);
        }
        assert forall|i: int| 0 <= i < t.len() implies balance_in(m, (#[trigger] t[i]).to@, batch_id)
            + amount_sent_to(t, t[i].to@) <= i128::MAX by {
            assert(t[i] == items[i]);
            lemma_sent_grows(items, items[i].to@);
        }
        lemma_credit_all_fits(m, batch_id, t);
        let n = items.len() - 1;
        let o = items[n].to@;
        assert(items.last() == items[n]);
        lemma_credit_all_adds(m, batch_id, t, o, batch_id);
        lemma_sent_grows(t, o);
        assert(balance_in(m, items[n].to@, batch_id) + amount_sent_to(items, items[n].to@)
            <= i128::MAX);
    }
}

/// `batch_transfer` succeeds whenever there are between one and
/// `MAX_RECIPIENTS` items, the batch exists (listed or not), every item
/// sends a positive amount to an account other than the sender, the sender
/// holds at least the sum of the amounts (possibly exactly it), and every
/// recipient's final balance fits.
pub proof fn law_batch_transfer_accepts(
    l: Ledger,
    from: String,
    batch_id: u64,
    recipients: Seq<TransferItem>,
)
    requires
        1 <= recipients.len() <= MAX_RECIPIENTS,
        l.has_batch(batch_id),
        forall|i: int| 0 <= i < recipients.len() ==> (#[trigger] recipients[i]).amount > 0,
        forall|i: int| 0 <= i < recipients.len() ==> (#[trigger] recipients[i]).to@ != from@,
        sum_amounts(recipients) <= l.balance(from@, batch_id),
        forall|i: int|
            0 <= i < recipients.len() ==> l.balance((#[trigger] recipients[i]).to@, batch_id)
                + amount_sent_to(recipients, recipients[i].to@) <= i128::MAX,
    ensures
        batch_transfer_step(l, from, batch_id, recipients) is Ok,
{
    lemma_sum_amounts_grows(recipients);
    lemma_items_total_of_valid(from@, recipients);
    lemma_items_total_is_sum(from@, recipients);
    let total = items_total(from@, recipients)->Ok_0;
    let start = l.balances.insert((from@, batch_id), (l.balance(from@, batch_id) - total) as i128);
    assert forall|i: int| 0 <= i < recipients.len() implies balance_in(
        start,
        (#[trigger] recipients[i]).to@,
        batch_id,
    ) + amount_sent_to(recipients, recipients[i].to@) <= i128::MAX by {
        assert(recipients[i].to@ != from@);
    }
    lemma_credit_all_fits(start, batch_id, recipients);
}

/// Which error each refused call gets, in the order the entrypoints check:
/// a refused `mint_batch`, `list`, `unlist`, `buy`, `transfer` or retirement
/// reports the first unmet condition of its entrypoint.
pub proof fn law_refusals(
    l: Ledger,
    caller: String,
    other: String,
    project_id: String,
    vintage: u32,
    batch_id: u64,
    amount: i128,
    price: i128,
)
    ensures
        ({
            let r = mint_step(l, caller, project_id, vintage, amount, price);
            &&& l.admin is None ==> r == Err::<Ledger, Error>(Error::NotInitialized)
            &&& l.admin is Some && l.paused ==> r == Err::<Ledger, Error>(Error::Paused)
            &&& l.admin is Some && !l.paused && (amount <= 0 || price < 0) ==> r == Err::<
                Ledger,
                Error,
            >(Error::InvalidAmount)
            &&& l.admin is Some && !l.paused && amount > 0 && price >= 0 && (l.batches.len() + 1
                > u64::MAX || l.total_minted + amount > i128::MAX) ==> r == Err::<Ledger, Error>(
                Error::Overflow,
            )
        }),
        !l.has_batch(batch_id) ==> list_step(l, batch_id, price) == Err::<Ledger, Error>(
            Error::BatchNotFound,
        ) && unlist_step(l, batch_id) == Err::<Ledger, Error>(Error::BatchNotFound),
        l.has_batch(batch_id) && price < 0 ==> list_step(l, batch_id, price) == Err::<
            Ledger,
            Error,
        >(Error::InvalidAmount),
        ({
            let r = buy_step(l, caller, batch_id, amount);
            let seller = l.batch(batch_id).issuer@;
            &&& amount <= 0 ==> r == Err::<Ledger, Error>(Error::InvalidAmount)
            &&& amount > 0 && !l.has_batch(batch_id) ==> r == Err::<Ledger, Error>(
                Error::BatchNotFound,
            )
            &&& amount > 0 && l.has_batch(batch_id) && !l.batch(batch_id).listed ==> r == Err::<
                Ledger,
                Error,
            >(Error::NotListed)
            &&& amount > 0 && l.has_batch(batch_id) && l.batch(batch_id).listed && l.balance(
                seller,
                batch_id,
            ) < amount ==> r == Err::<Ledger, Error>(Error::InsufficientBalance)
            &&& amount > 0 && l.has_batch(batch_id) && l.batch(batch_id).listed && l.balance(
                seller,
                batch_id,
            ) >= amount && caller@ != seller && l.balance(caller@, batch_id) + amount
                > i128::MAX ==> r == Err::<Ledger, Error>(Error::Overflow)
        }),
        ({
            let r = transfer_step(l, caller, other, batch_id, amount);
            &&& amount <= 0 ==> r == Err::<Ledger, Error>(Error::InvalidAmount)
            &&& amount > 0 && caller@ == other@ ==> r == Err::<Ledger, Error>(Error::SameAccount)
            &&& amount > 0 && caller@ != other@ && !l.has_batch(batch_id) ==> r == Err::<
                Ledger,
                Error,
            >(Error::BatchNotFound)
            &&& amount > 0 && caller@ != other@ && l.has_batch(batch_id) && l.balance(
                caller@,
                batch_id,
            ) < amount ==> r == Err::<Ledger, Error>(Error::InsufficientBalance)
            &&& amount > 0 && caller@ != other@ && l.has_batch(batch_id) && l.balance(
                caller@,
                batch_id,
            ) >= amount && l.balance(other@, batch_id) + amount > i128::MAX ==> r == Err::<
                Ledger,
                Error,
            >(Error::Overflow)
        }),
        ({
            let r = retire_step(l, caller, batch_id, amount, other);
            &&& amount <= 0 ==> r == Err::<Ledger, Error>(Error::InvalidAmount)
            &&& amount > 0 && !l.has_batch(batch_id) ==> r == Err::<Ledger, Error>(
                Error::BatchNotFound,
            )
            &&& amount > 0 && l.has_batch(batch_id) && l.balance(caller@, batch_id) < amount ==> r
                == Err::<Ledger, Error>(Error::InsufficientBalance)
            &&& amount > 0 && l.has_batch(batch_id) && l.balance(caller@, batch_id) >= amount && (
            l.retired_of(batch_id) + amount > i128::MAX || l.certificates.len() + 1 > u64::MAX)
                ==> r == Err::<Ledger, Error>(Error::Overflow)
        }),
{
}

/// A refused `batch_transfer`: no or too many recipients comes first, then
/// an unknown batch; valid items whose sum the sender does not hold are
/// refused with `InsufficientBalance`.
pub proof fn law_batch_transfer_refusals(
    l: Ledger,
    from: String,
    batch_id: u64,
    recipients: Seq<TransferItem>,
)
    ensures
        recipients.len() == 0 || recipients.len() > MAX_RECIPIENTS ==> batch_transfer_step(
            l,
            from,
            batch_id,
            recipients,
        ) == Err::<Ledger, Error>(Error::TooManyRecipients),
        1 <= recipients.len() <= MAX_RECIPIENTS && !l.has_batch(batch_id) ==> batch_transfer_step(
            l,
            from,
            batch_id,
            recipients,
        ) == Err::<Ledger, Error>(Error::BatchNotFound),
        (1 <= recipients.len() <= MAX_RECIPIENTS && l.has_batch(batch_id) && (forall|i: int|
            0 <= i < recipients.len() ==> (#[trigger] recipients[i]).amount > 0 && recipients[i].to@
                != from@) && sum_amounts(recipients) <= i128::MAX && l.balance(from@, batch_id)
            < sum_amounts(recipients)) ==> batch_transfer_step(l, from, batch_id, recipients)
            == Err::<Ledger, Error>(Error::InsufficientBalance),
{
    if 1 <= recipients.len() <= MAX_RECIPIENTS && l.has_batch(batch_id) && (forall|i: int|
        0 <= i < recipients.len() ==> (#[trigger] recipients[i]).amount > 0 && recipients[i].to@
            != from@) && sum_amounts(recipients) <= i128::MAX {
        lemma_items_total_of_valid(from@, recipients);
        lemma_items_total_is_sum(from@, recipients);
    }
}

} // verus!
