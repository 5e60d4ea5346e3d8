//! One decision per state-changing entrypoint, taken on everything the
//! entrypoint reads: it either refuses the call with the error that comes
//! first, or returns every value the call writes. The registry applies these
//! decisions to its state, so a host that reads storage, calls the decision
//! and writes its values behaves as the registry does.

use vstd::prelude::*;

use crate::error::Error;
use crate::math::{checked_add, checked_add_u64, fit_i128, fit_u64};
use crate::rules::{
    check_minting_open, check_recipient_count, credit_plan, debit, debit_outcome, items_total,
    plan_credits, plan_move, plan_purchase, plan_retirement, purchase_plan, move_plan,
    recipients_total, require_batch, require_distinct, retirement_plan, validate_amount,
    validate_mint_terms, validate_price,
};
use crate::types::{TransferItem, MAX_RECIPIENTS};

verus! {

/// `mint_batch`: refused before initialization, while paused, for a
/// non-positive amount or a negative price, or when the new batch id or the
/// minted total overflows; else the new batch id and minted total.
pub open spec fn mint_decision(
    initialized: bool,
    paused: bool,
    batch_count: int,
    total_minted: i128,
    amount: i128,
    price: i128,
) -> Result<(u64, i128), Error> {
    if !initialized {
        Err(Error::NotInitialized)
    } else if paused {
        Err(Error::Paused)
    } else if amount <= 0 || price < 0 {
        Err(Error::InvalidAmount)
    } else {
        match fit_u64(batch_count + 1) {
            Err(e) => Err(e),
            Ok(id) => match fit_i128(total_minted + amount) {
                Err(e) => Err(e),
                Ok(total) => Ok((id, total)),
            },
        }
    }
}

/// Decides a `mint_batch` call.
pub fn decide_mint(
    initialized: bool,
    paused: bool,
    batch_count: u64,
    total_minted: i128,
    amount: i128,
    price: i128,
) -> (r: Result<(u64, i128), Error>)
    ensures
        r == mint_decision(initialized, paused, batch_count as int, total_minted, amount, price),
{
    check_minting_open(initialized, paused)?;
    validate_mint_terms(amount, price)?;
    let id = checked_add_u64(batch_count, 1)?;
    let total = checked_add(total_minted, amount)?;
    Ok((id, total))
}

/// `list`: refused for an unknown batch, then for a negative price.
pub open spec fn list_decision(found: bool, price: i128) -> Result<(), Error> {
    if !found {
        Err(Error::BatchNotFound)
    } else if price < 0 {
        Err(Error::InvalidAmount)
    } else {
        Ok(())
    }
}

/// Decides a `list` call.
pub fn decide_list(found: bool, price: i128) -> (r: Result<(), Error>)
    ensures
        r == list_decision(found, price),
{
    require_batch(found)?;
    validate_price(price)
}

/// `buy`: refused for a non-positive amount, an unknown batch (`listed` is
/// `None`), an unlisted batch, or when the purchase cannot be made; else the
/// new balances of seller and buyer.
pub open spec fn purchase_decision(
    amount: i128,
    listed: Option<bool>,
    buyer_is_seller: bool,
    seller_balance: i128,
    buyer_balance: i128,
) -> Result<(i128, i128), Error> {
    if amount <= 0 {
        Err(Error::InvalidAmount)
    } else {
        match listed {
            None => Err(Error::BatchNotFound),
            Some(false) => Err(Error::NotListed),
            Some(true) => purchase_plan(seller_balance, buyer_balance, amount, buyer_is_seller),
        }
    }
}

/// Decides a `buy` call; `listed` is whether the batch is listed, or `None`
/// when there is no such batch (the seller and its balance are then not
/// looked at).
pub fn decide_purchase(
    amount: i128,
    listed: Option<bool>,
    seller: &String,
    buyer: &String,
    seller_balance: i128,
    buyer_balance: i128,
) -> (r: Result<(i128, i128), Error>)
    ensures
        r == purchase_decision(amount, listed, buyer@ == seller@, seller_balance, buyer_balance),
{
    validate_amount(amount)?;
    match listed {
        None => Err(Error::BatchNotFound),
        Some(false) => Err(Error::NotListed),
        Some(true) => plan_purchase(seller, buyer, seller_balance, buyer_balance, amount),
    }
}

/// `transfer`: refused for a non-positive amount, a transfer to oneself, an
/// unknown batch, or when the move cannot be made; else the new balances of
/// sender and receiver.
pub open spec fn transfer_decision(
    amount: i128,
    same_account: bool,
    found: bool,
    from_balance: i128,
    to_balance: i128,
) -> Result<(i128, i128), Error> {
    if amount <= 0 {
        Err(Error::InvalidAmount)
    } else if same_account {
        Err(Error::SameAccount)
    } else if !found {
        Err(Error::BatchNotFound)
    } else {
        move_plan(from_balance, to_balance, amount)
    }
}

/// Decides a `transfer` call.
pub fn decide_transfer(
    amount: i128,
    from: &String,
    to: &String,
    found: bool,
    from_balance: i128,
    to_balance: i128,
) -> (r: Result<(i128, i128), Error>)
    ensures
        r == transfer_decision(amount, from@ == to@, found, from_balance, to_balance),
{
    validate_amount(amount)?;
    require_distinct(from, to)?;
    require_batch(found)?;
    plan_move(from_balance, to_balance, amount)
}

/// `batch_transfer`: refused for no or too many recipients, an unknown
/// batch, an invalid item or total, a sender holding less than the total, or
/// a credited balance that overflows; else the total, the sender's new
/// balance and, in item order, each recipient's credited balance.
/// `current[i]` is the balance item `i`'s recipient holds before the call.
pub open spec fn batch_transfer_decision(
    from: Seq<char>,
    found: bool,
    items: Seq<TransferItem>,
    from_balance: i128,
    current: Seq<i128>,
) -> Result<(i128, i128, Seq<i128>), Error> {
    if items.len() == 0 || items.len() > MAX_RECIPIENTS {
        Err(Error::TooManyRecipients)
    } else if !found {
        Err(Error::BatchNotFound)
    } else {
        match items_total(from, items) {
            Err(e) => Err(e),
            Ok(total) => match debit_outcome(from_balance, total) {
                Err(e) => Err(e),
                Ok(new_from) => match credit_plan(items, current) {
                    None => Err(Error::Overflow),
                    Some(credited) => Ok((total, new_from, credited)),
                },
            },
        }
    }
}

/// Decides a `batch_transfer` call.
pub fn decide_batch_transfer(
    from: &String,
    found: bool,
    items: &Vec<TransferItem>,
    from_balance: i128,
    current: &Vec<i128>,
) -> (r: Result<(i128, i128, Vec<i128>), Error>)
    requires
        current@.len() == items@.len(),
    ensures
        match r {
            Ok((total, new_from, credited)) => batch_transfer_decision(
                from@,
                found,
                items@,
                from_balance,
                current@,
            ) == Ok::<(i128, i128, Seq<i128>), Error>((total, new_from, credited@)),
            Err(e) => batch_transfer_decision(from@, found, items@, from_balance, current@) == Err::<
                (i128, i128, Seq<i128>),
                Error,
            >(e),
        },
{
    check_recipient_count(items.len())?;
    require_batch(found)?;
    let total = recipients_total(from, items)?;
    let new_from = debit(from_balance, total)?;
    let credited = plan_credits(items, current)?;
    Ok((total, new_from, credited))
}

/// `retire` and `retire_for`: refused for a non-positive amount, an unknown
/// batch, or when the retirement cannot be made; else the holder's new
/// balance, the batch's new retired total and the certificate id.
pub open spec fn retirement_decision(
    amount: i128,
    found: bool,
    balance: i128,
    retired_total: i128,
    certificate_count: u64,
) -> Result<(i128, i128, u64), Error> {
    if amount <= 0 {
        Err(Error::InvalidAmount)
    } else if !found {
        Err(Error::BatchNotFound)
    } else {
        retirement_plan(balance, amount, retired_total, certificate_count)
    }
}

/// Decides a `retire` or `retire_for` call.
pub fn decide_retirement(
    amount: i128,
    found: bool,
    balance: i128,
    retired_total: i128,
    certificate_count: u64,
) -> (r: Result<(i128, i128, u64), Error>)
    ensures
        r == retirement_decision(amount, found, balance, retired_total, certificate_count),
{
    validate_amount(amount)?;
    require_batch(found)?;
    plan_retirement(balance, amount, retired_total, certificate_count)
}

} // verus!
