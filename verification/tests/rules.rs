//! The entrypoints' decision points, on plain values.

use carbonmint_contract::rules::{
    check_initialize, check_minting_open, check_recipient_count, current_admin, debit,
    existing_batch, move_balance, plan_credits, plan_move, plan_purchase, plan_retirement,
    recipients_total, require_batch, require_distinct, require_listed, validate_amount,
    validate_mint_terms, validate_price,
};
use carbonmint_contract::types::{self_beneficiary, TransferItem, MAX_RECIPIENTS};
use carbonmint_contract::Error;

fn item(to: &str, amount: i128) -> TransferItem {
    TransferItem { to: String::from(to), amount }
}

#[test]
fn test_check_initialize_once() {
    assert_eq!(check_initialize(false), Ok(()));
    assert_eq!(check_initialize(true), Err(Error::AlreadyInitialized));
}

#[test]
fn test_current_admin_needs_initialization() {
    assert_eq!(current_admin(Some(String::from("GADMIN"))), Ok(String::from("GADMIN")));
    assert_eq!(current_admin::<String>(None), Err(Error::NotInitialized));
}

#[test]
fn test_check_minting_open_order() {
    assert_eq!(check_minting_open(true, false), Ok(()));
    assert_eq!(check_minting_open(true, true), Err(Error::Paused));
    assert_eq!(check_minting_open(false, true), Err(Error::NotInitialized));
    assert_eq!(check_minting_open(false, false), Err(Error::NotInitialized));
}

#[test]
fn test_validate_mint_terms() {
    assert_eq!(validate_mint_terms(1, 0), Ok(()));
    assert_eq!(validate_mint_terms(0, 5), Err(Error::InvalidAmount));
    assert_eq!(validate_mint_terms(-3, 5), Err(Error::InvalidAmount));
    assert_eq!(validate_mint_terms(10, -1), Err(Error::InvalidAmount));
}

#[test]
fn test_validate_price_and_amount() {
    assert_eq!(validate_price(0), Ok(()));
    assert_eq!(validate_price(-1), Err(Error::InvalidAmount));
    assert_eq!(validate_amount(1), Ok(()));
    assert_eq!(validate_amount(0), Err(Error::InvalidAmount));
    assert_eq!(validate_amount(i128::MIN), Err(Error::InvalidAmount));
}

#[test]
fn test_batch_lookups() {
    assert_eq!(require_batch(true), Ok(()));
    assert_eq!(require_batch(false), Err(Error::BatchNotFound));
    assert_eq!(existing_batch(Some(7u64)), Ok(7));
    assert_eq!(existing_batch::<u64>(None), Err(Error::BatchNotFound));
    assert_eq!(require_listed(true), Ok(()));
    assert_eq!(require_listed(false), Err(Error::NotListed));
}

#[test]
fn test_require_distinct_compares_addresses() {
    let a = String::from("GA");
    let b = String::from("GB");
    assert_eq!(require_distinct(&a, &b), Ok(()));
    assert_eq!(require_distinct(&a, &String::from("GA")), Err(Error::SameAccount));
}

#[test]
fn test_move_balance_outcomes() {
    assert_eq!(move_balance(100, 5, 30), Some((70, 35)));
    assert_eq!(move_balance(100, 0, 100), Some((0, 100)));
    assert_eq!(move_balance(10, 0, 11), None);
    assert_eq!(move_balance(10, i128::MAX, 1), None);
}

#[test]
fn test_plan_move_errors() {
    assert_eq!(plan_move(100, 5, 30), Ok((70, 35)));
    assert_eq!(plan_move(10, 0, 11), Err(Error::InsufficientBalance));
    assert_eq!(plan_move(10, i128::MAX - 5, 6), Err(Error::Overflow));
}

#[test]
fn test_debit() {
    assert_eq!(debit(100, 40), Ok(60));
    assert_eq!(debit(100, 100), Ok(0));
    assert_eq!(debit(100, 101), Err(Error::InsufficientBalance));
}

#[test]
fn test_recipient_count_bounds() {
    assert_eq!(check_recipient_count(0), Err(Error::TooManyRecipients));
    assert_eq!(check_recipient_count(1), Ok(()));
    assert_eq!(check_recipient_count(MAX_RECIPIENTS as usize), Ok(()));
    assert_eq!(check_recipient_count(MAX_RECIPIENTS as usize + 1), Err(Error::TooManyRecipients));
}

#[test]
fn test_recipients_total_validates_in_order() {
    let from = String::from("GFROM");
    assert_eq!(recipients_total(&from, &vec![item("GA", 3), item("GB", 4)]), Ok(7));
    assert_eq!(recipients_total(&from, &vec![]), Ok(0));
    // The first offending item decides the error.
    assert_eq!(
        recipients_total(&from, &vec![item("GFROM", 3), item("GB", 0)]),
        Err(Error::SameAccount)
    );
    assert_eq!(
        recipients_total(&from, &vec![item("GA", 0), item("GFROM", 1)]),
        Err(Error::InvalidAmount)
    );
    assert_eq!(
        recipients_total(&from, &vec![item("GA", i128::MAX), item("GB", 1)]),
        Err(Error::Overflow)
    );
}

#[test]
fn test_self_beneficiary_text() {
    assert_eq!(self_beneficiary(), String::from("self"));
}

#[test]
fn test_plan_purchase_moves_between_accounts() {
    let seller = String::from("GSELLER");
    let buyer = String::from("GBUYER");
    assert_eq!(plan_purchase(&seller, &buyer, 100, 5, 30), Ok((70, 35)));
    assert_eq!(plan_purchase(&seller, &buyer, 10, 0, 11), Err(Error::InsufficientBalance));
    assert_eq!(plan_purchase(&seller, &buyer, 10, i128::MAX, 1), Err(Error::Overflow));
}

#[test]
fn test_plan_purchase_from_oneself_keeps_balance() {
    let issuer = String::from("GISSUER");
    assert_eq!(plan_purchase(&issuer, &issuer, 100, 100, 40), Ok((100, 100)));
    assert_eq!(plan_purchase(&issuer, &issuer, 100, 100, 100), Ok((100, 100)));
    assert_eq!(plan_purchase(&issuer, &issuer, 100, 100, 101), Err(Error::InsufficientBalance));
}

#[test]
fn test_plan_retirement_outcomes() {
    assert_eq!(plan_retirement(1_000, 250, 50, 2), Ok((750, 300, 3)));
    assert_eq!(plan_retirement(100, 101, 0, 0), Err(Error::InsufficientBalance));
    assert_eq!(plan_retirement(10, 5, i128::MAX, 0), Err(Error::Overflow));
    assert_eq!(plan_retirement(10, 5, 0, u64::MAX), Err(Error::Overflow));
}

#[test]
fn test_plan_credits_continues_from_previous_credit() {
    let items = vec![item("GALICE", 10), item("GBOB", 20), item("GALICE", 5)];
    // Each entry of `current` is the recipient's balance before any credit.
    let current = vec![100, 7, 100];
    assert_eq!(plan_credits(&items, &current), Ok(vec![110, 27, 115]));
}

#[test]
fn test_plan_credits_overflow() {
    let items = vec![item("GALICE", 3), item("GRICH", 20)];
    let current = vec![0, i128::MAX - 10];
    assert_eq!(plan_credits(&items, &current), Err(Error::Overflow));
    let items = vec![item("GRICH", 5), item("GRICH", 6)];
    let current = vec![i128::MAX - 10, i128::MAX - 10];
    assert_eq!(plan_credits(&items, &current), Err(Error::Overflow));
    let items = vec![item("GRICH", 5), item("GRICH", 5)];
    assert_eq!(plan_credits(&items, &current), Ok(vec![i128::MAX - 5, i128::MAX]));
}
