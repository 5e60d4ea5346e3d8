//! Each entrypoint's decision, from the values read to the values written.

use carbonmint_contract::entry::{
    decide_batch_transfer, decide_list, decide_mint, decide_purchase, decide_retirement,
    decide_transfer,
};
use carbonmint_contract::types::TransferItem;
use carbonmint_contract::Error;

fn item(to: &str, amount: i128) -> TransferItem {
    TransferItem { to: String::from(to), amount }
}

#[test]
fn test_decide_mint_order_and_values() {
    assert_eq!(decide_mint(true, false, 2, 500, 100, 3), Ok((3, 600)));
    assert_eq!(decide_mint(false, true, 0, 0, 0, -1), Err(Error::NotInitialized));
    assert_eq!(decide_mint(true, true, 0, 0, 0, -1), Err(Error::Paused));
    assert_eq!(decide_mint(true, false, 0, 0, 0, 1), Err(Error::InvalidAmount));
    assert_eq!(decide_mint(true, false, 0, 0, 1, -1), Err(Error::InvalidAmount));
    assert_eq!(decide_mint(true, false, u64::MAX, 0, 1, 1), Err(Error::Overflow));
    assert_eq!(decide_mint(true, false, 0, i128::MAX, 1, 1), Err(Error::Overflow));
}

#[test]
fn test_decide_list_order() {
    assert_eq!(decide_list(true, 9), Ok(()));
    assert_eq!(decide_list(false, -1), Err(Error::BatchNotFound));
    assert_eq!(decide_list(true, -1), Err(Error::InvalidAmount));
}

#[test]
fn test_decide_purchase_order_and_values() {
    let seller = String::from("GSELLER");
    let buyer = String::from("GBUYER");
    assert_eq!(decide_purchase(30, Some(true), &seller, &buyer, 100, 5), Ok((70, 35)));
    assert_eq!(decide_purchase(0, None, &seller, &buyer, 0, 0), Err(Error::InvalidAmount));
    assert_eq!(decide_purchase(1, None, &seller, &buyer, 0, 0), Err(Error::BatchNotFound));
    assert_eq!(decide_purchase(1, Some(false), &seller, &buyer, 100, 0), Err(Error::NotListed));
    assert_eq!(
        decide_purchase(101, Some(true), &seller, &buyer, 100, 0),
        Err(Error::InsufficientBalance)
    );
    // An issuer buying from itself keeps its balance.
    assert_eq!(decide_purchase(40, Some(true), &seller, &seller, 100, 100), Ok((100, 100)));
}

#[test]
fn test_decide_transfer_order_and_values() {
    let a = String::from("GA");
    let b = String::from("GB");
    assert_eq!(decide_transfer(30, &a, &b, true, 100, 5), Ok((70, 35)));
    assert_eq!(decide_transfer(0, &a, &a, false, 0, 0), Err(Error::InvalidAmount));
    assert_eq!(decide_transfer(1, &a, &a, false, 0, 0), Err(Error::SameAccount));
    assert_eq!(decide_transfer(1, &a, &b, false, 0, 0), Err(Error::BatchNotFound));
    assert_eq!(decide_transfer(11, &a, &b, true, 10, 0), Err(Error::InsufficientBalance));
    assert_eq!(decide_transfer(1, &a, &b, true, 10, i128::MAX), Err(Error::Overflow));
}

#[test]
fn test_decide_batch_transfer_order_and_values() {
    let from = String::from("GFROM");
    let items = vec![item("GALICE", 10), item("GBOB", 20), item("GALICE", 5)];
    let current = vec![100, 7, 100];
    assert_eq!(
        decide_batch_transfer(&from, true, &items, 1_000, &current),
        Ok((35, 965, vec![110, 27, 115]))
    );
    assert_eq!(
        decide_batch_transfer(&from, false, &vec![], 0, &vec![]),
        Err(Error::TooManyRecipients)
    );
    assert_eq!(
        decide_batch_transfer(&from, false, &items, 1_000, &current),
        Err(Error::BatchNotFound)
    );
    let bad = vec![item("GALICE", 10), item("GFROM", 1)];
    assert_eq!(decide_batch_transfer(&from, true, &bad, 0, &vec![0, 0]), Err(Error::SameAccount));
    assert_eq!(
        decide_batch_transfer(&from, true, &items, 34, &current),
        Err(Error::InsufficientBalance)
    );
    let rich = vec![item("GRICH", 20)];
    assert_eq!(
        decide_batch_transfer(&from, true, &rich, 100, &vec![i128::MAX - 10]),
        Err(Error::Overflow)
    );
}

#[test]
fn test_decide_retirement_order_and_values() {
    assert_eq!(decide_retirement(250, true, 1_000, 50, 2), Ok((750, 300, 3)));
    assert_eq!(decide_retirement(0, false, 0, 0, 0), Err(Error::InvalidAmount));
    assert_eq!(decide_retirement(1, false, 100, 0, 0), Err(Error::BatchNotFound));
    assert_eq!(decide_retirement(101, true, 100, 0, 0), Err(Error::InsufficientBalance));
    assert_eq!(decide_retirement(5, true, 10, i128::MAX, 0), Err(Error::Overflow));
}
