//! The decisions the registry's entrypoints take on the values they read.
//!
//! Each function here is one decision point of an entrypoint, taken on plain
//! values (what was read from storage and what the caller passed); the
//! contract applies the outcome to its state.

use vstd::prelude::*;

use crate::error::Error;
use crate::math::{checked_add, checked_add_u64, checked_sub, fit_i128, fit_u64};
use crate::store::balance_in;
use crate::types::{TransferItem, MAX_RECIPIENTS};

verus! {

/// The new balances of sender and receiver when `amount` moves between
/// them, or `None` when the sender holds less than `amount` or either new
/// balance would not fit in an `i128`.
pub open spec fn move_outcome(from_balance: i128, to_balance: i128, amount: i128) -> Option<(i128, i128)> {
    if from_balance < amount {
        None
    } else if fit_i128(from_balance - amount) is Ok && fit_i128(to_balance + amount) is Ok {
        Some(((from_balance - amount) as i128, (to_balance + amount) as i128))
    } else {
        None
    }
}

/// The outcome of a single move: [`Error::InsufficientBalance`] when the
/// sender holds less than `amount`, [`Error::Overflow`] when a new balance
/// does not fit, else the two new balances.
pub open spec fn move_plan(from_balance: i128, to_balance: i128, amount: i128) -> Result<(i128, i128), Error> {
    if from_balance < amount {
        Err(Error::InsufficientBalance)
    } else {
        match move_outcome(from_balance, to_balance, amount) {
            Some(p) => Ok(p),
            None => Err(Error::Overflow),
        }
    }
}

/// The outcome of a purchase of `amount` credits: like a move between two
/// accounts, except that when the buyer is the seller the credits stay where
/// they are, so both balances remain `seller_balance` (a purchase never
/// creates credits).
pub open spec fn purchase_plan(
    seller_balance: i128,
    buyer_balance: i128,
    amount: i128,
    buyer_is_seller: bool,
) -> Result<(i128, i128), Error> {
    if buyer_is_seller {
        if seller_balance < amount {
            Err(Error::InsufficientBalance)
        } else {
            Ok((seller_balance, seller_balance))
        }
    } else {
        move_plan(seller_balance, buyer_balance, amount)
    }
}

/// The outcome of taking `amount` from `balance`.
pub open spec fn debit_outcome(balance: i128, amount: i128) -> Result<i128, Error> {
    if balance < amount {
        Err(Error::InsufficientBalance)
    } else {
        fit_i128(balance - amount)
    }
}

/// The outcome of retiring `amount` credits from a holder of `balance`,
/// from a batch with `retired_total` credits retired so far, when
/// `certificate_count` certificates exist: the holder's new balance, the
/// batch's new retired total and the new certificate's id; or
/// [`Error::InsufficientBalance`], or [`Error::Overflow`] when a new value
/// does not fit.
pub open spec fn retirement_plan(
    balance: i128,
    amount: i128,
    retired_total: i128,
    certificate_count: u64,
) -> Result<(i128, i128, u64), Error> {
    match debit_outcome(balance, amount) {
        Err(e) => Err(e),
        Ok(new_balance) => match fit_i128(retired_total + amount) {
            Err(e) => Err(e),
            Ok(new_total) => match fit_u64(certificate_count + 1) {
                Err(e) => Err(e),
                Ok(cert_id) => Ok((new_balance, new_total, cert_id)),
            },
        },
    }
}

/// The total of a batch transfer's recipients, checked item by item in order:
/// the first item with a non-positive amount gives [`Error::InvalidAmount`],
/// the first naming the sender gives [`Error::SameAccount`], and a running
/// total that leaves `i128` gives [`Error::Overflow`].
pub open spec fn items_total(from: Seq<char>, items: Seq<TransferItem>) -> Result<i128, Error>
    decreases items.len(),
{
    if items.len() == 0 {
        Ok(0)
    } else {
        match items_total(from, items.drop_last()) {
            Err(e) => Err(e),
            Ok(t) => {
                let it = items.last();
                if it.amount <= 0 {
                    Err(Error::InvalidAmount)
                } else if it.to@ == from {
                    Err(Error::SameAccount)
                } else {
                    fit_i128(t + it.amount)
                }
            },
        }
    }
}

/// The balances after crediting each item's amount to its recipient, in
/// order, or `None` when some credited balance would not fit in an `i128`.
pub open spec fn credit_all(
    m: Map<(Seq<char>, u64), i128>,
    batch_id: u64,
    items: Seq<TransferItem>,
) -> Option<Map<(Seq<char>, u64), i128>>
    decreases items.len(),
{
    if items.len() == 0 {
        Some(m)
    } else {
        match credit_all(m, batch_id, items.drop_last()) {
            None => None,
            Some(m2) => {
                let it = items.last();
                let v = balance_in(m2, it.to@, batch_id) + it.amount;
                if fit_i128(v) is Ok {
                    Some(m2.insert((it.to@, batch_id), v as i128))
                } else {
                    None
                }
            },
        }
    }
}

/// `initialize` may run only once.
pub fn check_initialize(initialized: bool) -> (r: Result<(), Error>)
    ensures
        r == (if initialized {
            Err(Error::AlreadyInitialized)
        } else {
            Ok(())
        }),
{
    if initialized {
        Err(Error::AlreadyInitialized)
    } else {
        Ok(())
    }
}

/// Entrypoints that need the admin refuse to run before `initialize`:
/// returns the recorded admin, or [`Error::NotInitialized`].
pub fn current_admin<A>(admin: Option<A>) -> (r: Result<A, Error>)
    ensures
        r == (match admin {
            Some(a) => Ok(a),
            None => Err(Error::NotInitialized),
        }),
{
    match admin {
        Some(a) => Ok(a),
        None => Err(Error::NotInitialized),
    }
}

/// Minting needs an initialized registry that is not paused.
pub fn check_minting_open(initialized: bool, paused: bool) -> (r: Result<(), Error>)
    ensures
        r == (if !initialized {
            Err(Error::NotInitialized)
        } else if paused {
            Err(Error::Paused)
        } else {
            Ok(())
        }),
{
    if !initialized {
        Err(Error::NotInitialized)
    } else if paused {
        Err(Error::Paused)
    } else {
        Ok(())
    }
}

/// A mint needs a positive amount and a non-negative price.
pub fn validate_mint_terms(amount: i128, price: i128) -> (r: Result<(), Error>)
    ensures
        r == (if amount <= 0 || price < 0 {
            Err(Error::InvalidAmount)
        } else {
            Ok(())
        }),
{
    if amount <= 0 || price < 0 {
        Err(Error::InvalidAmount)
    } else {
        Ok(())
    }
}

/// A listing price must not be negative.
pub fn validate_price(price: i128) -> (r: Result<(), Error>)
    ensures
        r == (if price < 0 {
            Err(Error::InvalidAmount)
        } else {
            Ok(())
        }),
{
    if price < 0 {
        Err(Error::InvalidAmount)
    } else {
        Ok(())
    }
}

/// Amounts of credits that are bought, moved or retired must be positive.
pub fn validate_amount(amount: i128) -> (r: Result<(), Error>)
    ensures
        r == (if amount <= 0 {
            Err(Error::InvalidAmount)
        } else {
            Ok(())
        }),
{
    if amount <= 0 {
        Err(Error::InvalidAmount)
    } else {
        Ok(())
    }
}

/// Operations on a batch need the batch to exist.
pub fn require_batch(exists: bool) -> (r: Result<(), Error>)
    ensures
        r == (if exists {
            Ok(())
        } else {
            Err(Error::BatchNotFound)
        }),
{
    if exists {
        Ok(())
    } else {
        Err(Error::BatchNotFound)
    }
}

/// Returns the record that was found for a batch (or certificate) id, or
/// [`Error::BatchNotFound`] when there is none.
pub fn existing_batch<B>(found: Option<B>) -> (r: Result<B, Error>)
    ensures
        r == (match found {
            Some(b) => Ok(b),
            None => Err(Error::BatchNotFound),
        }),
{
    match found {
        Some(b) => Ok(b),
        None => Err(Error::BatchNotFound),
    }
}

/// Buying needs the batch to be listed.
pub fn require_listed(listed: bool) -> (r: Result<(), Error>)
    ensures
        r == (if listed {
            Ok(())
        } else {
            Err(Error::NotListed)
        }),
{
    if listed {
        Ok(())
    } else {
        Err(Error::NotListed)
    }
}

/// A direct transfer needs distinct source and destination accounts.
pub fn require_distinct(from: &String, to: &String) -> (r: Result<(), Error>)
    ensures
        r == (if from@ == to@ {
            Err(Error::SameAccount)
        } else {
            Ok(())
        }),
{
    if *from == *to {
        Err(Error::SameAccount)
    } else {
        Ok(())
    }
}

/// The new balances when `amount` credits move from a holder of
/// `from_balance` to a holder of `to_balance`; `None`, with nothing to write,
/// when the sender holds fewer than `amount` credits or either side would
/// overflow. `amount` is positive at every call site.
pub fn move_balance(from_balance: i128, to_balance: i128, amount: i128) -> (r: Option<(i128, i128)>)
    ensures
        r == move_outcome(from_balance, to_balance, amount),
{
    if from_balance < amount {
        return None;
    }
    match (from_balance.checked_sub(amount), to_balance.checked_add(amount)) {
        (Some(new_from), Some(new_to)) => Some((new_from, new_to)),
        _ => None,
    }
}

/// The balance check and move of `transfer`: [`Error::InsufficientBalance`]
/// or [`Error::Overflow`], else the two new balances.
pub fn plan_move(from_balance: i128, to_balance: i128, amount: i128) -> (r: Result<(i128, i128), Error>)
    ensures
        r == move_plan(from_balance, to_balance, amount),
{
    if from_balance < amount {
        return Err(Error::InsufficientBalance);
    }
    match move_balance(from_balance, to_balance, amount) {
        Some(p) => Ok(p),
        None => Err(Error::Overflow),
    }
}

/// The balance check and move of `buy`: the seller's and the buyer's new
/// balances. When the buyer is the seller, both stay `seller_balance`.
pub fn plan_purchase(
    seller: &String,
    buyer: &String,
    seller_balance: i128,
    buyer_balance: i128,
    amount: i128,
) -> (r: Result<(i128, i128), Error>)
    ensures
        r == purchase_plan(seller_balance, buyer_balance, amount, buyer@ == seller@),
{
    if *buyer == *seller {
        if seller_balance < amount {
            return Err(Error::InsufficientBalance);
        }
        return Ok((seller_balance, seller_balance));
    }
    plan_move(seller_balance, buyer_balance, amount)
}

/// Takes `amount` credits from a holder of `balance`.
pub fn debit(balance: i128, amount: i128) -> (r: Result<i128, Error>)
    ensures
        r == debit_outcome(balance, amount),
{
    if balance < amount {
        return Err(Error::InsufficientBalance);
    }
    checked_sub(balance, amount)
}

/// The new balance, retired total and certificate id of a retirement; all
/// are computed before anything is written.
pub fn plan_retirement(balance: i128, amount: i128, retired_total: i128, certificate_count: u64) -> (r:
    Result<(i128, i128, u64), Error>)
    ensures
        r == retirement_plan(balance, amount, retired_total, certificate_count),
{
    let new_balance = debit(balance, amount)?;
    let new_total = checked_add(retired_total, amount)?;
    let cert_id = checked_add_u64(certificate_count, 1)?;
    Ok((new_balance, new_total, cert_id))
}

/// A batch transfer names between one and [`MAX_RECIPIENTS`] recipients.
pub fn check_recipient_count(count: usize) -> (r: Result<(), Error>)
    ensures
        r == (if count == 0 || count > MAX_RECIPIENTS {
            Err(Error::TooManyRecipients)
        } else {
            Ok(())
        }),
{
    if count == 0 || count > MAX_RECIPIENTS as usize {
        Err(Error::TooManyRecipients)
    } else {
        Ok(())
    }
}

/// Validates each recipient of a batch transfer from `from` and returns the
/// combined amount.
pub fn recipients_total(from: &String, items: &Vec<TransferItem>) -> (r: Result<i128, Error>)
    ensures
        r == items_total(from@, items@),
{
    let mut total: i128 = 0;
    let mut i: usize = 0;
    while i < items.len()
        invariant
            i <= items@.len(),
            items_total(from@, items@.take(i as int)) == Ok::<i128, Error>(total),
        decreases items@.len() - i,
    {
        let item = &items[i];
        assert(items@.take(i + 1).drop_last() =~= items@.take(i as int));
        assert(items@.take(i + 1).last() == items@[i as int]);
        if item.amount <= 0 {
            assert(items_total(from@, items@.take(i + 1)) is Err);
            proof {
                lemma_items_total_err_extends(from@, items@, i as int + 1);
            }
            return Err(Error::InvalidAmount);
        }
        if item.to == *from {
            proof {
                lemma_items_total_err_extends(from@, items@, i as int + 1);
            }
            return Err(Error::SameAccount);
        }
        match checked_add(total, item.amount) {
            Ok(t) => {
                total = t;
            },
            Err(e) => {
                proof {
                    lemma_items_total_err_extends(from@, items@, i as int + 1);
                }
                return Err(e);
            },
        }
        i = i + 1;
    }
    assert(items@.take(items@.len() as int) =~= items@);
    Ok(total)
}

/// Once a prefix of the items fails validation, the whole list fails with
/// the same error.
pub proof fn lemma_items_total_err_extends(from: Seq<char>, items: Seq<TransferItem>, n: int)
    requires
        0 <= n <= items.len(),
        items_total(from, items.take(n)) is Err,
    ensures
        items_total(from, items) == items_total(from, items.take(n)),
    decreases items.len() - n,
{
    if n < items.len() {
        assert(items.take(n + 1).drop_last() =~= items.take(n));
        lemma_items_total_err_extends(from, items, n + 1);
    } else {
        assert(items.take(n) =~= items);
    }
}

/// Every item of a validated batch transfer moves a positive amount to an
/// account other than the sender, and the total is positive.
pub proof fn lemma_items_total_ok(from: Seq<char>, items: Seq<TransferItem>)
    requires
        items_total(from, items) is Ok,
    ensures
        forall|i: int|
            0 <= i < items.len() ==> (#[trigger] items[i]).amount > 0 && items[i].to@ != from,
        items.len() > 0 ==> items_total(from, items)->Ok_0 > 0,
    decreases items.len(),
{
    if items.len() > 0 {
        let t = items.drop_last();
        lemma_items_total_ok(from, t);
        assert forall|i: int| 0 <= i < items.len() implies (#[trigger] items[i]).amount > 0
            && items[i].to@ != from by {
            if i < t.len() {
                assert(items[i] == t[i]);
            }
        }
    }
}

/// The combined amount that a list of transfer items sends to `owner`.
pub open spec fn amount_sent_to(items: Seq<TransferItem>, owner: Seq<char>) -> int
    decreases items.len(),
{
    if items.len() == 0 {
        0
    } else {
        amount_sent_to(items.drop_last(), owner) + (if items.last().to@ == owner {
            items.last().amount as int
        } else {
            0
        })
    }
}

/// Crediting a list of items raises each account's balance of the batch by
/// the amount sent to it, and leaves other batches alone.
pub proof fn lemma_credit_all_adds(
    m: Map<(Seq<char>, u64), i128>,
    batch_id: u64,
    items: Seq<TransferItem>,
    owner: Seq<char>,
    other_batch: u64,
)
    requires
        credit_all(m, batch_id, items) is Some,
    ensures
        balance_in(credit_all(m, batch_id, items)->Some_0, owner, batch_id) == balance_in(
            m,
            owner,
            batch_id,
        ) + amount_sent_to(items, owner),
        other_batch != batch_id ==> balance_in(
            credit_all(m, batch_id, items)->Some_0,
            owner,
            other_batch,
        ) == balance_in(m, owner, other_batch),
    decreases items.len(),
{
    if items.len() > 0 {
        lemma_credit_all_adds(m, batch_id, items.drop_last(), owner, other_batch);
    }
}

/// The position of the last of the first `n` items that sends to `owner`,
/// or `-1` when none does.
pub open spec fn last_index_to(items: Seq<TransferItem>, owner: Seq<char>, n: int) -> int
    decreases n,
{
    if n <= 0 {
        -1
    } else if items[n - 1].to@ == owner {
        n - 1
    } else {
        last_index_to(items, owner, n - 1)
    }
}

/// The balance each item leaves its recipient with when the items are
/// credited in order, given in `current[i]` the balance that item `i`'s
/// recipient held before the first credit (a recipient named again continues
/// from its previous credited balance); `None` when some credited balance
/// does not fit in an `i128`.
pub open spec fn credit_plan(items: Seq<TransferItem>, current: Seq<i128>) -> Option<Seq<i128>>
    decreases items.len(),
{
    if items.len() == 0 {
        Some(Seq::empty())
    } else {
        let n = items.len() - 1;
        match credit_plan(items.drop_last(), current.drop_last()) {
            None => None,
            Some(p) => {
                let k = last_index_to(items, items[n].to@, n);
                let base: int = if k >= 0 {
                    p[k] as int
                } else {
                    current[n] as int
                };
                if fit_i128(base + items[n].amount) is Ok {
                    Some(p.push((base + items[n].amount) as i128))
                } else {
                    None
                }
            },
        }
    }
}

/// The balances after writing, in order, each item's credited balance for
/// its recipient.
pub open spec fn apply_credits(
    m: Map<(Seq<char>, u64), i128>,
    batch_id: u64,
    items: Seq<TransferItem>,
    values: Seq<i128>,
) -> Map<(Seq<char>, u64), i128>
    decreases items.len(),
{
    if items.len() == 0 || values.len() == 0 {
        m
    } else {
        apply_credits(m, batch_id, items.drop_last(), values.drop_last()).insert(
            (items.last().to@, batch_id),
            values.last(),
        )
    }
}

proof fn lemma_last_index_prefix(items: Seq<TransferItem>, other: Seq<TransferItem>, owner: Seq<char>, n: int)
    requires
        0 <= n <= items.len(),
        n <= other.len(),
        forall|i: int| 0 <= i < n ==> items[i] == other[i],
    ensures
        last_index_to(items, owner, n) == last_index_to(other, owner, n),
    decreases n,
{
    if n > 0 {
        lemma_last_index_prefix(items, other, owner, n - 1);
    }
}

proof fn lemma_last_index(items: Seq<TransferItem>, owner: Seq<char>, n: int)
    requires
        0 <= n <= items.len(),
    ensures
        -1 <= last_index_to(items, owner, n) < n,
        last_index_to(items, owner, n) >= 0 ==> items[last_index_to(items, owner, n)].to@ == owner,
        forall|m: int|
            last_index_to(items, owner, n) < m < n ==> (#[trigger] items[m]).to@ != owner,
    decreases n,
{
    if n > 0 {
        lemma_last_index(items, owner, n - 1);
    }
}

proof fn lemma_sent_skip(items: Seq<TransferItem>, owner: Seq<char>, a: int, b: int)
    requires
        0 <= a <= b <= items.len(),
        forall|m: int| a <= m < b ==> (#[trigger] items[m]).to@ != owner,
    ensures
        amount_sent_to(items.take(b), owner) == amount_sent_to(items.take(a), owner),
    decreases b - a,
{
    if a < b {
        lemma_sent_skip(items, owner, a, b - 1);
        assert(items.take(b).drop_last() =~= items.take(b - 1));
    }
}

/// Once a prefix of the items cannot be credited, the whole list cannot.
pub proof fn lemma_credit_plan_none_extends(items: Seq<TransferItem>, current: Seq<i128>, n: int)
    requires
        0 <= n <= items.len(),
        items.len() == current.len(),
        credit_plan(items.take(n), current.take(n)) is None,
    ensures
        credit_plan(items, current) is None,
    decreases items.len() - n,
{
    if n < items.len() {
        assert(items.take(n + 1).drop_last() =~= items.take(n));
        assert(current.take(n + 1).drop_last() =~= current.take(n));
        lemma_credit_plan_none_extends(items, current, n + 1);
    } else {
        assert(items.take(n) =~= items);
        assert(current.take(n) =~= current);
    }
}

/// When `current` holds each recipient's balance in `m`, crediting the items
/// one by one is writing the planned balances: both overflow on the same
/// lists, and otherwise give the same balances.
pub proof fn lemma_credit_all_is_plan(
    m: Map<(Seq<char>, u64), i128>,
    batch_id: u64,
    items: Seq<TransferItem>,
    current: Seq<i128>,
    n: int,
)
    requires
        0 <= n <= items.len(),
        items.len() == current.len(),
        forall|i: int| 0 <= i < items.len() ==> current[i] == balance_in(m, #[trigger] items[i].to@, batch_id),
    ensures
        credit_all(m, batch_id, items.take(n)) == (match credit_plan(items.take(n), current.take(n)) {
            None => None,
            Some(p) => Some(apply_credits(m, batch_id, items.take(n), p)),
        }),
        credit_plan(items.take(n), current.take(n)) matches Some(p) ==> p.len() == n && forall|i: int|
            0 <= i < n ==> #[trigger] p[i] == current[i] + amount_sent_to(items.take(i + 1), items[i].to@),
    decreases n,
{
    if n > 0 {
        let t = items.take(n);
        let c = current.take(n);
        assert(t.drop_last() =~= items.take(n - 1));
        assert(c.drop_last() =~= current.take(n - 1));
        lemma_credit_all_is_plan(m, batch_id, items, current, n - 1);
        let o = items[n - 1].to@;
        lemma_last_index_prefix(t, items, o, n - 1);
        lemma_last_index(items, o, n - 1);
        let k = last_index_to(items, o, n - 1);
        match credit_plan(items.take(n - 1), current.take(n - 1)) {
            None => {},
            Some(p) => {
                let m1 = credit_all(m, batch_id, items.take(n - 1));
                assert(m1 == Some(apply_credits(m, batch_id, items.take(n - 1), p)));
                lemma_credit_all_adds(m, batch_id, items.take(n - 1), o, batch_id);
                if k >= 0 {
                    lemma_sent_skip(items, o, k + 1, n - 1);
                    assert(items.take(n - 1)[k] == items[k]);
                    assert(p[k] == current[k] + amount_sent_to(items.take(k + 1), items[k].to@));
                } else {
                    lemma_sent_skip(items, o, 0, n - 1);
                    assert(items.take(0) =~= Seq::<TransferItem>::empty());
                }
                assert(t.last() == items[n - 1]);
                let m2 = apply_credits(m, batch_id, items.take(n - 1), p);
                let base: int = if k >= 0 {
                    p[k] as int
                } else {
                    current[n - 1] as int
                };
                assert(current[n - 1] == balance_in(m, items[n - 1].to@, batch_id));
                if k >= 0 {
                    assert(current[k] == balance_in(m, items[k].to@, batch_id));
                }
                assert(base == balance_in(m2, o, batch_id));
                let v = base + items[n - 1].amount;
                if fit_i128(v) is Ok {
                    assert(p.push(v as i128).drop_last() =~= p);
                    assert(credit_plan(t, c) == Some(p.push(v as i128)));
                    assert(apply_credits(m, batch_id, t, p.push(v as i128)) == m2.insert(
                        (o, batch_id),
                        v as i128,
                    ));
                }
                if credit_plan(t, c) is Some {
                    let p2 = credit_plan(t, c)->Some_0;
                    assert forall|i: int| 0 <= i < n implies #[trigger] p2[i] == current[i]
                        + amount_sent_to(items.take(i + 1), items[i].to@) by {
                        if i < n - 1 {
                            assert(p2[i] == p[i]);
                        } else {
                            assert(items.take(n) =~= t);
                        }
                    }
                }
            },
        }
    } else {
        assert(items.take(0) =~= Seq::<TransferItem>::empty());
        assert(current.take(0) =~= Seq::<i128>::empty());
    }
}

/// The balance each recipient of a batch transfer is to be written, in the
/// order of the items, given in `current[i]` the balance item `i`'s
/// recipient holds before any credit; [`Error::Overflow`] when a credited
/// balance does not fit. Nothing needs to be written before all are known.
pub fn plan_credits(items: &Vec<TransferItem>, current: &Vec<i128>) -> (r: Result<Vec<i128>, Error>)
    requires
        current@.len() == items@.len(),
    ensures
        match r {
            Ok(v) => credit_plan(items@, current@) == Some(v@),
            Err(e) => e == Error::Overflow && credit_plan(items@, current@) is None,
        },
{
    let mut out: Vec<i128> = Vec::new();
    let mut i: usize = 0;
    while i < items.len()
        invariant
            i <= items@.len(),
            current@.len() == items@.len(),
            credit_plan(items@.take(i as int), current@.take(i as int)) == Some(out@),
            out@.len() == i,
        decreases items@.len() - i,
    {
        let to = &items[i].to;
        let mut last: Option<usize> = None;
        let mut j: usize = 0;
        while j < i
            invariant
                j <= i,
                i < items@.len(),
                *to == items@[i as int].to,
                match last {
                    Some(k) => k < j && last_index_to(items@, to@, j as int) == k,
                    None => last_index_to(items@, to@, j as int) == -1,
                },
            decreases i - j,
        {
            if items[j].to == *to {
                last = Some(j);
            }
            j = j + 1;
        }
        let base = match last {
            Some(k) => out[k],
            None => current[i],
        };
        proof {
            let t = items@.take(i + 1);
            assert(t.drop_last() =~= items@.take(i as int));
            assert(current@.take(i + 1).drop_last() =~= current@.take(i as int));
            lemma_last_index_prefix(t, items@, to@, i as int);
            assert(t[i as int] == items@[i as int]);
        }
        match checked_add(base, items[i].amount) {
            Ok(v) => {
                out.push(v);
            },
            Err(_) => {
                proof {
                    lemma_credit_plan_none_extends(items@, current@, i + 1);
                }
                return Err(Error::Overflow);
            },
        }
        i = i + 1;
    }
    assert(items@.take(items@.len() as int) =~= items@);
    assert(current@.take(current@.len() as int) =~= current@);
    Ok(out)
}

} // verus!
