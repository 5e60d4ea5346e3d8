//! Credit accounting: every credit of a batch is either held by some
//! account or retired.

use vstd::prelude::*;

use crate::error::Error;
use crate::ledger::{step, Call, Ledger};
use crate::laws::{law_calls_preserve_invariant, lemma_items_total_is_sum, sum_amounts};
use crate::rules::{credit_all, items_total, lemma_items_total_ok};
use crate::store::balance_in;
use crate::types::TransferItem;
use vstd::set::fold::{lemma_fold_empty, lemma_fold_insert};
use vstd::set::fold::is_fun_commutative;

verus! {

/// The fold step that adds up the balances of batch `batch_id` in `m`.
pub open spec fn held_step(m: Map<(Seq<char>, u64), i128>, batch_id: u64) -> spec_fn(int, (Seq<char>, u64)) -> int {
    |acc: int, k: (Seq<char>, u64)| if k.1 == batch_id {
        acc + m[k]
    } else {
        acc
    }
}

/// The credits of batch `batch_id` held across all accounts of `m`.
pub open spec fn held_in(m: Map<(Seq<char>, u64), i128>, batch_id: u64) -> int {
    m.dom().fold(0int, held_step(m, batch_id))
}

/// The accounting invariant: balances are kept only for existing batches,
/// and for every batch the credits held plus the credits retired equal the
/// minted supply.
pub open spec fn accounted(l: Ledger) -> bool {
    &&& l.balances.dom().finite()
    &&& forall|k: (Seq<char>, u64)| #[trigger] l.balances.contains_key(k) ==> l.has_batch(k.1)
    &&& forall|id: u64|
        #[trigger] l.has_batch(id) ==> held_in(l.balances, id) + l.retired_of(id) == l.batch(
            id,
        ).supply
}

proof fn lemma_held_step_commutative(m: Map<(Seq<char>, u64), i128>, batch_id: u64)
    ensures
        is_fun_commutative(held_step(m, batch_id)),
{
}

proof fn lemma_fold_congruence(
    s: Set<(Seq<char>, u64)>,
    f: spec_fn(int, (Seq<char>, u64)) -> int,
    g: spec_fn(int, (Seq<char>, u64)) -> int,
)
    requires
        s.finite(),
        is_fun_commutative(f),
        is_fun_commutative(g),
        forall|acc: int, x: (Seq<char>, u64)|
            #![trigger f(acc, x)]
            s.contains(x) ==> f(acc, x) == g(acc, x),
    ensures
        s.fold(0int, f) == s.fold(0int, g),
    decreases s.len(),
{
    if s.len() == 0 {
        assert(s =~= Set::empty());
        lemma_fold_empty(0int, f);
        lemma_fold_empty(0int, g);
    } else {
        let a = s.choose();
        let r = s.remove(a);
        assert(r.insert(a) =~= s);
        lemma_fold_congruence(r, f, g);
        lemma_fold_insert(r, 0int, f, a);
        lemma_fold_insert(r, 0int, g, a);
    }
}

/// Writing `v` at key `k` changes the credits held of `k`'s batch by the
/// difference to the previous balance, and leaves other batches unchanged.
proof fn lemma_held_insert(
    m: Map<(Seq<char>, u64), i128>,
    k: (Seq<char>, u64),
    v: i128,
    batch_id: u64,
)
    requires
        m.dom().finite(),
    ensures
        m.insert(k, v).dom().finite(),
        held_in(m.insert(k, v), batch_id) == held_in(m, batch_id) + (if k.1 == batch_id {
            v - balance_in(m, k.0, k.1)
        } else {
            0
        }),
{
    let m2 = m.insert(k, v);
    let f = held_step(m, batch_id);
    let g = held_step(m2, batch_id);
    lemma_held_step_commutative(m, batch_id);
    lemma_held_step_commutative(m2, batch_id);
    if m.contains_key(k) {
        let r = m.dom().remove(k);
        assert(r.insert(k) =~= m.dom());
        assert(m2.dom() =~= m.dom());
        assert forall|acc: int, x: (Seq<char>, u64)|
            #![trigger f(acc, x)]
            r.contains(x) implies f(acc, x) == g(acc, x) by {
            assert(m2[x] == m[x]);
        }
        lemma_fold_congruence(r, f, g);
        lemma_fold_insert(r, 0int, f, k);
        lemma_fold_insert(r, 0int, g, k);
    } else {
        assert(m2.dom() =~= m.dom().insert(k));
        assert forall|acc: int, x: (Seq<char>, u64)|
            #![trigger f(acc, x)]
            m.dom().contains(x) implies f(acc, x) == g(acc, x) by {
            assert(m2[x] == m[x]);
        }
        lemma_fold_congruence(m.dom(), f, g);
        lemma_fold_insert(m.dom(), 0int, g, k);
    }
}

/// A map with no balance of batch `batch_id` holds none of its credits.
proof fn lemma_held_none(m: Map<(Seq<char>, u64), i128>, batch_id: u64)
    requires
        m.dom().finite(),
        forall|k: (Seq<char>, u64)| #[trigger] m.contains_key(k) ==> k.1 != batch_id,
    ensures
        held_in(m, batch_id) == 0,
    decreases m.dom().len(),
{
    lemma_held_step_commutative(m, batch_id);
    if m.dom().len() == 0 {
        assert(m.dom() =~= Set::empty());
        lemma_fold_empty(0int, held_step(m, batch_id));
    } else {
        let k = m.dom().choose();
        let m0 = m.remove(k);
        assert(m0.dom() =~= m.dom().remove(k));
        lemma_held_none(m0, batch_id);
        lemma_held_insert(m0, k, m[k], batch_id);
        assert(m0.insert(k, m[k]) =~= m);
    }
}

/// Crediting a list of items adds their combined amount to the credits held
/// of the batch, and only writes balances of that batch.
proof fn lemma_credit_all_held(m: Map<(Seq<char>, u64), i128>, batch_id: u64, items: Seq<TransferItem>, other: u64)
    requires
        m.dom().finite(),
        credit_all(m, batch_id, items) is Some,
    ensures
        credit_all(m, batch_id, items)->Some_0.dom().finite(),
        forall|k: (Seq<char>, u64)| #[trigger]
            credit_all(m, batch_id, items)->Some_0.contains_key(k) ==> m.contains_key(k) || k.1
                == batch_id,
        held_in(credit_all(m, batch_id, items)->Some_0, batch_id) == held_in(m, batch_id)
            + sum_amounts(items),
        other != batch_id ==> held_in(credit_all(m, batch_id, items)->Some_0, other) == held_in(
            m,
            other,
        ),
    decreases items.len(),
{
    if items.len() > 0 {
        let t = items.drop_last();
        lemma_credit_all_held(m, batch_id, t, other);
        let m2 = credit_all(m, batch_id, t)->Some_0;
        let it = items.last();
        let v = (balance_in(m2, it.to@, batch_id) + it.amount) as i128;
        lemma_held_insert(m2, (it.to@, batch_id), v, batch_id);
        lemma_held_insert(m2, (it.to@, batch_id), v, other);
    }
}

/// A freshly deployed registry is accounted.
pub proof fn law_empty_ledger_is_accounted()
    ensures
        accounted(Ledger::empty()),
{
}

/// Every successful call keeps the accounting invariant: each credit of a
/// batch stays either held by an account or retired.
pub proof fn law_calls_preserve_accounting(l: Ledger, c: Call)
    requires
        l.wf(),
        accounted(l),
        step(l, c) is Ok,
    ensures
        accounted(step(l, c)->Ok_0),
{
    let l2 = step(l, c)->Ok_0;
    match c {
        Call::MintBatch { issuer, project_id, vintage, amount, price } => {
            let id = (l.batches.len() + 1) as u64;
            assert(!l.has_batch(id));
            lemma_held_none(l.balances, id);
            assert forall|j: u64| #[trigger] l2.has_batch(j) implies held_in(l2.balances, j)
                + l2.retired_of(j) == l2.batch(j).supply by {
                lemma_held_insert(l.balances, (issuer@, id), amount, j);
                if j != id {
                    assert(l.has_batch(j));
                    assert(l2.batches[j - 1] == l.batches[j - 1]);
                    assert(l2.retired[j - 1] == l.retired[j - 1]);
                } else {
                    assert(l2.batches[j - 1] == l2.batches.last());
                    assert(l2.retired[j - 1] == 0);
                }
            }
            lemma_held_insert(l.balances, (issuer@, id), amount, id);
        },
        Call::Retire { holder, batch_id, amount, beneficiary } => {
            let nb = (l.balance(holder@, batch_id) - amount) as i128;
            lemma_held_insert(l.balances, (holder@, batch_id), nb, batch_id);
            assert forall|j: u64| #[trigger] l2.has_batch(j) implies held_in(l2.balances, j)
                + l2.retired_of(j) == l2.batch(j).supply by {
                lemma_held_insert(l.balances, (holder@, batch_id), nb, j);
                assert(l.has_batch(j));
            }
        },
        Call::Transfer { from, to, batch_id, amount } => {
            let fb = l.balance(from@, batch_id);
            let tb = l.balance(to@, batch_id);
            let m1 = l.balances.insert((from@, batch_id), (fb - amount) as i128);
            assert forall|j: u64| #[trigger] l2.has_batch(j) implies held_in(l2.balances, j)
                + l2.retired_of(j) == l2.batch(j).supply by {
                lemma_held_insert(l.balances, (from@, batch_id), (fb - amount) as i128, j);
                lemma_held_insert(m1, (to@, batch_id), (tb + amount) as i128, j);
                assert(balance_in(m1, to@, batch_id) == tb);
                assert(l.has_batch(j));
            }
            lemma_held_insert(l.balances, (from@, batch_id), (fb - amount) as i128, batch_id);
            lemma_held_insert(m1, (to@, batch_id), (tb + amount) as i128, batch_id);
        },
        Call::Buy { buyer, batch_id, amount } if buyer@ == l.batch(batch_id).issuer@ => {
            assert forall|j: u64| #[trigger] l2.has_batch(j) implies held_in(l2.balances, j)
                + l2.retired_of(j) == l2.batch(j).supply by {
                assert(l.has_batch(j));
            }
        },
        Call::Buy { buyer, batch_id, amount } => {
            let seller = l.batch(batch_id).issuer;
            let fb = l.balance(seller@, batch_id);
            let tb = l.balance(buyer@, batch_id);
            let m1 = l.balances.insert((seller@, batch_id), (fb - amount) as i128);
            assert forall|j: u64| #[trigger] l2.has_batch(j) implies held_in(l2.balances, j)
                + l2.retired_of(j) == l2.batch(j).supply by {
                lemma_held_insert(l.balances, (seller@, batch_id), (fb - amount) as i128, j);
                lemma_held_insert(m1, (buyer@, batch_id), (tb + amount) as i128, j);
                assert(balance_in(m1, buyer@, batch_id) == tb);
                assert(l.has_batch(j));
            }
            lemma_held_insert(l.balances, (seller@, batch_id), (fb - amount) as i128, batch_id);
            lemma_held_insert(m1, (buyer@, batch_id), (tb + amount) as i128, batch_id);
        },
        Call::BatchTransfer { from, batch_id, recipients } => {
            lemma_items_total_ok(from@, recipients);
            lemma_items_total_is_sum(from@, recipients);
            let total = items_total(from@, recipients)->Ok_0;
            let fb = l.balance(from@, batch_id);
            let start = l.balances.insert((from@, batch_id), (fb - total) as i128);
            lemma_held_insert(l.balances, (from@, batch_id), (fb - total) as i128, batch_id);
            lemma_credit_all_held(start, batch_id, recipients, batch_id);
            assert forall|j: u64| #[trigger] l2.has_batch(j) implies held_in(l2.balances, j)
                + l2.retired_of(j) == l2.batch(j).supply by {
                lemma_held_insert(l.balances, (from@, batch_id), (fb - total) as i128, j);
                lemma_credit_all_held(start, batch_id, recipients, j);
                assert(l.has_batch(j));
            }
        },
        Call::List { batch_id, price } => {
            assert forall|j: u64| #[trigger] l2.has_batch(j) implies held_in(l2.balances, j)
                + l2.retired_of(j) == l2.batch(j).supply by {
                assert(l.has_batch(j));
                assert(l2.batches[j - 1].supply == l.batches[j - 1].supply);
            }
        },
        Call::Unlist { batch_id } => {
            assert forall|j: u64| #[trigger] l2.has_batch(j) implies held_in(l2.balances, j)
                + l2.retired_of(j) == l2.batch(j).supply by {
                assert(l.has_batch(j));
                assert(l2.batches[j - 1].supply == l.batches[j - 1].supply);
            }
        },
        _ => {
            assert forall|j: u64| #[trigger] l2.has_batch(j) implies held_in(l2.balances, j)
                + l2.retired_of(j) == l2.batch(j).supply by {
                assert(l.has_batch(j));
            }
        },
    }
}

proof fn lemma_held_nonnegative(m: Map<(Seq<char>, u64), i128>, batch_id: u64)
    requires
        m.dom().finite(),
        forall|k: (Seq<char>, u64)| #[trigger] m.contains_key(k) ==> m[k] >= 0,
    ensures
        held_in(m, batch_id) >= 0,
    decreases m.dom().len(),
{
    lemma_held_step_commutative(m, batch_id);
    if m.dom().len() == 0 {
        assert(m.dom() =~= Set::empty());
        lemma_fold_empty(0int, held_step(m, batch_id));
    } else {
        let k = m.dom().choose();
        let m0 = m.remove(k);
        assert(m0.dom() =~= m.dom().remove(k));
        lemma_held_nonnegative(m0, batch_id);
        lemma_held_insert(m0, k, m[k], batch_id);
        assert(m0.insert(k, m[k]) =~= m);
    }
}

/// In an accounted registry the circulating supply of a batch (its minted
/// supply minus what was retired) is exactly the credits its holders hold.
pub proof fn law_circulating_supply_is_held(l: Ledger, batch_id: u64)
    requires
        l.wf(),
        accounted(l),
        l.has_batch(batch_id),
    ensures
        l.circulating(batch_id) == Ok::<i128, Error>(
            held_in(l.balances, batch_id) as i128,
        ),
        held_in(l.balances, batch_id) >= 0,
{
    lemma_held_nonnegative(l.balances, batch_id);
    assert(l.retired[batch_id - 1] >= 0);
}

/// The registry after the calls `calls`, in order, from `l`; a refused call
/// changes nothing.
pub open spec fn run(l: Ledger, calls: Seq<Call>) -> Ledger
    decreases calls.len(),
{
    if calls.len() == 0 {
        l
    } else {
        let before = run(l, calls.drop_last());
        match step(before, calls.last()) {
            Ok(after) => after,
            Err(_) => before,
        }
    }
}

/// Every registry reached from a fresh deployment by any sequence of calls
/// keeps the invariant and the accounting: each batch's minted supply equals
/// the credits held of it plus the credits retired from it, and its
/// circulating supply is the credits held.
pub proof fn law_reachable_registries_are_accounted(calls: Seq<Call>)
    ensures
        run(Ledger::empty(), calls).wf(),
        accounted(run(Ledger::empty(), calls)),
    decreases calls.len(),
{
    if calls.len() > 0 {
        law_reachable_registries_are_accounted(calls.drop_last());
        let before = run(Ledger::empty(), calls.drop_last());
        if step(before, calls.last()) is Ok {
            law_calls_preserve_invariant(before, calls.last());
            law_calls_preserve_accounting(before, calls.last());
        }
    }
}

} // verus!
