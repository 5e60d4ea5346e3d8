//! The balance table: one entry per `(owner, batch_id)` that has ever been
//! written, viewed as a finite map from `(owner address, batch id)` to the
//! balance.

use vstd::prelude::*;

verus! {

/// One written balance.
pub struct Holding {
    /// The owning account.
    pub owner: String,
    /// The batch the credits belong to.
    pub batch_id: u64,
    /// The number of credits held.
    pub amount: i128,
}

/// The map key under which a holding is found.
pub open spec fn holding_key(h: Holding) -> (Seq<char>, u64) {
    (h.owner@, h.batch_id)
}

/// The balances recorded by a sequence of holdings (a later entry for the
/// same key wins, though a well-formed table never repeats a key).
pub open spec fn holdings_map(s: Seq<Holding>) -> Map<(Seq<char>, u64), i128>
    decreases s.len(),
{
    if s.len() == 0 {
        Map::empty()
    } else {
        holdings_map(s.drop_last()).insert(holding_key(s.last()), s.last().amount)
    }
}

/// No two holdings share a key.
pub open spec fn keys_distinct(s: Seq<Holding>) -> bool {
    forall|i: int, j: int|
        0 <= i < s.len() && 0 <= j < s.len() && i != j ==> holding_key(s[i]) != holding_key(s[j])
}

/// The balance of `owner` for `batch_id` in `m`, zero when never written.
pub open spec fn balance_in(m: Map<(Seq<char>, u64), i128>, owner: Seq<char>, batch_id: u64) -> i128 {
    if m.contains_key((owner, batch_id)) {
        m[(owner, batch_id)]
    } else {
        0
    }
}

proof fn lemma_lookup(s: Seq<Holding>, i: int)
    requires
        keys_distinct(s),
        0 <= i < s.len(),
    ensures
        holdings_map(s).contains_key(holding_key(s[i])),
        holdings_map(s)[holding_key(s[i])] == s[i].amount,
    decreases s.len(),
{
    if i < s.len() - 1 {
        let t = s.drop_last();
        assert(t[i] == s[i]);
        assert(keys_distinct(t)) by {
            assert forall|a: int, b: int|
                0 <= a < t.len() && 0 <= b < t.len() && a != b implies holding_key(t[a])
                != holding_key(t[b]) by {
                assert(t[a] == s[a] && t[b] == s[b]);
            }
        }
        lemma_lookup(t, i);
        assert(holding_key(s[i]) != holding_key(s.last()));
    }
}

proof fn lemma_absent(s: Seq<Holding>, k: (Seq<char>, u64))
    requires
        forall|i: int| 0 <= i < s.len() ==> holding_key(#[trigger] s[i]) != k,
    ensures
        !holdings_map(s).contains_key(k),
    decreases s.len(),
{
    if s.len() > 0 {
        let t = s.drop_last();
        assert forall|i: int| 0 <= i < t.len() implies holding_key(#[trigger] t[i]) != k by {
            assert(t[i] == s[i]);
        }
        lemma_absent(t, k);
        assert(holding_key(s[s.len() - 1]) != k);
    }
}

proof fn lemma_update(s: Seq<Holding>, i: int, h: Holding)
    requires
        keys_distinct(s),
        0 <= i < s.len(),
        holding_key(h) == holding_key(s[i]),
    ensures
        holdings_map(s.update(i, h)) =~= holdings_map(s).insert(holding_key(h), h.amount),
    decreases s.len(),
{
    let u = s.update(i, h);
    let t = s.drop_last();
    if i == s.len() - 1 {
        assert(u.drop_last() =~= t);
    } else {
        assert(u.drop_last() =~= t.update(i, h));
        assert(keys_distinct(t)) by {
            assert forall|a: int, b: int|
                0 <= a < t.len() && 0 <= b < t.len() && a != b implies holding_key(t[a])
                != holding_key(t[b]) by {
                assert(t[a] == s[a] && t[b] == s[b]);
            }
        }
        lemma_update(t, i, h);
        assert(holding_key(s[i]) != holding_key(s.last()));
    }
}

/// The balance table.
pub struct Holdings {
    entries: Vec<Holding>,
}

impl View for Holdings {
    type V = Map<(Seq<char>, u64), i128>;

    closed spec fn view(&self) -> Map<(Seq<char>, u64), i128> {
        holdings_map(self.entries@)
    }
}

impl Holdings {
    /// The table never holds two entries for the same key.
    pub closed spec fn wf(&self) -> bool {
        keys_distinct(self.entries@)
    }

    /// An empty table.
    pub fn new() -> (r: Self)
        ensures
            r.wf(),
            r@ == Map::<(Seq<char>, u64), i128>::empty(),
    {
        Holdings { entries: Vec::new() }
    }

    /// The index of the entry for `(owner, batch_id)`, if there is one.
    fn find(&self, owner: &String, batch_id: u64) -> (r: Option<usize>)
        requires
            self.wf(),
        ensures
            match r {
                Some(i) => i < self.entries@.len() && holding_key(self.entries@[i as int]) == (
                owner@, batch_id),
                None => forall|i: int|
                    0 <= i < self.entries@.len() ==> holding_key(#[trigger] self.entries@[i]) != (
                    owner@, batch_id),
            },
    {
        let mut i: usize = 0;
        while i < self.entries.len()
            invariant
                i <= self.entries@.len(),
                forall|j: int|
                    0 <= j < i ==> holding_key(#[trigger] self.entries@[j]) != (owner@, batch_id),
            decreases self.entries@.len() - i,
        {
            let e = &self.entries[i];
            if e.batch_id == batch_id && e.owner == *owner {
                return Some(i);
            }
            i = i + 1;
        }
        None
    }

    /// The balance of `owner` for `batch_id`; zero when never written.
    pub fn balance(&self, owner: &String, batch_id: u64) -> (r: i128)
        requires
            self.wf(),
        ensures
            r == balance_in(self@, owner@, batch_id),
    {
        match self.find(owner, batch_id) {
            Some(i) => {
                proof {
                    lemma_lookup(self.entries@, i as int);
                }
                self.entries[i].amount
            },
            None => {
                proof {
                    lemma_absent(self.entries@, (owner@, batch_id));
                }
                0
            },
        }
    }

    /// Records `amount` as the balance of `owner` for `batch_id`.
    pub fn set_balance(&mut self, owner: &String, batch_id: u64, amount: i128)
        requires
            old(self).wf(),
        ensures
            final(self).wf(),
            final(self)@ == old(self)@.insert((owner@, batch_id), amount),
    {
        let h = Holding { owner: owner.clone(), batch_id, amount };
        match self.find(owner, batch_id) {
            Some(i) => {
                proof {
                    lemma_update(self.entries@, i as int, h);
                }
                self.entries.set(i, h);
                assert(keys_distinct(self.entries@)) by {
                    assert forall|a: int, b: int|
                        0 <= a < self.entries@.len() && 0 <= b < self.entries@.len() && a
                            != b implies holding_key(self.entries@[a]) != holding_key(
                        self.entries@[b],
                    ) by {
                        assert(a != i ==> self.entries@[a] == old(self).entries@[a]);
                        assert(b != i ==> self.entries@[b] == old(self).entries@[b]);
                    }
                }
            },
            None => {
                let ghost before = self.entries@;
                self.entries.push(h);
                assert(self.entries@.drop_last() =~= before);
                assert(keys_distinct(self.entries@)) by {
                    assert forall|a: int, b: int|
                        0 <= a < self.entries@.len() && 0 <= b < self.entries@.len() && a
                            != b implies holding_key(self.entries@[a]) != holding_key(
                        self.entries@[b],
                    ) by {
                        if a < before.len() {
                            assert(self.entries@[a] == before[a]);
                        }
                        if b < before.len() {
                            assert(self.entries@[b] == before[b]);
                        }
                    }
                }
            },
        }
    }
}

} // verus!
