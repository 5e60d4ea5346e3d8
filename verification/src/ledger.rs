//! The abstract registry state and the effect of each entrypoint on it.
//!
//! A [`Ledger`] is what the registry's storage holds, as mathematical
//! values: batch `i` is `batches[i - 1]`, certificate `i` is
//! `certificates[i - 1]`, and balances are a finite map keyed by
//! `(owner address, batch id)`. Each `*_step` function gives the outcome of
//! one entrypoint: the next ledger, or the error it is refused with (a
//! refused call changes nothing).

use vstd::prelude::*;

use crate::error::Error;
use crate::math::{fit_i128, fit_u64, sub_outcome};
use crate::rules::{credit_all, debit_outcome, items_total, move_plan, purchase_plan};
use crate::store::balance_in;
use crate::types::{
    Batch, ContractEvent, Retirement, TransferItem, MAX_RECIPIENTS, STORAGE_SCHEMA_VERSION,
};

verus! {

/// The abstract state of the registry.
#[verifier::ext_equal]
pub struct Ledger {
    /// The registry admin; `None` before `initialize`.
    pub admin: Option<String>,
    /// Whether minting is paused.
    pub paused: bool,
    /// The storage-layout version recorded by `initialize` (`0` before).
    pub schema_version: u32,
    /// Cumulative credits minted across all batches.
    pub total_minted: i128,
    /// The batch records; batch `i` is at index `i - 1`.
    pub batches: Seq<Batch>,
    /// Credits retired per batch; batch `i`'s total is at index `i - 1`.
    pub retired: Seq<i128>,
    /// The retirement certificates; certificate `i` is at index `i - 1`.
    pub certificates: Seq<Retirement>,
    /// Balances keyed by `(owner address, batch id)`.
    pub balances: Map<(Seq<char>, u64), i128>,
    /// The events published so far, oldest first.
    pub events: Seq<ContractEvent>,
    /// The accounts whose authorization the successful calls required, in
    /// order.
    pub auths: Seq<String>,
}

impl Ledger {
    /// The state of a freshly deployed registry.
    pub open spec fn empty() -> Ledger {
        Ledger {
            admin: None,
            paused: false,
            schema_version: 0,
            total_minted: 0,
            batches: Seq::empty(),
            retired: Seq::empty(),
            certificates: Seq::empty(),
            balances: Map::empty(),
            events: Seq::empty(),
            auths: Seq::empty(),
        }
    }

    /// The registry's invariant: ids are dense and match positions, every
    /// batch has a retired total, balances and retired totals are never
    /// negative.
    pub open spec fn wf(self) -> bool {
        &&& self.retired.len() == self.batches.len()
        &&& self.batches.len() <= u64::MAX
        &&& self.certificates.len() <= u64::MAX
        &&& forall|i: int| 0 <= i < self.batches.len() ==> (#[trigger] self.batches[i]).id == i + 1
        &&& forall|i: int|
            0 <= i < self.certificates.len() ==> (#[trigger] self.certificates[i]).id == i + 1
        &&& forall|k: (Seq<char>, u64)| #[trigger]
            self.balances.contains_key(k) ==> self.balances[k] >= 0
        &&& forall|i: int| 0 <= i < self.retired.len() ==> #[trigger] self.retired[i] >= 0
    }

    /// Whether batch `batch_id` exists.
    pub open spec fn has_batch(self, batch_id: u64) -> bool {
        1 <= batch_id <= self.batches.len()
    }

    /// The record of batch `batch_id` (meaningful when it exists).
    pub open spec fn batch(self, batch_id: u64) -> Batch {
        self.batches[batch_id - 1]
    }

    /// Whether certificate `cert_id` exists.
    pub open spec fn has_certificate(self, cert_id: u64) -> bool {
        1 <= cert_id <= self.certificates.len()
    }

    /// The balance of `owner` for `batch_id`; zero when never written.
    pub open spec fn balance(self, owner: Seq<char>, batch_id: u64) -> i128 {
        balance_in(self.balances, owner, batch_id)
    }

    /// The credits retired from batch `batch_id`; zero for unknown batches.
    pub open spec fn retired_of(self, batch_id: u64) -> i128 {
        if self.has_batch(batch_id) {
            self.retired[batch_id - 1]
        } else {
            0
        }
    }

    /// The minted supply of a batch minus what has been retired from it.
    pub open spec fn circulating(self, batch_id: u64) -> Result<i128, Error> {
        if !self.has_batch(batch_id) {
            Err(Error::BatchNotFound)
        } else {
            sub_outcome(self.batch(batch_id).supply as int, self.retired_of(batch_id) as int)
        }
    }
}

/// `initialize(admin)`: records the admin and the storage-layout version.
pub open spec fn initialize_step(l: Ledger, admin: String) -> Result<Ledger, Error> {
    if l.admin is Some {
        Err(Error::AlreadyInitialized)
    } else {
        Ok(Ledger { admin: Some(admin), schema_version: STORAGE_SCHEMA_VERSION, ..l })
    }
}

/// `set_admin(new_admin)`: the current admin hands over the role.
pub open spec fn set_admin_step(l: Ledger, new_admin: String) -> Result<Ledger, Error> {
    match l.admin {
        None => Err(Error::NotInitialized),
        Some(current) => Ok(
            Ledger {
                admin: Some(new_admin),
                events: l.events.push(ContractEvent::AdminSet { old_admin: current, new_admin }),
                auths: l.auths.push(current),
                ..l
            },
        ),
    }
}

/// `set_paused(paused)`: the admin pauses or resumes minting.
pub open spec fn set_paused_step(l: Ledger, paused: bool) -> Result<Ledger, Error> {
    match l.admin {
        None => Err(Error::NotInitialized),
        Some(admin) => Ok(
            Ledger {
                paused,
                events: l.events.push(ContractEvent::PauseSet { admin, paused }),
                auths: l.auths.push(admin),
                ..l
            },
        ),
    }
}

/// `mint_batch(...)`: registers the next batch, listed at `price`, and
/// credits its whole supply to the issuer.
pub open spec fn mint_step(
    l: Ledger,
    issuer: String,
    project_id: String,
    vintage: u32,
    amount: i128,
    price: i128,
) -> Result<Ledger, Error> {
    if l.admin is None {
        Err(Error::NotInitialized)
    } else if l.paused {
        Err(Error::Paused)
    } else if amount <= 0 || price < 0 {
        Err(Error::InvalidAmount)
    } else {
        match fit_u64(l.batches.len() + 1int) {
            Err(e) => Err(e),
            Ok(id) => match fit_i128(l.total_minted + amount) {
                Err(e) => Err(e),
                Ok(total) => Ok(
                    Ledger {
                        total_minted: total,
                        batches: l.batches.push(
                            Batch {
                                id,
                                issuer,
                                project_id,
                                vintage,
                                supply: amount,
                                price,
                                listed: true,
                            },
                        ),
                        retired: l.retired.push(0),
                        balances: l.balances.insert((issuer@, id), amount),
                        events: l.events.push(
                            ContractEvent::Minted { issuer, batch_id: id, amount },
                        ),
                        auths: l.auths.push(issuer),
                        ..l
                    },
                ),
            },
        }
    }
}

/// `list(batch_id, price)`: the issuer lists or reprices a batch.
pub open spec fn list_step(l: Ledger, batch_id: u64, price: i128) -> Result<Ledger, Error> {
    if !l.has_batch(batch_id) {
        Err(Error::BatchNotFound)
    } else if price < 0 {
        Err(Error::InvalidAmount)
    } else {
        let b = l.batch(batch_id);
        Ok(
            Ledger {
                batches: l.batches.update(batch_id - 1, Batch { price, listed: true, ..b }),
                events: l.events.push(
                    ContractEvent::Listed { issuer: b.issuer, batch_id, price },
                ),
                auths: l.auths.push(b.issuer),
                ..l
            },
        )
    }
}

/// `unlist(batch_id)`: the issuer removes a batch from sale, keeping its
/// price.
pub open spec fn unlist_step(l: Ledger, batch_id: u64) -> Result<Ledger, Error> {
    if !l.has_batch(batch_id) {
        Err(Error::BatchNotFound)
    } else {
        let b = l.batch(batch_id);
        Ok(
            Ledger {
                batches: l.batches.update(batch_id - 1, Batch { listed: false, ..b }),
                events: l.events.push(ContractEvent::Delisted { issuer: b.issuer, batch_id }),
                auths: l.auths.push(b.issuer),
                ..l
            },
        )
    }
}

/// `buy(buyer, batch_id, amount)`: moves credits from the issuer (seller) to
/// the buyer; an issuer buying from itself keeps its balance.
pub open spec fn buy_step(l: Ledger, buyer: String, batch_id: u64, amount: i128) -> Result<Ledger, Error> {
    if amount <= 0 {
        Err(Error::InvalidAmount)
    } else if !l.has_batch(batch_id) {
        Err(Error::BatchNotFound)
    } else if !l.batch(batch_id).listed {
        Err(Error::NotListed)
    } else {
        let b = l.batch(batch_id);
        let seller = b.issuer;
        match purchase_plan(
            l.balance(seller@, batch_id),
            l.balance(buyer@, batch_id),
            amount,
            buyer@ == seller@,
        ) {
            Err(e) => Err(e),
            Ok((new_from, new_to)) => Ok(
                Ledger {
                    balances: if buyer@ == seller@ {
                        l.balances
                    } else {
                        l.balances.insert((seller@, batch_id), new_from).insert(
                            (buyer@, batch_id),
                            new_to,
                        )
                    },
                    events: l.events.push(
                        ContractEvent::Bought { buyer, seller, batch_id, amount, price: b.price },
                    ),
                    auths: l.auths.push(buyer),
                    ..l
                },
            ),
        }
    }
}

/// `transfer(from, to, batch_id, amount)`: moves credits between holders
/// directly.
pub open spec fn transfer_step(
    l: Ledger,
    from: String,
    to: String,
    batch_id: u64,
    amount: i128,
) -> Result<Ledger, Error> {
    if amount <= 0 {
        Err(Error::InvalidAmount)
    } else if from@ == to@ {
        Err(Error::SameAccount)
    } else if !l.has_batch(batch_id) {
        Err(Error::BatchNotFound)
    } else {
        match move_plan(l.balance(from@, batch_id), l.balance(to@, batch_id), amount) {
            Err(e) => Err(e),
            Ok((new_from, new_to)) => Ok(
                Ledger {
                    balances: l.balances.insert((from@, batch_id), new_from).insert(
                        (to@, batch_id),
                        new_to,
                    ),
                    events: l.events.push(
                        ContractEvent::Transferred { from, to, batch_id, amount },
                    ),
                    auths: l.auths.push(from),
                    ..l
                },
            ),
        }
    }
}

/// `batch_transfer(from, batch_id, recipients)`: debits the combined amount
/// from the sender once, then credits each recipient in order; all or
/// nothing.
pub open spec fn batch_transfer_step(
    l: Ledger,
    from: String,
    batch_id: u64,
    recipients: Seq<TransferItem>,
) -> Result<Ledger, Error> {
    if recipients.len() == 0 || recipients.len() > MAX_RECIPIENTS {
        Err(Error::TooManyRecipients)
    } else if !l.has_batch(batch_id) {
        Err(Error::BatchNotFound)
    } else {
        match items_total(from@, recipients) {
            Err(e) => Err(e),
            Ok(total) => match debit_outcome(l.balance(from@, batch_id), total) {
                Err(e) => Err(e),
                Ok(new_from) => match credit_all(
                    l.balances.insert((from@, batch_id), new_from),
                    batch_id,
                    recipients,
                ) {
                    None => Err(Error::Overflow),
                    Some(m) => Ok(
                        Ledger {
                            balances: m,
                            events: l.events.push(
                                ContractEvent::BatchTransferred {
                                    from,
                                    batch_id,
                                    count: recipients.len() as u32,
                                    total,
                                },
                            ),
                            auths: l.auths.push(from),
                            ..l
                        },
                    ),
                },
            },
        }
    }
}

/// `retire` / `retire_for`: burns credits of the holder, adds them to the
/// batch's retired total and issues the next certificate.
pub open spec fn retire_step(
    l: Ledger,
    holder: String,
    batch_id: u64,
    amount: i128,
    beneficiary: String,
) -> Result<Ledger, Error> {
    if amount <= 0 {
        Err(Error::InvalidAmount)
    } else if !l.has_batch(batch_id) {
        Err(Error::BatchNotFound)
    } else {
        match debit_outcome(l.balance(holder@, batch_id), amount) {
            Err(e) => Err(e),
            Ok(new_balance) => match fit_i128(l.retired_of(batch_id) + amount) {
                Err(e) => Err(e),
                Ok(retired_total) => match fit_u64(l.certificates.len() + 1int) {
                    Err(e) => Err(e),
                    Ok(cert_id) => Ok(
                        Ledger {
                            balances: l.balances.insert((holder@, batch_id), new_balance),
                            retired: l.retired.update(batch_id - 1, retired_total),
                            certificates: l.certificates.push(
                                Retirement { id: cert_id, batch_id, holder, amount, beneficiary },
                            ),
                            events: l.events.push(
                                ContractEvent::Retired {
                                    holder,
                                    batch_id,
                                    amount,
                                    certificate_id: cert_id,
                                },
                            ),
                            auths: l.auths.push(holder),
                            ..l
                        },
                    ),
                },
            },
        }
    }
}

/// `r` reports `outcome`: on success the state became the outcome's ledger,
/// on refusal `r` carries the outcome's error and the state is unchanged.
pub open spec fn reports<T>(r: Result<T, Error>, outcome: Result<Ledger, Error>, before: Ledger, after: Ledger) -> bool {
    match outcome {
        Ok(l) => r is Ok && after == l,
        Err(e) => r matches Err(x) && x == e && after == before,
    }
}

/// A state-changing entrypoint call with its arguments.
pub enum Call {
    Initialize { admin: String },
    SetAdmin { new_admin: String },
    SetPaused { paused: bool },
    MintBatch { issuer: String, project_id: String, vintage: u32, amount: i128, price: i128 },
    List { batch_id: u64, price: i128 },
    Unlist { batch_id: u64 },
    Buy { buyer: String, batch_id: u64, amount: i128 },
    Transfer { from: String, to: String, batch_id: u64, amount: i128 },
    BatchTransfer { from: String, batch_id: u64, recipients: Seq<TransferItem> },
    Retire { holder: String, batch_id: u64, amount: i128, beneficiary: String },
}

/// The outcome of any state-changing call.
pub open spec fn step(l: Ledger, c: Call) -> Result<Ledger, Error> {
    match c {
        Call::Initialize { admin } => initialize_step(l, admin),
        Call::SetAdmin { new_admin } => set_admin_step(l, new_admin),
        Call::SetPaused { paused } => set_paused_step(l, paused),
        Call::MintBatch { issuer, project_id, vintage, amount, price } => mint_step(
            l,
            issuer,
            project_id,
            vintage,
            amount,
            price,
        ),
        Call::List { batch_id, price } => list_step(l, batch_id, price),
        Call::Unlist { batch_id } => unlist_step(l, batch_id),
        Call::Buy { buyer, batch_id, amount } => buy_step(l, buyer, batch_id, amount),
        Call::Transfer { from, to, batch_id, amount } => transfer_step(
            l,
            from,
            to,
            batch_id,
            amount,
        ),
        Call::BatchTransfer { from, batch_id, recipients } => batch_transfer_step(
            l,
            from,
            batch_id,
            recipients,
        ),
        Call::Retire { holder, batch_id, amount, beneficiary } => retire_step(
            l,
            holder,
            batch_id,
            amount,
            beneficiary,
        ),
    }
}

} // verus!
