//! The registry: its whole state and one method per entrypoint.

use vstd::prelude::*;

use crate::accounting::{accounted, law_calls_preserve_accounting, law_empty_ledger_is_accounted};
use crate::error::Error;
use crate::laws::law_calls_preserve_invariant;
use crate::ledger::{
    batch_transfer_step, buy_step, initialize_step, list_step, mint_step, reports, retire_step,
    set_admin_step, set_paused_step, transfer_step, unlist_step, Call, Ledger,
};
use crate::entry::{
    decide_batch_transfer, decide_list, decide_mint, decide_purchase, decide_retirement,
    decide_transfer,
};
use crate::math::checked_sub;
use crate::rules::{
    apply_credits, check_initialize, current_admin, debit_outcome, existing_batch, items_total,
    lemma_credit_all_is_plan, lemma_items_total_ok,
};
use crate::store::{balance_in, Holdings};
use crate::types::{
    self_beneficiary, Batch, ContractEvent, Listing, Retirement, TransferItem,
    STORAGE_SCHEMA_VERSION, VERSION,
};

verus! {

/// The CarbonMint registry: admin, pause flag, counters, batches, balances,
/// retirement certificates, and the events and authorizations of the calls
/// that succeeded.
///
/// Each state-changing method either applies its entrypoint's effect (the
/// matching `*_step` of [`crate::ledger`]) or returns the error that the
/// entrypoint is refused with and leaves the registry unchanged.
pub struct CarbonMintContract {
    admin: Option<String>,
    paused: bool,
    schema_version: u32,
    total_minted: i128,
    batches: Vec<Batch>,
    retired: Vec<i128>,
    certificates: Vec<Retirement>,
    holdings: Holdings,
    events: Vec<ContractEvent>,
    auths: Vec<String>,
}

impl View for CarbonMintContract {
    type V = Ledger;

    closed spec fn view(&self) -> Ledger {
        Ledger {
            admin: self.admin,
            paused: self.paused,
            schema_version: self.schema_version,
            total_minted: self.total_minted,
            batches: self.batches@,
            retired: self.retired@,
            certificates: self.certificates@,
            balances: self.holdings@,
            events: self.events@,
            auths: self.auths@,
        }
    }
}

impl CarbonMintContract {
    /// The registry's invariant: the ledger invariant, and every credit of
    /// each batch is held by an account or retired.
    pub closed spec fn wf(&self) -> bool {
        self.holdings.wf() && self@.wf() && accounted(self@)
    }

    /// What the invariant gives a holder of a registry.
    pub proof fn lemma_wf(&self)
        requires
            self.wf(),
        ensures
            self@.wf(),
            accounted(self@),
    {
    }

    /// A freshly deployed, uninitialized registry.
    pub fn new() -> (r: Self)
        ensures
            r.wf(),
            r@ == Ledger::empty(),
    {
        let r = CarbonMintContract {
            admin: None,
            paused: false,
            schema_version: 0,
            total_minted: 0,
            batches: Vec::new(),
            retired: Vec::new(),
            certificates: Vec::new(),
            holdings: Holdings::new(),
            events: Vec::new(),
            auths: Vec::new(),
        };
        assert(r@ =~= Ledger::empty());
        proof {
            law_empty_ledger_is_accounted();
        }
        r
    }

    /// The index of batch `batch_id` in the batch table.
    fn batch_index(&self, batch_id: u64) -> (r: Option<usize>)
        requires
            self.wf(),
        ensures
            match r {
                Some(i) => self@.has_batch(batch_id) && i == batch_id - 1,
                None => !self@.has_batch(batch_id),
            },
    {
        if batch_id >= 1 && batch_id <= self.batches.len() as u64 {
            Some((batch_id - 1) as usize)
        } else {
            None
        }
    }

    /// The index of certificate `cert_id` in the certificate table.
    fn certificate_index(&self, cert_id: u64) -> (r: Option<usize>)
        requires
            self.wf(),
        ensures
            match r {
                Some(i) => self@.has_certificate(cert_id) && i == cert_id - 1,
                None => !self@.has_certificate(cert_id),
            },
    {
        if cert_id >= 1 && cert_id <= self.certificates.len() as u64 {
            Some((cert_id - 1) as usize)
        } else {
            None
        }
    }

    /// Returns the registry logic version.
    pub fn version(&self) -> (r: u32)
        ensures
            r == VERSION,
    {
        VERSION
    }

    /// Returns the storage-layout version recorded by `initialize` (`0`
    /// before it).
    pub fn storage_schema_version(&self) -> (r: u32)
        ensures
            r == self@.schema_version,
    {
        self.schema_version
    }

    /// Initializes the registry with `admin`; a second call returns
    /// [`Error::AlreadyInitialized`].
    pub fn initialize(&mut self, admin: &String) -> (r: Result<(), Error>)
        requires
            old(self).wf(),
        ensures
            final(self).wf(),
            reports(r, initialize_step(old(self)@, *admin), old(self)@, final(self)@),
    {
        check_initialize(self.admin.is_some())?;
        self.admin = Some(admin.clone());
        self.schema_version = STORAGE_SCHEMA_VERSION;
        assert(self@ =~= initialize_step(old(self)@, *admin).unwrap());
        proof {
            law_calls_preserve_accounting(
                old(self)@,
                Call::Initialize { admin: *admin },
            );
        }
        Ok(())
    }

    /// Returns the registry admin, or [`Error::NotInitialized`].
    pub fn get_admin(&self) -> (r: Result<String, Error>)
        ensures
            r == (match self@.admin {
                Some(a) => Ok(a),
                None => Err(Error::NotInitialized),
            }),
    {
        let admin = current_admin(self.admin.as_ref())?;
        Ok(admin.clone())
    }

    /// Rotates the admin to `new_admin`; authorized by the current admin.
    pub fn set_admin(&mut self, new_admin: &String) -> (r: Result<(), Error>)
        requires
            old(self).wf(),
        ensures
            final(self).wf(),
            reports(r, set_admin_step(old(self)@, *new_admin), old(self)@, final(self)@),
    {
        let current = current_admin(self.admin.as_ref())?.clone();
        self.admin = Some(new_admin.clone());
        self.events.push(
            ContractEvent::AdminSet { old_admin: current.clone(), new_admin: new_admin.clone() },
        );
        self.auths.push(current);
        assert(self@ =~= set_admin_step(old(self)@, *new_admin).unwrap());
        proof {
            law_calls_preserve_accounting(
                old(self)@,
                Call::SetAdmin { new_admin: *new_admin },
            );
        }
        Ok(())
    }

    /// Pauses or resumes minting; authorized by the admin.
    pub fn set_paused(&mut self, paused: bool) -> (r: Result<(), Error>)
        requires
            old(self).wf(),
        ensures
            final(self).wf(),
            reports(r, set_paused_step(old(self)@, paused), old(self)@, final(self)@),
    {
        let admin = current_admin(self.admin.as_ref())?.clone();
        self.paused = paused;
        self.events.push(ContractEvent::PauseSet { admin: admin.clone(), paused });
        self.auths.push(admin);
        assert(self@ =~= set_paused_step(old(self)@, paused).unwrap());
        proof {
            law_calls_preserve_accounting(
                old(self)@,
                Call::SetPaused { paused },
            );
        }
        Ok(())
    }

    /// Returns whether minting is paused.
    pub fn is_paused(&self) -> (r: bool)
        ensures
            r == self@.paused,
    {
        self.paused
    }

    /// Mints a new batch listed at `price`, credits its `amount` to the
    /// issuer and returns its id; authorized by the issuer.
    pub fn mint_batch(
        &mut self,
        issuer: &String,
        project_id: &String,
        vintage: u32,
        amount: i128,
        price: i128,
    ) -> (r: Result<u64, Error>)
        requires
            old(self).wf(),
        ensures
            final(self).wf(),
            reports(
                r,
                mint_step(old(self)@, *issuer, *project_id, vintage, amount, price),
                old(self)@,
                final(self)@,
            ),
            r matches Ok(id) ==> id == old(self)@.batches.len() + 1,
    {
        let (id, total) = decide_mint(
            self.admin.is_some(),
            self.paused,
            self.batches.len() as u64,
            self.total_minted,
            amount,
            price,
        )?;
        let batch = Batch {
            id,
            issuer: issuer.clone(),
            project_id: project_id.clone(),
            vintage,
            supply: amount,
            price,
            listed: true,
        };
        self.batches.push(batch);
        self.retired.push(0);
        self.holdings.set_balance(issuer, id, amount);
        self.total_minted = total;
        self.events.push(ContractEvent::Minted { issuer: issuer.clone(), batch_id: id, amount });
        self.auths.push(issuer.clone());
        assert(self@ =~= mint_step(old(self)@, *issuer, *project_id, vintage, amount, price).unwrap());
        proof {
            law_calls_preserve_accounting(
                old(self)@,
                Call::MintBatch { issuer: *issuer, project_id: *project_id, vintage, amount, price },
            );
        }
        Ok(id)
    }

    /// Returns the record of batch `batch_id`, or [`Error::BatchNotFound`].
    pub fn get_batch(&self, batch_id: u64) -> (r: Result<Batch, Error>)
        requires
            self.wf(),
        ensures
            r == (if self@.has_batch(batch_id) {
                Ok(self@.batch(batch_id))
            } else {
                Err(Error::BatchNotFound)
            }),
    {
        let i = existing_batch(self.batch_index(batch_id))?;
        Ok(self.batches[i].clone())
    }

    /// Returns the credits `owner` holds of batch `batch_id` (zero when none).
    pub fn balance_of(&self, owner: &String, batch_id: u64) -> (r: i128)
        requires
            self.wf(),
        ensures
            r == self@.balance(owner@, batch_id),
    {
        self.holdings.balance(owner, batch_id)
    }

    /// Lists batch `batch_id` for sale at unit `price`; authorized by the
    /// issuer.
    pub fn list(&mut self, batch_id: u64, price: i128) -> (r: Result<(), Error>)
        requires
            old(self).wf(),
        ensures
            final(self).wf(),
            reports(r, list_step(old(self)@, batch_id, price), old(self)@, final(self)@),
    {
        let found = self.batch_index(batch_id);
        decide_list(found.is_some(), price)?;
        let i = existing_batch(found)?;
        let mut b = self.batches[i].clone();
        let issuer = b.issuer.clone();
        b.price = price;
        b.listed = true;
        self.batches.set(i, b);
        self.events.push(ContractEvent::Listed { issuer: issuer.clone(), batch_id, price });
        self.auths.push(issuer);
        assert(self@ =~= list_step(old(self)@, batch_id, price).unwrap());
        proof {
            law_calls_preserve_accounting(
                old(self)@,
                Call::List { batch_id, price },
            );
        }
        Ok(())
    }

    /// Removes batch `batch_id` from sale, keeping its price; authorized by
    /// the issuer.
    pub fn unlist(&mut self, batch_id: u64) -> (r: Result<(), Error>)
        requires
            old(self).wf(),
        ensures
            final(self).wf(),
            reports(r, unlist_step(old(self)@, batch_id), old(self)@, final(self)@),
    {
        let i = existing_batch(self.batch_index(batch_id))?;
        let mut b = self.batches[i].clone();
        let issuer = b.issuer.clone();
        b.listed = false;
        self.batches.set(i, b);
        self.events.push(ContractEvent::Delisted { issuer: issuer.clone(), batch_id });
        self.auths.push(issuer);
        assert(self@ =~= unlist_step(old(self)@, batch_id).unwrap());
        proof {
            law_calls_preserve_accounting(
                old(self)@,
                Call::Unlist { batch_id },
            );
        }
        Ok(())
    }

    /// Buys `amount` credits of batch `batch_id` from its issuer; the batch
    /// must be listed. Authorized by the buyer. An issuer buying from itself
    /// keeps its balance. Payment is not modelled: the quoted price is only
    /// reported in the `bought` event.
    pub fn buy(&mut self, buyer: &String, batch_id: u64, amount: i128) -> (r: Result<(), Error>)
        requires
            old(self).wf(),
        ensures
            final(self).wf(),
            reports(r, buy_step(old(self)@, *buyer, batch_id, amount), old(self)@, final(self)@),
    {
        let found = self.batch_index(batch_id);
        let (listed, seller, from_balance) = match found {
            Some(i) => {
                let seller = self.batches[i].issuer.clone();
                let from_balance = self.holdings.balance(&seller, batch_id);
                (Some(self.batches[i].listed), seller, from_balance)
            },
            None => (None, buyer.clone(), 0),
        };
        let to_balance = self.holdings.balance(buyer, batch_id);
        let (new_from, new_to) = decide_purchase(
            amount,
            listed,
            &seller,
            buyer,
            from_balance,
            to_balance,
        )?;
        let i = existing_batch(found)?;
        let price = self.batches[i].price;
        if *buyer != seller {
            self.holdings.set_balance(&seller, batch_id, new_from);
            self.holdings.set_balance(buyer, batch_id, new_to);
        }
        self.events.push(
            ContractEvent::Bought {
                buyer: buyer.clone(),
                seller: seller.clone(),
                batch_id,
                amount,
                price,
            },
        );
        self.auths.push(buyer.clone());
        assert(self@ =~= buy_step(old(self)@, *buyer, batch_id, amount).unwrap());
        proof {
            law_calls_preserve_accounting(
                old(self)@,
                Call::Buy { buyer: *buyer, batch_id, amount },
            );
        }
        Ok(())
    }

    /// Transfers `amount` credits of batch `batch_id` from `from` to `to`
    /// directly, bypassing the listing; authorized by `from`.
    pub fn transfer(&mut self, from: &String, to: &String, batch_id: u64, amount: i128) -> (r:
        Result<(), Error>)
        requires
            old(self).wf(),
        ensures
            final(self).wf(),
            reports(
                r,
                transfer_step(old(self)@, *from, *to, batch_id, amount),
                old(self)@,
                final(self)@,
            ),
    {
        let from_balance = self.holdings.balance(from, batch_id);
        let to_balance = self.holdings.balance(to, batch_id);
        let (new_from, new_to) = decide_transfer(
            amount,
            from,
            to,
            self.batch_index(batch_id).is_some(),
            from_balance,
            to_balance,
        )?;
        self.holdings.set_balance(from, batch_id, new_from);
        self.holdings.set_balance(to, batch_id, new_to);
        self.events.push(
            ContractEvent::Transferred { from: from.clone(), to: to.clone(), batch_id, amount },
        );
        self.auths.push(from.clone());
        assert(self@ =~= transfer_step(old(self)@, *from, *to, batch_id, amount).unwrap());
        proof {
            law_calls_preserve_accounting(
                old(self)@,
                Call::Transfer { from: *from, to: *to, batch_id, amount },
            );
        }
        Ok(())
    }

    /// Transfers credits of batch `batch_id` from `from` to each recipient,
    /// all or nothing: the combined amount is debited once, then each
    /// recipient is credited in order. Authorized by `from`.
    pub fn batch_transfer(&mut self, from: &String, batch_id: u64, recipients: &Vec<TransferItem>) -> (r:
        Result<(), Error>)
        requires
            old(self).wf(),
        ensures
            final(self).wf(),
            reports(
                r,
                batch_transfer_step(old(self)@, *from, batch_id, recipients@),
                old(self)@,
                final(self)@,
            ),
    {
        let found = self.batch_index(batch_id).is_some();
        let from_balance = self.holdings.balance(from, batch_id);
        let mut current: Vec<i128> = Vec::new();
        let mut i: usize = 0;
        while i < recipients.len()
            invariant
                i <= recipients@.len(),
                current@.len() == i,
                self.holdings.wf(),
                self.holdings@ == old(self).holdings@,
                forall|j: int|
                    0 <= j < i ==> current@[j] == balance_in(
                        self.holdings@,
                        #[trigger] recipients@[j].to@,
                        batch_id,
                    ),
            decreases recipients@.len() - i,
        {
            current.push(self.holdings.balance(&recipients[i].to, batch_id));
            i = i + 1;
        }
        let decision = decide_batch_transfer(from, found, recipients, from_balance, &current);
        proof {
            // Once the items are valid and the sender can pay, no item names
            // the sender, so each recipient's balance is the same after the
            // debit; crediting item by item is then writing the planned
            // balances.
            if items_total(from@, recipients@) is Ok && debit_outcome(
                from_balance,
                items_total(from@, recipients@)->Ok_0,
            ) is Ok {
                lemma_items_total_ok(from@, recipients@);
                let start = self.holdings@.insert(
                    (from@, batch_id),
                    debit_outcome(from_balance, items_total(from@, recipients@)->Ok_0)->Ok_0,
                );
                assert forall|j: int| 0 <= j < recipients@.len() implies current@[j] == balance_in(
                    start,
                    #[trigger] recipients@[j].to@,
                    batch_id,
                ) by {
                    assert(recipients@[j].to@ != from@);
                }
                lemma_credit_all_is_plan(
                    start,
                    batch_id,
                    recipients@,
                    current@,
                    recipients@.len() as int,
                );
                assert(recipients@.take(recipients@.len() as int) =~= recipients@);
                assert(current@.take(current@.len() as int) =~= current@);
            }
        }
        let (total, new_from, credited) = decision?;
        proof {
            lemma_items_total_ok(from@, recipients@);
        }
        let ghost start = self.holdings@.insert((from@, batch_id), new_from);
        self.holdings.set_balance(from, batch_id, new_from);
        let mut i: usize = 0;
        while i < recipients.len()
            invariant
                i <= recipients@.len(),
                credited@.len() == recipients@.len(),
                self.admin == old(self).admin,
                self.paused == old(self).paused,
                self.schema_version == old(self).schema_version,
                self.total_minted == old(self).total_minted,
                self.batches@ == old(self).batches@,
                self.retired@ == old(self).retired@,
                self.certificates@ == old(self).certificates@,
                self.events@ == old(self).events@,
                self.auths@ == old(self).auths@,
                self.holdings.wf(),
                self.holdings@ == apply_credits(
                    start,
                    batch_id,
                    recipients@.take(i as int),
                    credited@.take(i as int),
                ),
            decreases recipients@.len() - i,
        {
            assert(recipients@.take(i + 1).drop_last() =~= recipients@.take(i as int));
            assert(credited@.take(i + 1).drop_last() =~= credited@.take(i as int));
            assert(recipients@.take(i + 1).last() == recipients@[i as int]);
            self.holdings.set_balance(&recipients[i].to, batch_id, credited[i]);
            i = i + 1;
        }
        assert(credited@.take(credited@.len() as int) =~= credited@);
        self.events.push(
            ContractEvent::BatchTransferred {
                from: from.clone(),
                batch_id,
                count: recipients.len() as u32,
                total,
            },
        );
        self.auths.push(from.clone());
        assert(self@ =~= batch_transfer_step(old(self)@, *from, batch_id, recipients@).unwrap());
        proof {
            law_calls_preserve_invariant(
                old(self)@,
                Call::BatchTransfer { from: *from, batch_id, recipients: recipients@ },
            );
            law_calls_preserve_accounting(
                old(self)@,
                Call::BatchTransfer { from: *from, batch_id, recipients: recipients@ },
            );
        }
        Ok(())
    }

    /// Burns `amount` credits of batch `batch_id` held by `holder`, adds them
    /// to the batch's retired total and records a certificate naming
    /// `beneficiary`; returns the certificate id.
    fn retire_credits(&mut self, holder: &String, batch_id: u64, amount: i128, beneficiary: String) -> (r:
        Result<u64, Error>)
        requires
            old(self).wf(),
        ensures
            final(self).wf(),
            reports(
                r,
                retire_step(old(self)@, *holder, batch_id, amount, beneficiary),
                old(self)@,
                final(self)@,
            ),
            r matches Ok(id) ==> id == old(self)@.certificates.len() + 1,
    {
        let found = self.batch_index(batch_id);
        let balance = self.holdings.balance(holder, batch_id);
        let retired_before = match found {
            Some(i) => self.retired[i],
            None => 0,
        };
        let (new_balance, retired_total, cert_id) = decide_retirement(
            amount,
            found.is_some(),
            balance,
            retired_before,
            self.certificates.len() as u64,
        )?;
        let i = existing_batch(found)?;
        self.holdings.set_balance(holder, batch_id, new_balance);
        self.retired.set(i, retired_total);
        let ghost b = beneficiary;
        self.certificates.push(
            Retirement { id: cert_id, batch_id, holder: holder.clone(), amount, beneficiary },
        );
        self.events.push(
            ContractEvent::Retired {
                holder: holder.clone(),
                batch_id,
                amount,
                certificate_id: cert_id,
            },
        );
        self.auths.push(holder.clone());
        assert(self@ =~= retire_step(old(self)@, *holder, batch_id, amount, b).unwrap());
        proof {
            law_calls_preserve_accounting(
                old(self)@,
                Call::Retire { holder: *holder, batch_id, amount, beneficiary: b },
            );
        }
        Ok(cert_id)
    }

    /// Retires `amount` credits of batch `batch_id` held by `holder` on the
    /// holder's own behalf (the certificate's beneficiary is `"self"`) and
    /// returns the certificate id; authorized by the holder.
    pub fn retire(&mut self, holder: &String, batch_id: u64, amount: i128) -> (r: Result<u64, Error>)
        requires
            old(self).wf(),
        ensures
            final(self).wf(),
            exists|b: String|
                #![trigger b@]
                b@ == seq!['s', 'e', 'l', 'f'] && reports(
                    r,
                    retire_step(old(self)@, *holder, batch_id, amount, b),
                    old(self)@,
                    final(self)@,
                ),
            r matches Ok(id) ==> id == old(self)@.certificates.len() + 1,
    {
        let beneficiary = self_beneficiary();
        let ghost b = beneficiary;
        let r = self.retire_credits(holder, batch_id, amount, beneficiary);
        assert(b@ == seq!['s', 'e', 'l', 'f']);
        r
    }

    /// Retires `amount` credits of batch `batch_id` held by `holder` on
    /// behalf of `beneficiary` and returns the certificate id; authorized by
    /// the holder.
    pub fn retire_for(&mut self, holder: &String, batch_id: u64, amount: i128, beneficiary: &String) -> (r:
        Result<u64, Error>)
        requires
            old(self).wf(),
        ensures
            final(self).wf(),
            reports(
                r,
                retire_step(old(self)@, *holder, batch_id, amount, *beneficiary),
                old(self)@,
                final(self)@,
            ),
            r matches Ok(id) ==> id == old(self)@.certificates.len() + 1,
    {
        self.retire_credits(holder, batch_id, amount, beneficiary.clone())
    }

    /// Returns certificate `cert_id`, or [`Error::BatchNotFound`] when there
    /// is no such certificate.
    pub fn get_retirement(&self, cert_id: u64) -> (r: Result<Retirement, Error>)
        requires
            self.wf(),
        ensures
            r == (if self@.has_certificate(cert_id) {
                Ok(self@.certificates[cert_id - 1])
            } else {
                Err(Error::BatchNotFound)
            }),
    {
        let i = existing_batch(self.certificate_index(cert_id))?;
        Ok(self.certificates[i].clone())
    }

    /// Returns the credits retired from batch `batch_id` (zero when none).
    pub fn total_retired(&self, batch_id: u64) -> (r: i128)
        requires
            self.wf(),
        ensures
            r == self@.retired_of(batch_id),
    {
        match self.batch_index(batch_id) {
            Some(i) => self.retired[i],
            None => 0,
        }
    }

    /// Returns the number of batches minted, which is also the highest
    /// batch id.
    pub fn batch_count(&self) -> (r: u64)
        requires
            self.wf(),
        ensures
            r == self@.batches.len(),
    {
        self.batches.len() as u64
    }

    /// Returns the number of retirement certificates issued.
    pub fn retirement_count(&self) -> (r: u64)
        requires
            self.wf(),
        ensures
            r == self@.certificates.len(),
    {
        self.certificates.len() as u64
    }

    /// Returns the credits minted across all batches; retirements do not
    /// reduce it.
    pub fn total_minted(&self) -> (r: i128)
        ensures
            r == self@.total_minted,
    {
        self.total_minted
    }

    /// Returns whether batch `batch_id` is listed, or
    /// [`Error::BatchNotFound`].
    pub fn is_listed(&self, batch_id: u64) -> (r: Result<bool, Error>)
        requires
            self.wf(),
        ensures
            r == (if self@.has_batch(batch_id) {
                Ok(self@.batch(batch_id).listed)
            } else {
                Err(Error::BatchNotFound)
            }),
    {
        let i = existing_batch(self.batch_index(batch_id))?;
        Ok(self.batches[i].listed)
    }

    /// Returns the sale view of batch `batch_id`: seller, price, listed flag
    /// and the amount the seller still holds; or [`Error::BatchNotFound`].
    pub fn listing_info(&self, batch_id: u64) -> (r: Result<Listing, Error>)
        requires
            self.wf(),
        ensures
            match r {
                Ok(li) => {
                    let b = self@.batch(batch_id);
                    &&& self@.has_batch(batch_id)
                    &&& li.batch_id == batch_id
                    &&& li.seller == b.issuer
                    &&& li.price == b.price
                    &&& li.listed == b.listed
                    &&& li.available == self@.balance(b.issuer@, batch_id)
                },
                Err(e) => e == Error::BatchNotFound && !self@.has_batch(batch_id),
            },
    {
        let i = existing_batch(self.batch_index(batch_id))?;
        let b = &self.batches[i];
        let available = self.holdings.balance(&b.issuer, batch_id);
        Ok(
            Listing {
                batch_id,
                seller: b.issuer.clone(),
                price: b.price,
                listed: b.listed,
                available,
            },
        )
    }

    /// Returns the minted supply of batch `batch_id` minus the credits
    /// retired from it; [`Error::BatchNotFound`] for an unknown batch and
    /// [`Error::Overflow`] when the difference does not fit.
    pub fn circulating_supply(&self, batch_id: u64) -> (r: Result<i128, Error>)
        requires
            self.wf(),
        ensures
            r == self@.circulating(batch_id),
    {
        let i = existing_batch(self.batch_index(batch_id))?;
        checked_sub(self.batches[i].supply, self.retired[i])
    }

    /// The events published by the successful calls so far, oldest first.
    pub fn events(&self) -> (r: &Vec<ContractEvent>)
        ensures
            r@ == self@.events,
    {
        &self.events
    }

    /// The accounts whose authorization the successful calls required, in
    /// order.
    pub fn authorizations(&self) -> (r: &Vec<String>)
        ensures
            r@ == self@.auths,
    {
        &self.auths
    }
}

} // verus!
