//! Records kept by the registry and the events it publishes.
//!
//! Accounts are identified by their address text (a Stellar strkey such as
//! `G...` or `C...`); two accounts are the same exactly when their address
//! texts are equal.

use vstd::prelude::*;

verus! {

/// Monotonic version of the registry logic.
pub const VERSION: u32 = 3;

/// Version of the storage layout written by `initialize`.
pub const STORAGE_SCHEMA_VERSION: u32 = 1;

/// Maximum number of recipients of a single batch transfer.
pub const MAX_RECIPIENTS: u32 = 50;

/// A registered batch of carbon credits.
///
/// Every credit within the same batch is interchangeable, while credits from
/// different batches are tracked separately.
#[derive(Debug)]
pub struct Batch {
    /// Unique identifier assigned at mint time (the first batch is `1`).
    pub id: u64,
    /// The account that issued the batch; it is also the seller.
    pub issuer: String,
    /// Human-readable project identifier the credits originate from.
    pub project_id: String,
    /// Vintage year of the credits (e.g. 2024).
    pub vintage: u32,
    /// Total amount of credits originally minted for this batch.
    pub supply: i128,
    /// Current listed unit price.
    pub price: i128,
    /// Whether the batch is currently listed for sale.
    pub listed: bool,
}

impl Clone for Batch {
    fn clone(&self) -> (r: Self)
        ensures
            r == *self,
    {
        Batch {
            id: self.id,
            issuer: self.issuer.clone(),
            project_id: self.project_id.clone(),
            vintage: self.vintage,
            supply: self.supply,
            price: self.price,
            listed: self.listed,
        }
    }
}

/// A compact view of a batch's marketplace listing.
#[derive(Debug)]
pub struct Listing {
    /// The batch the listing refers to.
    pub batch_id: u64,
    /// The account offering the credits (the batch issuer).
    pub seller: String,
    /// The current unit price.
    pub price: i128,
    /// Whether the batch is currently listed for sale.
    pub listed: bool,
    /// The amount of credits the seller still holds.
    pub available: i128,
}

/// A retirement certificate recording the permanent burning of credits.
#[derive(Debug)]
pub struct Retirement {
    /// Unique certificate identifier (the first certificate is `1`).
    pub id: u64,
    /// The batch the retired credits belong to.
    pub batch_id: u64,
    /// The holder that retired the credits.
    pub holder: String,
    /// The amount of credits retired.
    pub amount: i128,
    /// The beneficiary the retirement is claimed for; `"self"` when the
    /// holder retired on their own behalf.
    pub beneficiary: String,
}

impl Clone for Retirement {
    fn clone(&self) -> (r: Self)
        ensures
            r == *self,
    {
        Retirement {
            id: self.id,
            batch_id: self.batch_id,
            holder: self.holder.clone(),
            amount: self.amount,
            beneficiary: self.beneficiary.clone(),
        }
    }
}

/// One recipient of a batch transfer.
#[derive(Debug)]
pub struct TransferItem {
    /// The receiving account.
    pub to: String,
    /// The amount of credits it receives.
    pub amount: i128,
}

/// An event published by a successful state-changing entrypoint.
#[derive(Debug)]
pub enum ContractEvent {
    /// A batch was minted (`minted`).
    Minted { issuer: String, batch_id: u64, amount: i128 },
    /// A batch was listed or repriced (`listed`).
    Listed { issuer: String, batch_id: u64, price: i128 },
    /// A batch was removed from sale (`delisted`).
    Delisted { issuer: String, batch_id: u64 },
    /// Credits were bought from the seller (`bought`).
    Bought { buyer: String, seller: String, batch_id: u64, amount: i128, price: i128 },
    /// Credits were transferred directly (`transfer`).
    Transferred { from: String, to: String, batch_id: u64, amount: i128 },
    /// Credits were transferred to several recipients (`batch_xfr`).
    BatchTransferred { from: String, batch_id: u64, count: u32, total: i128 },
    /// Credits were retired under a certificate (`retired`).
    Retired { holder: String, batch_id: u64, amount: i128, certificate_id: u64 },
    /// Minting was paused or resumed (`paused`).
    PauseSet { admin: String, paused: bool },
    /// The admin was rotated (`adminset`).
    AdminSet { old_admin: String, new_admin: String },
}

/// The beneficiary recorded when a holder retires credits for themselves.
pub fn self_beneficiary() -> (s: String)
    ensures
        s@ == seq!['s', 'e', 'l', 'f'],
{
    let s = String::from_str("self");
    proof {
        reveal_strlit("self");
    }
    s
}

} // verus!
