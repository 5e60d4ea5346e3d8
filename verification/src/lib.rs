//! # CarbonMint
//!
//! A tokenized carbon-credit registry and marketplace. Carbon credits are
//! tracked per batch in a semi-fungible manner: every credit of a batch is
//! interchangeable, and balances are keyed by `(owner, batch_id)`.
//!
//! The crate holds the registry's rules and state machine:
//!
//! * [`math`]: checked and saturating arithmetic that maps overflow to
//!   [`Error::Overflow`];
//! * [`rules`]: the decision points of the entrypoints, on plain values;
//! * [`entry`]: one decision per state-changing entrypoint, from the values
//!   it reads to the values it writes;
//! * [`contract`]: [`CarbonMintContract`], the whole registry state with one
//!   method per entrypoint, each specified against the abstract [`ledger`]
//!   model;
//! * [`ledger`]: the abstract registry state and the effect of each
//!   entrypoint on it;
//! * [`store`]: the balance table behind the `(owner, batch_id)` map;
//! * [`laws`] and [`accounting`]: properties that hold across entrypoints
//!   and calls, proved over the [`ledger`] model.
//!
//! Accounts are identified by their address text. A state-changing call
//! records the account whose authorization it requires; the platform that
//! runs the registry refuses the call when that account has not authorized
//! it.

pub mod error;
pub mod math;
pub mod types;
pub mod store;
pub mod rules;
pub mod entry;
pub mod ledger;
pub mod contract;
pub mod laws;
pub mod accounting;
pub mod acceptance;

pub use crate::error::Error;
pub use crate::contract::CarbonMintContract;
