//! A pooled-entry-fee competition ledger.
//!
//! Participants pay a fixed entry fee into a vault whose funds are held in an
//! escrow balance kept by the host. After the entry window has closed, the
//! vault's authority settles it once: the pot is split by integer percentages
//! among the winners and an optional protocol-fee recipient.
//!
//! The crate holds the state machine only. Every operation takes the vault's
//! state and a request and yields the next state together with the transfers
//! the host has to perform; the host supplies the clock, the caller's
//! identity and the movement of funds.
//!
//! - [`vault`]: the record of a pool and its invariant.
//! - [`creation`], [`entry`], [`settlement`]: the three operations.
//! - [`split`]: the arithmetic of percentage shares.
//! - [`layout`]: the stored form of a vault.
//! - [`laws`]: what holds across the operations.
//! - [`identity`], [`error`]: the parties, and why a request is rejected.

pub mod creation;
pub mod entry;
pub mod error;
pub mod identity;
pub mod laws;
pub mod layout;
pub mod settlement;
pub mod split;
pub mod vault;

pub use creation::{initialize_vault, InitializeVault};
pub use entry::{deposit_entry_fee, Deposit, DepositEntryFee};
pub use error::{ErrorCode, ErrorKind};
pub use identity::Identity;
pub use settlement::{distribute_prizes, DistributePrizes};
pub use split::{Payout, Share};
pub use vault::Vault;

