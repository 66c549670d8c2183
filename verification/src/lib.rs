//! Proposal governance and multi-source price aggregation for a lending protocol on a
//! Soroban ledger.
//!
//! The two engines, [`Governance`] and [`Oracle`], work on explicit stores
//! ([`GovStorage`], [`OracleStorage`]) and on a clock reading handed in by the caller, so
//! that every transition is a function of its arguments. Who holds what is told by plain
//! [`Identity`] values. The host's own types appear where something is handed to the host
//! or kept for it: price sources are asked through the host environment and their
//! answers are collected in a host vector, storage keys are host symbols, and the title
//! of a proposal is a host text.

pub mod aggregation;
pub mod error;
pub mod flash_loan;
pub mod governance;
pub mod host;
pub mod identity;
pub mod oracle;
pub mod storage_keys;
pub mod table;

pub use error::ProtocolError;
pub use flash_loan::FlashLoan;
pub use governance::{GovStorage, Governance, Proposal, VoteReceipt};
pub use identity::{HolderKind, Identity};
pub use oracle::{Oracle, OracleSource, OracleStorage};
pub use storage_keys::StorageKey;
