//! Provenance of a confirmed ledger transaction.
//!
//! Given a confirmed transaction, the transaction that funded it and the block
//! that confirms it, this library works out which prior output paid for it,
//! which of its outputs went to the payee, which one is change, and what fee
//! was left to the miner. All amounts are integers in the smallest unit of the
//! currency; decimal text appears only when a report is rendered.

pub mod record;
pub mod error;
pub mod report;
pub mod fee;
pub mod classify;
pub mod reconstruct;
pub mod render;
pub mod session;
pub mod laws;
pub mod readback;

pub use classify::{classify, find_change, find_payment, Party};
pub use error::ReconstructError;
pub use fee::compute_fee;
pub use reconstruct::{reconstruct, settle, Settlement};
pub use record::{BlockRecord, Input, Output, TransactionRecord};
pub use render::{render_amount, render_decimal};
pub use report::TransactionReport;
pub use session::{begin, AwaitingBlock, AwaitingFunding};
