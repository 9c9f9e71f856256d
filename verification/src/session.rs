//! A reconstruction that reads the ledger as it goes.
//!
//! The library performs no reads itself. A reconstruction is a value that says
//! which record it needs next; the caller reads that record and hands back what
//! the ledger answered. Two reads are asked for, in this order: the
//! transaction that the input names, then the confirming block. A read that
//! fails ends the reconstruction at once.

use vstd::prelude::*;
use crate::error::ReconstructError;
use crate::reconstruct::{Settlement, SettlementView, report_of, settle, settlement_of};
use crate::record::{BlockRecord, BlockView, TransactionRecord, TransactionView};
use crate::report::{ReportView, TransactionReport};

verus! {

/// A reconstruction that waits for the transaction named by `funding_txid`.
#[derive(Clone, Debug, PartialEq, Eq)]
pub struct AwaitingFunding {
    /// The transaction under reconstruction.
    pub tx: TransactionRecord,
    /// Identifier of the block that confirms it.
    pub block_id: String,
    /// The address whose receipt tells the payment from the change.
    pub payee: String,
    /// Identifier of the transaction to read next.
    pub funding_txid: String,
}

/// A reconstruction that waits for the block named by `block_id`.
#[derive(Clone, Debug, PartialEq, Eq)]
pub struct AwaitingBlock {
    /// What the transaction and its funding transaction have settled.
    pub settlement: Settlement,
    /// Identifier of the block to read next.
    pub block_id: String,
}

/// The ledger as one reconstruction sees it: the records that a read returns,
/// by identifier. An identifier outside a domain stands for a read that fails.
pub struct LedgerView {
    pub transactions: Map<Seq<char>, TransactionView>,
    pub blocks: Map<Seq<char>, BlockView>,
}

/// What the ledger answers when asked for a transaction.
pub open spec fn read_transaction(ledger: LedgerView, txid: Seq<char>) -> Option<TransactionView> {
    if ledger.transactions.contains_key(txid) {
        Some(ledger.transactions[txid])
    } else {
        None
    }
}

/// What the ledger answers when asked for a block.
pub open spec fn read_block(ledger: LedgerView, block_id: Seq<char>) -> Option<BlockView> {
    if ledger.blocks.contains_key(block_id) {
        Some(ledger.blocks[block_id])
    } else {
        None
    }
}

/// The identifier of the transaction to read first, or the reason for which
/// nothing is read at all.
pub open spec fn funding_request(tx: TransactionView) -> Result<Seq<char>, ReconstructError> {
    if tx.inputs.len() != 1 {
        Err(ReconstructError::UnsupportedInputCount)
    } else {
        Ok(tx.inputs[0].prev_txid)
    }
}

/// Where a reconstruction stands once the ledger has answered the first read.
pub open spec fn after_funding(tx: TransactionView, payee: Seq<char>, reply: Option<TransactionView>) -> Result<SettlementView, ReconstructError> {
    match reply {
        None => Err(ReconstructError::LedgerAccessError),
        Some(prev) => settlement_of(tx, prev, payee),
    }
}

/// The outcome once the ledger has answered the second read.
pub open spec fn after_block(settlement: SettlementView, reply: Option<BlockView>) -> Result<ReportView, ReconstructError> {
    match reply {
        None => Err(ReconstructError::LedgerAccessError),
        Some(block) => Ok(report_of(settlement, block)),
    }
}

/// The outcome of a whole reconstruction of `tx` against `ledger`: each read is
/// made only if everything before it succeeded, and the block is read last.
pub open spec fn outcome_on(ledger: LedgerView, tx: TransactionView, block_id: Seq<char>, payee: Seq<char>) -> Result<ReportView, ReconstructError> {
    match funding_request(tx) {
        Err(e) => Err(e),
        Ok(funding_txid) => match after_funding(tx, payee, read_transaction(ledger, funding_txid)) {
            Err(e) => Err(e),
            Ok(settlement) => after_block(settlement, read_block(ledger, block_id)),
        },
    }
}

/// Starts the reconstruction of `tx`, which `block_id` confirms, for the payee
/// address `payee`. A transaction that does not spend exactly one input is
/// turned down before anything is read.
pub fn begin(tx: TransactionRecord, block_id: String, payee: String) -> (result: Result<AwaitingFunding, ReconstructError>)
    ensures
        match result {
            Ok(state) => {
                &&& funding_request(tx@) == Ok::<Seq<char>, ReconstructError>(state.funding_txid@)
                &&& state.tx == tx
                &&& state.block_id == block_id
                &&& state.payee == payee
            },
            Err(e) => funding_request(tx@) == Err::<Seq<char>, ReconstructError>(e),
        },
{
    if tx.inputs.len() != 1 {
        return Err(ReconstructError::UnsupportedInputCount);
    }
    let funding_txid = tx.inputs[0].prev_txid.clone();
    Ok(AwaitingFunding { tx, block_id, payee, funding_txid })
}

impl AwaitingFunding {
    /// Takes the ledger's answer to the read of `funding_txid`: `None` where
    /// the read failed. On success the reconstruction waits for the block.
    pub fn funding_read(self, reply: Option<TransactionRecord>) -> (result: Result<AwaitingBlock, ReconstructError>)
        ensures
            match result {
                Ok(next) => {
                    &&& after_funding(self.tx@, self.payee@, transaction_reply_view(reply)) == Ok::<SettlementView, ReconstructError>(next.settlement@)
                    &&& next.block_id == self.block_id
                },
                Err(e) => after_funding(self.tx@, self.payee@, transaction_reply_view(reply)) == Err::<SettlementView, ReconstructError>(e),
            },
    {
        match reply {
            None => Err(ReconstructError::LedgerAccessError),
            Some(prev) => match settle(&self.tx, &prev, self.payee.as_str()) {
                Ok(settlement) => Ok(AwaitingBlock { settlement, block_id: self.block_id }),
                Err(e) => Err(e),
            },
        }
    }
}

impl AwaitingBlock {
    /// Takes the ledger's answer to the read of `block_id`: `None` where the
    /// read failed. Nothing is read after this.
    pub fn block_read(self, reply: Option<BlockRecord>) -> (result: Result<TransactionReport, ReconstructError>)
        ensures
            match result {
                Ok(report) => after_block(self.settlement@, block_reply_view(reply)) == Ok::<ReportView, ReconstructError>(report@),
                Err(e) => after_block(self.settlement@, block_reply_view(reply)) == Err::<ReportView, ReconstructError>(e),
            },
    {
        match reply {
            None => Err(ReconstructError::LedgerAccessError),
            Some(block) => Ok(self.settlement.confirmed_in(&block)),
        }
    }
}

/// The view of what a read of a transaction returned.
pub open spec fn transaction_reply_view(reply: Option<TransactionRecord>) -> Option<TransactionView> {
    match reply {
        Some(record) => Some(record@),
        None => None,
    }
}

/// The view of what a read of a block returned.
pub open spec fn block_reply_view(reply: Option<BlockRecord>) -> Option<BlockView> {
    match reply {
        Some(record) => Some(record@),
        None => None,
    }
}

} // verus!
