//! From a transaction and the transaction that funded it to a report.

use vstd::prelude::*;
use crate::classify::{Party, change_position, find_first, payment_position};
use crate::error::ReconstructError;
use crate::fee::{compute_fee, fee_of};
use crate::record::{BlockRecord, BlockView, OutputView, TransactionRecord, TransactionView};
use crate::report::{ReportView, TransactionReport};

verus! {

/// Everything a report says apart from the confirming block: what is known
/// once the funding transaction has been read.
#[derive(Clone, Debug, PartialEq, Eq)]
pub struct Settlement {
    pub txid: String,
    pub input_address: String,
    pub input_amount: u64,
    pub payee_address: String,
    pub payee_amount: u64,
    pub change_address: String,
    pub change_amount: u64,
    pub fee: u64,
}

/// What a [`Settlement`] is, mathematically.
pub struct SettlementView {
    pub txid: Seq<char>,
    pub input_address: Seq<char>,
    pub input_amount: nat,
    pub payee_address: Seq<char>,
    pub payee_amount: nat,
    pub change_address: Seq<char>,
    pub change_amount: nat,
    pub fee: nat,
}

impl View for Settlement {
    type V = SettlementView;

    open spec fn view(&self) -> SettlementView {
        SettlementView {
            txid: self.txid@,
            input_address: self.input_address@,
            input_amount: self.input_amount as nat,
            payee_address: self.payee_address@,
            payee_amount: self.payee_amount as nat,
            change_address: self.change_address@,
            change_amount: self.change_amount as nat,
            fee: self.fee as nat,
        }
    }
}

/// The output that funded `tx`: the output of `prev` that the single input of
/// `tx` points at. A transaction with no input or with several is not
/// supported; an input that points past the outputs of `prev` dangles.
pub open spec fn funding_output(tx: TransactionView, prev: TransactionView) -> Result<OutputView, ReconstructError> {
    if tx.inputs.len() != 1 {
        Err(ReconstructError::UnsupportedInputCount)
    } else if tx.inputs[0].prev_vout >= prev.outputs.len() {
        Err(ReconstructError::DanglingReference)
    } else {
        Ok(prev.outputs[tx.inputs[0].prev_vout as int])
    }
}

/// What is settled about `tx` once `prev`, the transaction that its input
/// names, is known. The checks are made in this order, and the first that
/// fails decides the error:
/// the input is resolved against `prev`; the funding output must have an
/// address; an output must be addressed to `payee`; an output must not be; that
/// change output must have an address; the outputs must not be worth more than
/// the funding output.
pub open spec fn settlement_of(tx: TransactionView, prev: TransactionView, payee: Seq<char>) -> Result<SettlementView, ReconstructError> {
    match funding_output(tx, prev) {
        Err(e) => Err(e),
        Ok(funding) => match (funding.address, payment_position(tx.outputs, payee), change_position(tx.outputs, payee)) {
            (None, _, _) => Err(ReconstructError::UnresolvedAddress),
            (Some(_), None, _) => Err(ReconstructError::PayeeOutputNotFound),
            (Some(_), Some(_), None) => Err(ReconstructError::ChangeOutputNotFound),
            (Some(input_address), Some(p), Some(c)) => match (tx.outputs[c].address, fee_of(funding.value, tx.outputs)) {
                (None, _) => Err(ReconstructError::UnresolvedAddress),
                (Some(_), Err(e)) => Err(e),
                (Some(change_address), Ok(fee)) => Ok(
                    SettlementView {
                        txid: tx.txid,
                        input_address,
                        input_amount: funding.value,
                        payee_address: payee,
                        payee_amount: tx.outputs[p].value,
                        change_address,
                        change_amount: tx.outputs[c].value,
                        fee,
                    },
                ),
            },
        },
    }
}

/// The report that a settlement and its confirming block make.
pub open spec fn report_of(settlement: SettlementView, block: BlockView) -> ReportView {
    ReportView {
        txid: settlement.txid,
        input_address: settlement.input_address,
        input_amount: settlement.input_amount,
        payee_address: settlement.payee_address,
        payee_amount: settlement.payee_amount,
        change_address: settlement.change_address,
        change_amount: settlement.change_amount,
        fee: settlement.fee,
        block_height: block.height,
        block_hash: block.hash,
    }
}

/// The outcome of reconstructing `tx`, funded by `prev` and confirmed in
/// `block`, for the payee address `payee`.
pub open spec fn reconstruction(tx: TransactionView, prev: TransactionView, block: BlockView, payee: Seq<char>) -> Result<ReportView, ReconstructError> {
    match settlement_of(tx, prev, payee) {
        Ok(settlement) => Ok(report_of(settlement, block)),
        Err(e) => Err(e),
    }
}

/// Resolves the input of `tx` against `prev`, classifies the outputs of `tx`
/// by `payee`, and computes the fee.
pub fn settle(tx: &TransactionRecord, prev: &TransactionRecord, payee: &str) -> (result: Result<Settlement, ReconstructError>)
    ensures
        match result {
            Ok(settlement) => settlement_of(tx@, prev@, payee@) == Ok::<SettlementView, ReconstructError>(settlement@),
            Err(e) => settlement_of(tx@, prev@, payee@) == Err::<SettlementView, ReconstructError>(e),
        },
{
    if tx.inputs.len() != 1 {
        return Err(ReconstructError::UnsupportedInputCount);
    }
    let vout: usize = tx.inputs[0].prev_vout as usize;
    if vout >= prev.outputs.len() {
        return Err(ReconstructError::DanglingReference);
    }
    let funding = &prev.outputs[vout];
    assert(funding_output(tx@, prev@) == Ok::<OutputView, ReconstructError>(funding@));
    let input_address = match &funding.address {
        Some(text) => text.clone(),
        None => {
            return Err(ReconstructError::UnresolvedAddress);
        },
    };
    let payee_address = payee.to_owned();
    let payment = match find_first(&tx.outputs, &payee_address, Party::Payee) {
        Some(p) => &tx.outputs[p],
        None => {
            return Err(ReconstructError::PayeeOutputNotFound);
        },
    };
    let change = match find_first(&tx.outputs, &payee_address, Party::Payer) {
        Some(c) => &tx.outputs[c],
        None => {
            return Err(ReconstructError::ChangeOutputNotFound);
        },
    };
    let change_address = match &change.address {
        Some(text) => text.clone(),
        None => {
            return Err(ReconstructError::UnresolvedAddress);
        },
    };
    let fee = match compute_fee(funding.value, &tx.outputs) {
        Ok(fee) => fee,
        Err(e) => {
            return Err(e);
        },
    };
    Ok(
        Settlement {
            txid: tx.txid.clone(),
            input_address,
            input_amount: funding.value,
            payee_address,
            payee_amount: payment.value,
            change_address,
            change_amount: change.value,
            fee,
        },
    )
}

impl Settlement {
    /// Completes the report with the block that confirms the transaction.
    pub fn confirmed_in(self, block: &BlockRecord) -> (report: TransactionReport)
        ensures
            report@ == report_of(self@, block@),
    {
        TransactionReport {
            txid: self.txid,
            input_address: self.input_address,
            input_amount: self.input_amount,
            payee_address: self.payee_address,
            payee_amount: self.payee_amount,
            change_address: self.change_address,
            change_amount: self.change_amount,
            fee: self.fee,
            block_height: block.height,
            block_hash: block.hash.clone(),
        }
    }
}

/// Reconstructs the provenance of `tx` from records already read: `prev` is
/// the transaction that the input of `tx` names, `block` the block that
/// confirms `tx`, and `payee` the address whose receipt tells the payment from
/// the change. Either a complete report comes back or an error, never a
/// partial report.
pub fn reconstruct(tx: &TransactionRecord, prev: &TransactionRecord, block: &BlockRecord, payee: &str) -> (result: Result<TransactionReport, ReconstructError>)
    ensures
        match result {
            Ok(report) => reconstruction(tx@, prev@, block@, payee@) == Ok::<ReportView, ReconstructError>(report@),
            Err(e) => reconstruction(tx@, prev@, block@, payee@) == Err::<ReportView, ReconstructError>(e),
        },
{
    match settle(tx, prev, payee) {
        Ok(settlement) => Ok(settlement.confirmed_in(block)),
        Err(e) => Err(e),
    }
}

} // verus!
