//! The outcome of a reconstruction.

use vstd::prelude::*;

verus! {

/// Where the value of one transaction came from and where it went.
#[derive(Clone, Debug, PartialEq, Eq)]
pub struct TransactionReport {
    pub txid: String,
    /// Address of the output that funded the transaction.
    pub input_address: String,
    /// Value of that output, in the smallest unit of the currency.
    pub input_amount: u64,
    pub payee_address: String,
    pub payee_amount: u64,
    pub change_address: String,
    pub change_amount: u64,
    /// Value that the transaction leaves to whoever confirms it.
    pub fee: u64,
    pub block_height: u64,
    pub block_hash: String,
}

/// What a [`TransactionReport`] is, mathematically.
pub struct ReportView {
    pub txid: Seq<char>,
    pub input_address: Seq<char>,
    pub input_amount: nat,
    pub payee_address: Seq<char>,
    pub payee_amount: nat,
    pub change_address: Seq<char>,
    pub change_amount: nat,
    pub fee: nat,
    pub block_height: nat,
    pub block_hash: Seq<char>,
}

impl View for TransactionReport {
    type V = ReportView;

    open spec fn view(&self) -> ReportView {
        ReportView {
            txid: self.txid@,
            input_address: self.input_address@,
            input_amount: self.input_amount as nat,
            payee_address: self.payee_address@,
            payee_amount: self.payee_amount as nat,
            change_address: self.change_address@,
            change_amount: self.change_amount as nat,
            fee: self.fee as nat,
            block_height: self.block_height as nat,
            block_hash: self.block_hash@,
        }
    }
}

} // verus!
