//! The records read from the ledger, and their mathematical views.

use vstd::prelude::*;

verus! {

/// A reference from a transaction to the prior output that it spends.
#[derive(Clone, Debug, PartialEq, Eq)]
pub struct Input {
    /// Identifier of the transaction that created the spent output.
    pub prev_txid: String,
    /// Position of the spent output in that transaction.
    pub prev_vout: u32,
}

/// A value-bearing unit created by a transaction.
#[derive(Clone, Debug, PartialEq, Eq)]
pub struct Output {
    /// Amount in the smallest unit of the currency.
    pub value: u64,
    /// Canonical text of the receiving address; `None` where the script
    /// resolves to no address.
    pub address: Option<String>,
    /// Position that the ledger reports for this output.
    pub index: u32,
}

/// A transaction as fetched from the ledger.
#[derive(Clone, Debug, PartialEq, Eq)]
pub struct TransactionRecord {
    pub txid: String,
    pub inputs: Vec<Input>,
    pub outputs: Vec<Output>,
}

/// The block that confirms a transaction.
#[derive(Clone, Debug, PartialEq, Eq)]
pub struct BlockRecord {
    pub height: u64,
    pub hash: String,
}

/// What an [`Input`] is, mathematically.
pub struct InputView {
    pub prev_txid: Seq<char>,
    pub prev_vout: nat,
}

/// What an [`Output`] is, mathematically.
pub struct OutputView {
    pub value: nat,
    pub address: Option<Seq<char>>,
    pub index: nat,
}

/// What a [`TransactionRecord`] is, mathematically.
pub struct TransactionView {
    pub txid: Seq<char>,
    pub inputs: Seq<InputView>,
    pub outputs: Seq<OutputView>,
}

/// What a [`BlockRecord`] is, mathematically.
pub struct BlockView {
    pub height: nat,
    pub hash: Seq<char>,
}

/// The characters of an optional address.
pub open spec fn address_view(address: Option<String>) -> Option<Seq<char>> {
    match address {
        Some(text) => Some(text@),
        None => None,
    }
}

/// The views of a run of outputs, in order.
pub open spec fn outputs_view(outputs: Seq<Output>) -> Seq<OutputView> {
    Seq::new(outputs.len(), |i: int| outputs[i]@)
}

/// The views of a run of inputs, in order.
pub open spec fn inputs_view(inputs: Seq<Input>) -> Seq<InputView> {
    Seq::new(inputs.len(), |i: int| inputs[i]@)
}

impl View for Input {
    type V = InputView;

    open spec fn view(&self) -> InputView {
        InputView { prev_txid: self.prev_txid@, prev_vout: self.prev_vout as nat }
    }
}

impl View for Output {
    type V = OutputView;

    open spec fn view(&self) -> OutputView {
        OutputView {
            value: self.value as nat,
            address: address_view(self.address),
            index: self.index as nat,
        }
    }
}

impl View for TransactionRecord {
    type V = TransactionView;

    open spec fn view(&self) -> TransactionView {
        TransactionView {
            txid: self.txid@,
            inputs: inputs_view(self.inputs@),
            outputs: outputs_view(self.outputs@),
        }
    }
}

impl View for BlockRecord {
    type V = BlockView;

    open spec fn view(&self) -> BlockView {
        BlockView { height: self.height as nat, hash: self.hash@ }
    }
}

} // verus!
