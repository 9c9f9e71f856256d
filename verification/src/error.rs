//! Why a reconstruction can fail.

use vstd::prelude::*;

verus! {

/// The reasons for which no report is produced. A reconstruction either yields
/// a complete report or exactly one of these; there is no partial result.
#[derive(Clone, Copy, Debug, PartialEq, Eq, Structural)]
pub enum ReconstructError {
    /// A read from the ledger did not complete.
    LedgerAccessError,
    /// The input points at an output that the funding transaction does not have.
    DanglingReference,
    /// No output of the transaction is addressed to the payee.
    PayeeOutputNotFound,
    /// The outputs are worth more than the funding output.
    NegativeFee,
    /// The transaction does not spend exactly one input.
    UnsupportedInputCount,
    /// Every output of the transaction is addressed to the payee.
    ChangeOutputNotFound,
    /// The funding output or the change output resolves to no address.
    UnresolvedAddress,
}

} // verus!
