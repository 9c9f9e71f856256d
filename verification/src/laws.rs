//! What holds of every reconstruction.

use vstd::prelude::*;
use crate::classify::{
    Party, change_position, first_of, lemma_first_of_characterized, payment_position, pays,
};
use crate::error::ReconstructError;
use crate::fee::{lemma_total_value_bounds_each, total_value};
use crate::reconstruct::{SettlementView, funding_output, reconstruction, settlement_of};
use crate::record::{BlockView, OutputView, TransactionView};
use crate::render::report_text;
use crate::report::ReportView;
use crate::session::{LedgerView, outcome_on, read_block, read_transaction};

verus! {

/// The value of the outputs at the positions `p` and `c` among the first `n`
/// outputs.
spec fn picked_value(outputs: Seq<OutputView>, p: int, c: int, n: int) -> nat {
    let of_p = if 0 <= p < n { outputs[p].value } else { 0 };
    let of_c = if 0 <= c < n && c != p { outputs[c].value } else { 0 };
    of_p + of_c
}

proof fn lemma_total_is_picked(outputs: Seq<OutputView>, p: int, c: int, n: int)
    requires
        0 <= n <= outputs.len(),
        forall|k: int| 0 <= k < outputs.len() && k != p && k != c ==> (#[trigger] outputs[k]).value == 0,
    ensures
        total_value(outputs.take(n)) == picked_value(outputs, p, c, n),
    decreases n,
{
    if n > 0 {
        lemma_total_is_picked(outputs, p, c, n - 1);
        assert(outputs.take(n).drop_last() =~= outputs.take(n - 1));
        assert(outputs.take(n).last() == outputs[n - 1]);
    }
}

/// The input of `tx` resolves against `prev` to an output with an address.
pub open spec fn funded(tx: TransactionView, prev: TransactionView) -> bool {
    &&& tx.inputs.len() == 1
    &&& tx.inputs[0].prev_vout < prev.outputs.len()
    &&& prev.outputs[tx.inputs[0].prev_vout as int].address is Some
}

/// Some output of `tx` is addressed to `payee`.
pub open spec fn has_payment(tx: TransactionView, payee: Seq<char>) -> bool {
    exists|i: int| 0 <= i < tx.outputs.len() && pays(#[trigger] tx.outputs[i], payee)
}

/// Some output of `tx` is not addressed to `payee`.
pub open spec fn has_change(tx: TransactionView, payee: Seq<char>) -> bool {
    exists|i: int| 0 <= i < tx.outputs.len() && !pays(#[trigger] tx.outputs[i], payee)
}

/// Each error comes on exactly the inputs that it names, and a settlement is
/// reached on exactly the inputs on which none of them does. Of two failures
/// the one that is met first decides: the input is resolved first, then the
/// outputs are classified, then the fee is computed.
pub proof fn lemma_errors_are_exact(tx: TransactionView, prev: TransactionView, payee: Seq<char>)
    ensures
        settlement_of(tx, prev, payee) == Err::<SettlementView, ReconstructError>(
            ReconstructError::UnsupportedInputCount,
        ) <==> tx.inputs.len() != 1,
        settlement_of(tx, prev, payee) == Err::<SettlementView, ReconstructError>(
            ReconstructError::DanglingReference,
        ) <==> tx.inputs.len() == 1 && tx.inputs[0].prev_vout >= prev.outputs.len(),
        settlement_of(tx, prev, payee) == Err::<SettlementView, ReconstructError>(
            ReconstructError::PayeeOutputNotFound,
        ) <==> funded(tx, prev) && !has_payment(tx, payee),
        settlement_of(tx, prev, payee) == Err::<SettlementView, ReconstructError>(
            ReconstructError::ChangeOutputNotFound,
        ) <==> funded(tx, prev) && has_payment(tx, payee) && !has_change(tx, payee),
        settlement_of(tx, prev, payee) == Err::<SettlementView, ReconstructError>(
            ReconstructError::UnresolvedAddress,
        ) <==> tx.inputs.len() == 1 && tx.inputs[0].prev_vout < prev.outputs.len() && (!funded(tx, prev) || (
            has_payment(tx, payee) && has_change(tx, payee)
                && tx.outputs[change_position(tx.outputs, payee).unwrap()].address is None)),
        settlement_of(tx, prev, payee) == Err::<SettlementView, ReconstructError>(
            ReconstructError::NegativeFee,
        ) <==> funded(tx, prev) && has_payment(tx, payee) && has_change(tx, payee)
            && tx.outputs[change_position(tx.outputs, payee).unwrap()].address is Some && total_value(
            tx.outputs,
        ) > prev.outputs[tx.inputs[0].prev_vout as int].value,
        settlement_of(tx, prev, payee) is Ok <==> funded(tx, prev) && has_payment(tx, payee) && has_change(
            tx,
            payee,
        ) && tx.outputs[change_position(tx.outputs, payee).unwrap()].address is Some && total_value(
            tx.outputs,
        ) <= prev.outputs[tx.inputs[0].prev_vout as int].value,
        settlement_of(tx, prev, payee) != Err::<SettlementView, ReconstructError>(
            ReconstructError::LedgerAccessError,
        ),
{
    lemma_first_of_characterized(tx.outputs, payee, Party::Payee, 0);
    lemma_first_of_characterized(tx.outputs, payee, Party::Payer, 0);
    assert(has_payment(tx, payee) <==> payment_position(tx.outputs, payee) is Some) by {
        if payment_position(tx.outputs, payee) is Some {
            let p = payment_position(tx.outputs, payee).unwrap();
            assert(pays(tx.outputs[p], payee));
        }
    }
    assert(has_change(tx, payee) <==> change_position(tx.outputs, payee) is Some) by {
        if change_position(tx.outputs, payee) is Some {
            let c = change_position(tx.outputs, payee).unwrap();
            assert(!pays(tx.outputs[c], payee));
        }
    }
}

/// Value is conserved: whenever a report is produced, the funding amount is
/// the total of all outputs plus the fee, and the fee is not negative.
pub proof fn lemma_value_is_conserved(tx: TransactionView, prev: TransactionView, block: BlockView, payee: Seq<char>)
    requires
        reconstruction(tx, prev, block, payee) is Ok,
    ensures
        ({
            let report = reconstruction(tx, prev, block, payee).unwrap();
            &&& report.input_amount == total_value(tx.outputs) + report.fee
            &&& report.fee >= 0
            &&& report.payee_amount + report.change_amount <= total_value(tx.outputs)
        }),
{
    let p = payment_position(tx.outputs, payee).unwrap();
    let c = change_position(tx.outputs, payee).unwrap();
    lemma_first_of_characterized(tx.outputs, payee, Party::Payee, 0);
    lemma_first_of_characterized(tx.outputs, payee, Party::Payer, 0);
    lemma_two_outputs_within_total(tx.outputs, p, c);
}

/// Two different outputs are together worth no more than all outputs.
proof fn lemma_two_outputs_within_total(outputs: Seq<OutputView>, p: int, c: int)
    requires
        0 <= p < outputs.len(),
        0 <= c < outputs.len(),
        p != c,
    ensures
        outputs[p].value + outputs[c].value <= total_value(outputs),
    decreases outputs.len(),
{
    let n = outputs.len() - 1;
    let rest = outputs.drop_last();
    if p == n {
        lemma_total_value_bounds_each(rest, c);
    } else if c == n {
        lemma_total_value_bounds_each(rest, p);
    } else {
        lemma_two_outputs_within_total(rest, p, c);
    }
}

/// The report accounts for the whole funding amount: where no output other
/// than the payment and the change carries value, as in every transaction of
/// two outputs, the funding amount is the payment plus the change plus the fee.
pub proof fn lemma_report_accounts_for_funding(tx: TransactionView, prev: TransactionView, block: BlockView, payee: Seq<char>)
    requires
        reconstruction(tx, prev, block, payee) is Ok,
        forall|k: int|
            0 <= k < tx.outputs.len() && Some(k) != payment_position(tx.outputs, payee) && Some(k)
                != change_position(tx.outputs, payee) ==> (#[trigger] tx.outputs[k]).value == 0,
    ensures
        ({
            let report = reconstruction(tx, prev, block, payee).unwrap();
            report.input_amount == report.payee_amount + report.change_amount + report.fee
        }),
{
    let p = payment_position(tx.outputs, payee).unwrap();
    let c = change_position(tx.outputs, payee).unwrap();
    lemma_first_of_characterized(tx.outputs, payee, Party::Payee, 0);
    lemma_first_of_characterized(tx.outputs, payee, Party::Payer, 0);
    lemma_total_is_picked(tx.outputs, p, c, tx.outputs.len() as int);
    assert(tx.outputs.take(tx.outputs.len() as int) =~= tx.outputs);
}

/// A transaction of two outputs has no output besides the payment and the
/// change, so its report accounts for the whole funding amount.
pub proof fn lemma_two_outputs_account_for_funding(tx: TransactionView, prev: TransactionView, block: BlockView, payee: Seq<char>)
    requires
        reconstruction(tx, prev, block, payee) is Ok,
        tx.outputs.len() == 2,
    ensures
        ({
            let report = reconstruction(tx, prev, block, payee).unwrap();
            report.input_amount == report.payee_amount + report.change_amount + report.fee
        }),
{
    lemma_first_of_characterized(tx.outputs, payee, Party::Payee, 0);
    lemma_first_of_characterized(tx.outputs, payee, Party::Payer, 0);
    lemma_report_accounts_for_funding(tx, prev, block, payee);
}

/// Reconstruction is repeatable: two runs for the same transaction, block and
/// payee against the same ledger end alike, and where they end in a report the
/// two texts are the same, character for character.
pub proof fn lemma_reconstruction_is_repeatable(
    ledger: LedgerView,
    tx: TransactionView,
    block_id: Seq<char>,
    payee: Seq<char>,
    first: Result<ReportView, ReconstructError>,
    second: Result<ReportView, ReconstructError>,
)
    requires
        first == outcome_on(ledger, tx, block_id, payee),
        second == outcome_on(ledger, tx, block_id, payee),
    ensures
        first == second,
        first is Ok ==> report_text(first.unwrap()) == report_text(second.unwrap()),
{
}

/// Reading as it goes changes nothing: where the ledger holds both records, a
/// reconstruction that reads them ends as the reconstruction from the records
/// themselves does; where it lacks the funding transaction of a transaction
/// with one input, or lacks the block once all else has succeeded, the
/// reconstruction ends in `LedgerAccessError`.
pub proof fn lemma_outcome_follows_records(ledger: LedgerView, tx: TransactionView, block_id: Seq<char>, payee: Seq<char>)
    requires
        tx.inputs.len() == 1,
    ensures
        match (read_transaction(ledger, tx.inputs[0].prev_txid), read_block(ledger, block_id)) {
            (Some(prev), Some(block)) => outcome_on(ledger, tx, block_id, payee) == reconstruction(tx, prev, block, payee),
            (Some(prev), None) => outcome_on(ledger, tx, block_id, payee) == match settlement_of(tx, prev, payee) {
                Ok(_) => Err::<ReportView, ReconstructError>(ReconstructError::LedgerAccessError),
                Err(e) => Err::<ReportView, ReconstructError>(e),
            },
            (None, _) => outcome_on(ledger, tx, block_id, payee) == Err::<ReportView, ReconstructError>(
                ReconstructError::LedgerAccessError,
            ),
        },
{
}

/// Classification does not depend on the order of the outputs: of two outputs,
/// one addressed to the payee and one not, the first is the payment and the
/// second the change, whichever comes first in the transaction, and the
/// settlement is the same for both orders.
pub proof fn lemma_classification_ignores_order(
    tx: TransactionView,
    prev: TransactionView,
    payee: Seq<char>,
    paid: OutputView,
    kept: OutputView,
)
    requires
        pays(paid, payee),
        !pays(kept, payee),
        tx.outputs == seq![paid, kept],
    ensures
        ({
            let swapped = TransactionView { outputs: seq![kept, paid], ..tx };
            &&& tx.outputs[payment_position(tx.outputs, payee).unwrap()] == paid
            &&& tx.outputs[change_position(tx.outputs, payee).unwrap()] == kept
            &&& swapped.outputs[payment_position(swapped.outputs, payee).unwrap()] == paid
            &&& swapped.outputs[change_position(swapped.outputs, payee).unwrap()] == kept
            &&& settlement_of(swapped, prev, payee) == settlement_of(tx, prev, payee)
        }),
{
    let forward = seq![paid, kept];
    let backward = seq![kept, paid];
    reveal_with_fuel(first_of, 3);
    assert(payment_position(forward, payee) == Some(0int));
    assert(change_position(forward, payee) == Some(1int));
    assert(payment_position(backward, payee) == Some(1int));
    assert(change_position(backward, payee) == Some(0int));
    reveal_with_fuel(total_value, 3);
    assert(forward.drop_last() =~= seq![paid]);
    assert(backward.drop_last() =~= seq![kept]);
    assert(seq![paid].drop_last() =~= Seq::<OutputView>::empty());
    assert(seq![kept].drop_last() =~= Seq::<OutputView>::empty());
    assert(total_value(forward) == paid.value + kept.value);
    assert(total_value(backward) == paid.value + kept.value);
}

/// An input that points past the outputs of the funding transaction is never
/// resolved: the reconstruction ends in `DanglingReference`, whatever the
/// outputs, the block and the payee are.
pub proof fn lemma_dangling_reference_is_detected(tx: TransactionView, prev: TransactionView, block: BlockView, payee: Seq<char>)
    requires
        tx.inputs.len() == 1,
        tx.inputs[0].prev_vout >= prev.outputs.len(),
    ensures
        funding_output(tx, prev) == Err::<OutputView, ReconstructError>(ReconstructError::DanglingReference),
        reconstruction(tx, prev, block, payee) == Err::<ReportView, ReconstructError>(ReconstructError::DanglingReference),
{
}

} // verus!
