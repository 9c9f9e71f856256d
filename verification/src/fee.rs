//! Conservation of value: what the outputs are worth, and what is left over.

use vstd::prelude::*;
use crate::record::{Output, OutputView, outputs_view};
use crate::error::ReconstructError;

verus! {

/// The sum of the values of `outputs`.
pub open spec fn total_value(outputs: Seq<OutputView>) -> nat
    decreases outputs.len(),
{
    if outputs.len() == 0 {
        0
    } else {
        total_value(outputs.drop_last()) + outputs.last().value
    }
}

/// The total grows with each output taken in.
pub proof fn lemma_total_value_prefix(outputs: Seq<OutputView>, n: int)
    requires
        0 <= n <= outputs.len(),
    ensures
        total_value(outputs.take(n)) <= total_value(outputs),
    decreases outputs.len() - n,
{
    if n == outputs.len() {
        assert(outputs.take(n) =~= outputs);
    } else {
        assert(outputs.take(n + 1).drop_last() =~= outputs.take(n));
        lemma_total_value_prefix(outputs, n + 1);
    }
}

/// No single output is worth more than all of them together.
pub proof fn lemma_total_value_bounds_each(outputs: Seq<OutputView>, i: int)
    requires
        0 <= i < outputs.len(),
    ensures
        outputs[i].value <= total_value(outputs),
{
    assert(outputs.take(i + 1).drop_last() =~= outputs.take(i));
    assert(outputs.take(i + 1).last() == outputs[i]);
    lemma_total_value_prefix(outputs, i + 1);
}

/// The fee that a funding amount leaves once `outputs` are paid: the funding
/// amount less the total of the outputs, or `NegativeFee` where the outputs are
/// worth more than the funding.
pub open spec fn fee_of(funding: nat, outputs: Seq<OutputView>) -> Result<nat, ReconstructError> {
    if total_value(outputs) > funding {
        Err(ReconstructError::NegativeFee)
    } else {
        Ok((funding - total_value(outputs)) as nat)
    }
}

/// Computes the fee by conservation of value, in whole units, with no
/// rounding and no clamping.
pub fn compute_fee(funding: u64, outputs: &Vec<Output>) -> (result: Result<u64, ReconstructError>)
    ensures
        match result {
            Ok(fee) => fee_of(funding as nat, outputs_view(outputs@)) == Ok::<nat, ReconstructError>(fee as nat),
            Err(e) => fee_of(funding as nat, outputs_view(outputs@)) == Err::<nat, ReconstructError>(e),
        },
{
    let ghost all = outputs_view(outputs@);
    let mut spent: u64 = 0;
    let mut i: usize = 0;
    while i < outputs.len()
        invariant
            0 <= i <= outputs.len(),
            all == outputs_view(outputs@),
            spent as nat == total_value(all.take(i as int)),
            spent <= funding,
        decreases outputs.len() - i,
    {
        let value: u64 = outputs[i].value;
        proof {
            assert(all.take(i + 1).drop_last() =~= all.take(i as int));
            assert(all.take(i + 1).last().value == value as nat);
            lemma_total_value_prefix(all, i + 1);
        }
        if value > funding - spent {
            return Err(ReconstructError::NegativeFee);
        }
        spent = spent + value;
        i = i + 1;
    }
    proof {
        assert(all.take(i as int) =~= all);
    }
    Ok(funding - spent)
}

} // verus!
