//! Which party an output belongs to, and which outputs are reported.

use vstd::prelude::*;
use crate::record::{Output, OutputView, address_view, outputs_view};

verus! {

/// The two roles of one reconstruction. A party is a role bound to an address
/// for the length of one reconstruction, not a lasting identity.
#[derive(Clone, Copy, Debug, PartialEq, Eq, Structural)]
pub enum Party {
    /// Whoever funded the transaction; every output that is not the payee's
    /// counts as change to this party.
    Payer,
    /// Whoever owns the payee address.
    Payee,
}

/// `output` is addressed to `payee`: it resolves to an address, and that
/// address has exactly the text of `payee`. An output without an address pays
/// no one, whatever `payee` is.
pub open spec fn pays(output: OutputView, payee: Seq<char>) -> bool {
    output.address == Some(payee)
}

/// The party that `output` belongs to when `payee` is the payee's address.
pub open spec fn party_of(output: OutputView, payee: Seq<char>) -> Party {
    if pays(output, payee) {
        Party::Payee
    } else {
        Party::Payer
    }
}

/// The position of the first output at or after `from` that belongs to `party`.
pub open spec fn first_of(outputs: Seq<OutputView>, payee: Seq<char>, party: Party, from: int) -> Option<int>
    decreases outputs.len() - from,
{
    if from < 0 || from >= outputs.len() {
        None
    } else if party_of(outputs[from], payee) == party {
        Some(from)
    } else {
        first_of(outputs, payee, party, from + 1)
    }
}

/// The position of the payment output: the first output addressed to `payee`.
pub open spec fn payment_position(outputs: Seq<OutputView>, payee: Seq<char>) -> Option<int> {
    first_of(outputs, payee, Party::Payee, 0)
}

/// The position of the change output: the first output not addressed to
/// `payee`. Later outputs of that kind are not reported.
pub open spec fn change_position(outputs: Seq<OutputView>, payee: Seq<char>) -> Option<int> {
    first_of(outputs, payee, Party::Payer, 0)
}

/// `i` is the position of an output of `party` that no output of `party`
/// precedes.
pub open spec fn is_first_of(outputs: Seq<OutputView>, payee: Seq<char>, party: Party, i: int) -> bool {
    &&& 0 <= i < outputs.len()
    &&& party_of(outputs[i], payee) == party
    &&& forall|j: int| 0 <= j < i ==> party_of(#[trigger] outputs[j], payee) != party
}

/// Searching from `from` finds what searching from the start finds, as long as
/// nothing before `from` belongs to `party`.
pub proof fn lemma_first_of_skips(outputs: Seq<OutputView>, payee: Seq<char>, party: Party, from: int)
    requires
        0 <= from <= outputs.len(),
        forall|j: int| 0 <= j < from ==> party_of(#[trigger] outputs[j], payee) != party,
    ensures
        first_of(outputs, payee, party, 0) == first_of(outputs, payee, party, from),
    decreases from,
{
    if from > 0 {
        lemma_first_of_skips(outputs, payee, party, from - 1);
    }
}

/// What the search returns, said without recursion: the one position that
/// [`is_first_of`] describes, or nothing where no output belongs to `party`.
pub proof fn lemma_first_of_characterized(outputs: Seq<OutputView>, payee: Seq<char>, party: Party, from: int)
    requires
        0 <= from <= outputs.len(),
        forall|j: int| 0 <= j < from ==> party_of(#[trigger] outputs[j], payee) != party,
    ensures
        match first_of(outputs, payee, party, 0) {
            Some(i) => from <= i && is_first_of(outputs, payee, party, i),
            None => forall|j: int| 0 <= j < outputs.len() ==> party_of(#[trigger] outputs[j], payee) != party,
        },
    decreases outputs.len() - from,
{
    lemma_first_of_skips(outputs, payee, party, from);
    if from < outputs.len() && party_of(outputs[from], payee) != party {
        lemma_first_of_characterized(outputs, payee, party, from + 1);
    }
}

/// `address` holds exactly the text `payee`.
fn is_address(address: &Option<String>, payee: &String) -> (same: bool)
    ensures
        same == (address_view(*address) == Some(payee@)),
{
    match address {
        Some(text) => *text == *payee,
        None => false,
    }
}

fn party_of_output(output: &Output, payee: &String) -> (party: Party)
    ensures
        party == party_of(output@, payee@),
{
    if is_address(&output.address, payee) {
        Party::Payee
    } else {
        Party::Payer
    }
}

pub(crate) fn find_first(outputs: &Vec<Output>, payee: &String, party: Party) -> (found: Option<usize>)
    ensures
        match found {
            Some(i) => first_of(outputs_view(outputs@), payee@, party, 0) == Some(i as int)
                && is_first_of(outputs_view(outputs@), payee@, party, i as int),
            None => first_of(outputs_view(outputs@), payee@, party, 0) == None::<int> && forall|j: int|
                0 <= j < outputs@.len() ==> party_of(#[trigger] outputs_view(outputs@)[j], payee@) != party,
        },
{
    let ghost all = outputs_view(outputs@);
    let mut i: usize = 0;
    while i < outputs.len()
        invariant
            0 <= i <= outputs.len(),
            all == outputs_view(outputs@),
            forall|j: int| 0 <= j < i ==> party_of(#[trigger] all[j], payee@) != party,
        decreases outputs.len() - i,
    {
        if party_of_output(&outputs[i], payee) == party {
            proof {
                lemma_first_of_skips(all, payee@, party, i as int);
            }
            return Some(i);
        }
        i = i + 1;
    }
    proof {
        lemma_first_of_skips(all, payee@, party, i as int);
    }
    None
}

/// Says to which party `output` belongs: to the payee where its address is
/// exactly `payee`, to the payer otherwise.
pub fn classify(output: &Output, payee: &str) -> (party: Party)
    ensures
        party == party_of(output@, payee@),
{
    let payee_text = payee.to_owned();
    party_of_output(output, &payee_text)
}

/// Finds the payment output: the first output addressed to `payee`, or
/// nothing where no output is addressed to `payee`.
pub fn find_payment(outputs: &Vec<Output>, payee: &str) -> (found: Option<usize>)
    ensures
        match found {
            Some(i) => payment_position(outputs_view(outputs@), payee@) == Some(i as int)
                && is_first_of(outputs_view(outputs@), payee@, Party::Payee, i as int),
            None => payment_position(outputs_view(outputs@), payee@) == None::<int> && forall|j: int|
                0 <= j < outputs@.len() ==> !pays(#[trigger] outputs_view(outputs@)[j], payee@),
        },
{
    let payee_text = payee.to_owned();
    find_first(outputs, &payee_text, Party::Payee)
}

/// Finds the change output: the first output not addressed to `payee`, or
/// nothing where every output is addressed to `payee`.
pub fn find_change(outputs: &Vec<Output>, payee: &str) -> (found: Option<usize>)
    ensures
        match found {
            Some(i) => change_position(outputs_view(outputs@), payee@) == Some(i as int)
                && is_first_of(outputs_view(outputs@), payee@, Party::Payer, i as int),
            None => change_position(outputs_view(outputs@), payee@) == None::<int> && forall|j: int|
                0 <= j < outputs@.len() ==> pays(#[trigger] outputs_view(outputs@)[j], payee@),
        },
{
    let payee_text = payee.to_owned();
    find_first(outputs, &payee_text, Party::Payer)
}

} // verus!
