use tx_provenance::{
    classify, compute_fee, find_change, find_payment, reconstruct, settle, BlockRecord, Input,
    Output, Party, ReconstructError, TransactionRecord, TransactionReport,
};

const COIN: u64 = 100_000_000;

fn output(value: u64, address: Option<&str>, index: u32) -> Output {
    Output { value, address: address.map(|a| a.to_string()), index }
}

fn spending(txid: &str, prev_txid: &str, prev_vout: u32, outputs: Vec<Output>) -> TransactionRecord {
    TransactionRecord {
        txid: txid.to_string(),
        inputs: vec![Input { prev_txid: prev_txid.to_string(), prev_vout }],
        outputs,
    }
}

fn funding(outputs: Vec<Output>) -> TransactionRecord {
    TransactionRecord { txid: "fund".to_string(), inputs: vec![], outputs }
}

fn block() -> BlockRecord {
    BlockRecord { height: 102, hash: "00ab".to_string() }
}

fn miner_funding() -> TransactionRecord {
    funding(vec![output(100 * COIN, Some("miner"), 0), output(0, None, 1)])
}

#[test]
fn end_to_end_payment_with_change() {
    let tx = spending(
        "pay",
        "fund",
        0,
        vec![output(20 * COIN, Some("trader"), 0), output(7_999_990_000, Some("miner2"), 1)],
    );
    let report = reconstruct(&tx, &miner_funding(), &block(), "trader").unwrap();
    assert_eq!(
        report,
        TransactionReport {
            txid: "pay".to_string(),
            input_address: "miner".to_string(),
            input_amount: 10_000_000_000,
            payee_address: "trader".to_string(),
            payee_amount: 2_000_000_000,
            change_address: "miner2".to_string(),
            change_amount: 7_999_990_000,
            fee: 10_000,
            block_height: 102,
            block_hash: "00ab".to_string(),
        }
    );
}

#[test]
fn classification_does_not_depend_on_output_order() {
    let a = output(20 * COIN, Some("A"), 0);
    let b = output(7_999_900_000, Some("B"), 1);
    let forward = spending("pay", "fund", 0, vec![a.clone(), b.clone()]);
    let backward = spending("pay", "fund", 0, vec![b, a]);
    let first = settle(&forward, &miner_funding(), "A").unwrap();
    let second = settle(&backward, &miner_funding(), "A").unwrap();
    assert_eq!(first, second);
    assert_eq!(first.payee_address, "A");
    assert_eq!(first.payee_amount, 20 * COIN);
    assert_eq!(first.change_address, "B");
    assert_eq!(first.change_amount, 7_999_900_000);
    assert_eq!(first.fee, 100_000);
}

#[test]
fn input_past_the_funding_outputs_dangles() {
    let tx = spending("pay", "fund", 5, vec![output(1, Some("trader"), 0), output(1, Some("m"), 1)]);
    let prev = funding(vec![output(10, Some("miner"), 0), output(10, Some("miner"), 1)]);
    assert_eq!(reconstruct(&tx, &prev, &block(), "trader"), Err(ReconstructError::DanglingReference));
}

#[test]
fn input_at_the_output_count_dangles() {
    let tx = spending("pay", "fund", 2, vec![output(1, Some("trader"), 0), output(1, Some("m"), 1)]);
    let prev = funding(vec![output(10, Some("miner"), 0), output(10, Some("miner"), 1)]);
    assert_eq!(reconstruct(&tx, &prev, &block(), "trader"), Err(ReconstructError::DanglingReference));
    let last = spending("pay", "fund", 1, vec![output(1, Some("trader"), 0), output(1, Some("m"), 1)]);
    assert_eq!(reconstruct(&last, &prev, &block(), "trader").unwrap().input_amount, 10);
}

#[test]
fn funding_output_is_taken_by_position() {
    let tx = spending("pay", "fund", 1, vec![output(3, Some("trader"), 0), output(4, Some("back"), 1)]);
    let prev = funding(vec![output(50, Some("first"), 7), output(9, Some("second"), 0)]);
    let report = reconstruct(&tx, &prev, &block(), "trader").unwrap();
    assert_eq!(report.input_address, "second");
    assert_eq!(report.input_amount, 9);
    assert_eq!(report.fee, 2);
}

#[test]
fn missing_payee_output_is_an_error() {
    let tx = spending("pay", "fund", 0, vec![output(1, Some("x"), 0), output(2, Some("y"), 1)]);
    assert_eq!(
        reconstruct(&tx, &miner_funding(), &block(), "trader"),
        Err(ReconstructError::PayeeOutputNotFound)
    );
    let empty = spending("pay", "fund", 0, vec![]);
    assert_eq!(
        reconstruct(&empty, &miner_funding(), &block(), "trader"),
        Err(ReconstructError::PayeeOutputNotFound)
    );
}

#[test]
fn outputs_worth_more_than_the_funding_are_an_error() {
    let tx = spending(
        "pay",
        "fund",
        0,
        vec![output(60 * COIN, Some("trader"), 0), output(40 * COIN + 1, Some("miner"), 1)],
    );
    assert_eq!(reconstruct(&tx, &miner_funding(), &block(), "trader"), Err(ReconstructError::NegativeFee));
}

#[test]
fn a_fee_of_zero_is_accepted() {
    let tx = spending(
        "pay",
        "fund",
        0,
        vec![output(60 * COIN, Some("trader"), 0), output(40 * COIN, Some("miner"), 1)],
    );
    assert_eq!(reconstruct(&tx, &miner_funding(), &block(), "trader").unwrap().fee, 0);
}

#[test]
fn a_total_beyond_the_integer_range_is_a_negative_fee() {
    let tx = spending(
        "pay",
        "fund",
        0,
        vec![output(u64::MAX, Some("trader"), 0), output(u64::MAX, Some("miner"), 1)],
    );
    let prev = funding(vec![output(u64::MAX, Some("miner"), 0)]);
    assert_eq!(reconstruct(&tx, &prev, &block(), "trader"), Err(ReconstructError::NegativeFee));
    assert_eq!(compute_fee(u64::MAX, &tx.outputs), Err(ReconstructError::NegativeFee));
}

#[test]
fn transactions_without_exactly_one_input_are_turned_down() {
    let mut tx = spending("pay", "fund", 0, vec![output(1, Some("trader"), 0), output(1, Some("m"), 1)]);
    tx.inputs.push(Input { prev_txid: "other".to_string(), prev_vout: 0 });
    assert_eq!(
        reconstruct(&tx, &miner_funding(), &block(), "trader"),
        Err(ReconstructError::UnsupportedInputCount)
    );
    tx.inputs.clear();
    assert_eq!(
        reconstruct(&tx, &miner_funding(), &block(), "trader"),
        Err(ReconstructError::UnsupportedInputCount)
    );
}

#[test]
fn a_transaction_that_pays_only_the_payee_has_no_change() {
    let tx = spending("pay", "fund", 0, vec![output(1, Some("trader"), 0), output(2, Some("trader"), 1)]);
    assert_eq!(
        reconstruct(&tx, &miner_funding(), &block(), "trader"),
        Err(ReconstructError::ChangeOutputNotFound)
    );
}

#[test]
fn outputs_without_an_address_are_not_reported() {
    let tx = spending("pay", "fund", 1, vec![output(0, Some("trader"), 0), output(0, Some("m"), 1)]);
    assert_eq!(
        reconstruct(&tx, &miner_funding(), &block(), "trader"),
        Err(ReconstructError::UnresolvedAddress)
    );
    let bare_change = spending("pay", "fund", 0, vec![output(1, Some("trader"), 0), output(2, None, 1)]);
    assert_eq!(
        reconstruct(&bare_change, &miner_funding(), &block(), "trader"),
        Err(ReconstructError::UnresolvedAddress)
    );
}

#[test]
fn an_absent_address_never_equals_an_empty_payee() {
    let bare = output(5, None, 0);
    assert_eq!(classify(&bare, ""), Party::Payer);
    assert_eq!(classify(&output(5, Some(""), 0), ""), Party::Payee);
    assert_eq!(find_payment(&vec![bare], ""), None);
}

#[test]
fn errors_are_reported_in_the_order_of_the_steps() {
    let prev = funding(vec![output(1, None, 0)]);
    let nothing_right = spending("pay", "fund", 3, vec![output(9, Some("x"), 0)]);
    assert_eq!(reconstruct(&nothing_right, &prev, &block(), "trader"), Err(ReconstructError::DanglingReference));
    let resolved = spending("pay", "fund", 0, vec![output(9, Some("x"), 0)]);
    assert_eq!(reconstruct(&resolved, &prev, &block(), "trader"), Err(ReconstructError::UnresolvedAddress));
    let funded = funding(vec![output(1, Some("miner"), 0)]);
    assert_eq!(reconstruct(&resolved, &funded, &block(), "trader"), Err(ReconstructError::PayeeOutputNotFound));
    assert_eq!(reconstruct(&resolved, &funded, &block(), "x"), Err(ReconstructError::ChangeOutputNotFound));
    let too_much = spending("pay", "fund", 0, vec![output(9, Some("x"), 0), output(9, None, 1)]);
    assert_eq!(reconstruct(&too_much, &funded, &block(), "x"), Err(ReconstructError::UnresolvedAddress));
    let addressed = spending("pay", "fund", 0, vec![output(9, Some("x"), 0), output(9, Some("y"), 1)]);
    assert_eq!(reconstruct(&addressed, &funded, &block(), "x"), Err(ReconstructError::NegativeFee));
}

#[test]
fn only_the_first_other_output_is_change() {
    let outputs = vec![
        output(5, Some("first"), 0),
        output(20, Some("trader"), 1),
        output(30, Some("second"), 2),
        output(7, Some("trader"), 3),
    ];
    assert_eq!(find_payment(&outputs, "trader"), Some(1));
    assert_eq!(find_change(&outputs, "trader"), Some(0));
    assert_eq!(classify(&outputs[2], "trader"), Party::Payer);
    assert_eq!(classify(&outputs[3], "trader"), Party::Payee);
    let tx = spending("pay", "fund", 0, outputs);
    let prev = funding(vec![output(100, Some("miner"), 0)]);
    let report = reconstruct(&tx, &prev, &block(), "trader").unwrap();
    assert_eq!(report.payee_amount, 20);
    assert_eq!(report.change_address, "first");
    assert_eq!(report.change_amount, 5);
    assert_eq!(report.fee, 38);
    assert_eq!(report.input_amount, 5 + 20 + 30 + 7 + report.fee);
}

#[test]
fn two_outputs_account_for_the_whole_funding() {
    for (paid, kept) in [(0u64, 0u64), (1, 2), (20 * COIN, 7_999_990_000), (100 * COIN, 0)] {
        let tx = spending("pay", "fund", 0, vec![output(kept, Some("back"), 0), output(paid, Some("trader"), 1)]);
        let report = reconstruct(&tx, &miner_funding(), &block(), "trader").unwrap();
        assert_eq!(report.input_amount, report.payee_amount + report.change_amount + report.fee);
        assert_eq!(report.fee, 100 * COIN - paid - kept);
    }
}

#[test]
fn the_fee_is_what_the_outputs_leave() {
    let outputs = vec![output(3, None, 0), output(4, Some("a"), 1), output(5, Some("b"), 2)];
    assert_eq!(compute_fee(12, &outputs), Ok(0));
    assert_eq!(compute_fee(13, &outputs), Ok(1));
    assert_eq!(compute_fee(11, &outputs), Err(ReconstructError::NegativeFee));
    assert_eq!(compute_fee(0, &vec![]), Ok(0));
    assert_eq!(compute_fee(u64::MAX, &vec![]), Ok(u64::MAX));
}

#[test]
fn reconstructing_twice_gives_the_same_report() {
    let tx = spending(
        "pay",
        "fund",
        0,
        vec![output(20 * COIN, Some("trader"), 0), output(7_999_990_000, Some("miner2"), 1)],
    );
    let first = reconstruct(&tx, &miner_funding(), &block(), "trader");
    let second = reconstruct(&tx, &miner_funding(), &block(), "trader");
    assert_eq!(first, second);
    assert_eq!(
        tx_provenance::render::format(&first.unwrap()).into_bytes(),
        tx_provenance::render::format(&second.unwrap()).into_bytes()
    );
}
