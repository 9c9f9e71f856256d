use tx_provenance::{begin, reconstruct, render, BlockRecord, Input, Output, ReconstructError, TransactionRecord};

fn payment() -> TransactionRecord {
    TransactionRecord {
        txid: "pay".to_string(),
        inputs: vec![Input { prev_txid: "fund".to_string(), prev_vout: 1 }],
        outputs: vec![
            Output { value: 7_999_990_000, address: Some("miner".to_string()), index: 0 },
            Output { value: 2_000_000_000, address: Some("trader".to_string()), index: 1 },
        ],
    }
}

fn reward() -> TransactionRecord {
    TransactionRecord {
        txid: "fund".to_string(),
        inputs: vec![],
        outputs: vec![
            Output { value: 0, address: None, index: 0 },
            Output { value: 10_000_000_000, address: Some("miner".to_string()), index: 1 },
        ],
    }
}

fn confirming() -> BlockRecord {
    BlockRecord { height: 102, hash: "00ff".to_string() }
}

#[test]
fn a_reconstruction_asks_for_the_funding_transaction_then_the_block() {
    let state = begin(payment(), "blk".to_string(), "trader".to_string()).unwrap();
    assert_eq!(state.funding_txid, "fund");
    assert_eq!(state.block_id, "blk");
    assert_eq!(state.payee, "trader");
    assert_eq!(state.tx, payment());
    let state = state.funding_read(Some(reward())).unwrap();
    assert_eq!(state.block_id, "blk");
    assert_eq!(state.settlement.fee, 10_000);
    let report = state.block_read(Some(confirming())).unwrap();
    assert_eq!(Ok(report.clone()), reconstruct(&payment(), &reward(), &confirming(), "trader"));
    assert_eq!(render::format(&report), "pay\nminer\n100\ntrader\n20\nminer\n79.9999\n0.0001\n102\n00ff\n");
}

#[test]
fn a_failed_read_ends_the_reconstruction() {
    let state = begin(payment(), "blk".to_string(), "trader".to_string()).unwrap();
    assert_eq!(state.clone().funding_read(None), Err(ReconstructError::LedgerAccessError));
    let state = state.funding_read(Some(reward())).unwrap();
    assert_eq!(state.block_read(None), Err(ReconstructError::LedgerAccessError));
}

#[test]
fn nothing_is_read_for_a_transaction_without_exactly_one_input() {
    assert_eq!(
        begin(reward(), "blk".to_string(), "trader".to_string()),
        Err(ReconstructError::UnsupportedInputCount)
    );
    let mut two = payment();
    two.inputs.push(Input { prev_txid: "more".to_string(), prev_vout: 0 });
    assert_eq!(begin(two, "blk".to_string(), "trader".to_string()), Err(ReconstructError::UnsupportedInputCount));
}

#[test]
fn an_error_of_the_settlement_comes_before_the_read_of_the_block() {
    let state = begin(payment(), "blk".to_string(), "nobody".to_string()).unwrap();
    assert_eq!(state.funding_read(Some(reward())), Err(ReconstructError::PayeeOutputNotFound));
    let mut dangling = payment();
    dangling.inputs[0].prev_vout = 5;
    let state = begin(dangling, "blk".to_string(), "trader".to_string()).unwrap();
    assert_eq!(state.funding_read(Some(reward())), Err(ReconstructError::DanglingReference));
}

#[test]
fn two_runs_against_the_same_ledger_give_the_same_bytes() {
    let run = || {
        let state = begin(payment(), "blk".to_string(), "trader".to_string())?;
        let state = state.funding_read(Some(reward()))?;
        state.block_read(Some(confirming()))
    };
    let first: Result<_, ReconstructError> = run();
    let second: Result<_, ReconstructError> = run();
    assert_eq!(first, second);
    assert_eq!(render::format(&first.unwrap()).as_bytes(), render::format(&second.unwrap()).as_bytes());
}
