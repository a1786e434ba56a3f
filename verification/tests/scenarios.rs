use utxo_recycler::chain::{ChainTx, ChainView, TxOutput};
use utxo_recycler::config::{Config, PayoutMultiplier};
use utxo_recycler::monitor::check_deposits;
use utxo_recycler::nwc::{
    start_payment, Nip47PayInvoiceResult, Nip47Response, PayPoll, PaymentError, PaymentResult,
    PollEvent, PollStep,
};
use utxo_recycler::processor::PaymentPlan;
use utxo_recycler::record::DonationReason;
use utxo_recycler::status::RecycleStatus;
use utxo_recycler::store::RecycleRepository;
use utxo_recycler::time::Timestamp;

const PREIMAGE: &str = "0102030405060708090a0b0c0d0e0f101112131415161718191a1b1c1d1e1f20";
const PAYMENT_HASH: &str = "ae216c2ef5247a3782c135efa279a3e4cdc61094270f5d2be58c6204b7a612c9";

fn at(secs: i64) -> Timestamp {
    Timestamp { secs, nanos: 0 }
}

fn config(required_confirmations: u32, cutoff_block_height: u32, max_input_sats: u64) -> Config {
    let mut config = Config::with_defaults(
        "wpkh(xpub/0/*)".to_string(),
        "ssl://electrum.example.com:50002".to_string(),
        "nostr+walletconnect://ab?relay=wss://r.example.com&secret=cd".to_string(),
    );
    config.payout_multiplier = PayoutMultiplier::from_parts_per_million(1_010_000);
    config.required_confirmations = required_confirmations;
    config.cutoff_block_height = cutoff_block_height;
    config.max_input_sats = max_input_sats;
    config
}

fn deposit_tx(
    txid: &str,
    index: u32,
    value_sats: u64,
    block_height: Option<u32>,
    input_values: Option<Vec<Option<u64>>>,
) -> ChainTx {
    ChainTx {
        txid: txid.to_string(),
        outputs: vec![
            TxOutput { address_index: None, value_sats: 9_999 },
            TxOutput { address_index: Some(index), value_sats },
        ],
        block_height,
        input_values,
    }
}

fn store_with_one_recycle() -> RecycleRepository {
    let mut store = RecycleRepository::new();
    let index = store.increment_address_index().unwrap();
    assert_eq!(index, 0);
    let created = store.create("r1", "alice@example.com", "bc1qdeposit", index, at(100));
    assert!(created.is_ok());
    store
}

/// An invoice over 505 sats that names `PAYMENT_HASH`.
fn invoice() -> String {
    format!(
        "lnbc5050n1pvjluezpp54cskcth4y3ar0qkpxhh6y7drunxuvyy5yu8462l9333qfdaxztys{}",
        "q".repeat(110)
    )
}

fn paid_response() -> PaymentResult {
    let response = Nip47Response {
        result_type: Some("pay_invoice".to_string()),
        result: Some(Nip47PayInvoiceResult { preimage: PREIMAGE.to_string() }),
        error: None,
    };
    let start = start_payment(&invoice()).expect("the invoice names a payment hash");
    assert_eq!(start.payment_hash, PAYMENT_HASH);
    assert_eq!(start.request.method, "pay_invoice");
    assert_eq!(start.request.params.invoice, invoice());
    match start.poll.after_look(PollEvent::Response(response), &start.payment_hash) {
        PollStep::Done(Ok(paid)) => paid,
        other => panic!("expected a payment, got {:?}", other),
    }
}

#[test]
fn happy_path_pays_505_for_500() {
    let config = config(1, 1_000_000, 1000);
    let mut store = store_with_one_recycle();
    let view = ChainView {
        tip_height: 800_000,
        transactions: vec![deposit_tx("tx1", 0, 500, Some(800_000), Some(vec![Some(400)]))],
    };
    assert_eq!(check_deposits(&mut store, &view, &config, at(200)), 1);
    let record = store.find_by_id("r1").unwrap();
    assert_eq!(record.status, RecycleStatus::Confirmed);
    assert_eq!(record.deposit_amount_sats, Some(500));
    assert_eq!(record.deposit_confirmations, 1);
    assert_eq!(record.deposit_block_height, Some(800_000));
    assert_eq!(record.max_input_sats, Some(400));
    assert_eq!(record.deposit_txid.as_deref(), Some("tx1"));
    assert!(record.is_eligible);

    let plan = store.begin_payment("r1", &config, at(300));
    assert_eq!(plan, PaymentPlan::Attempt { payout_sats: 505, attempt: 1 });
    assert_eq!(store.find_by_id("r1").unwrap().payment_attempts, 1);

    let paid = paid_response();
    assert_eq!(paid.payment_hash, PAYMENT_HASH);
    assert!(store.complete_payment("r1", &paid, &config, at(400)));
    let record = store.find_by_id("r1").unwrap();
    assert_eq!(record.status, RecycleStatus::Paid);
    assert_eq!(record.payout_amount_sats, Some(505));
    assert_eq!(record.payment_preimage.as_deref(), Some(PREIMAGE));
    assert_eq!(record.payment_hash.as_deref(), Some(PAYMENT_HASH));
    assert_eq!(record.paid_at, Some(at(400)));
    assert_eq!(record.updated_at, at(400));

    assert_eq!(store.begin_payment("r1", &config, at(500)), PaymentPlan::NotDue);
    assert!(!store.complete_payment("r1", &paid, &config, at(600)));
    assert_eq!(store.find_by_id("r1").unwrap().paid_at, Some(at(400)));
}

#[test]
fn deposit_after_cutoff_is_a_donation() {
    let config = config(1, 900_000, 1000);
    let mut store = store_with_one_recycle();
    let view = ChainView {
        tip_height: 950_010,
        transactions: vec![deposit_tx("tx1", 0, 500, Some(950_000), Some(vec![Some(400)]))],
    };
    check_deposits(&mut store, &view, &config, at(200));
    let record = store.find_by_id("r1").unwrap();
    assert_eq!(record.status, RecycleStatus::Donation);
    assert_eq!(record.donation_reason, Some(DonationReason::BlockHeight));
    assert_eq!(record.deposit_block_height, Some(950_000));
    assert_eq!(record.max_input_sats, None);
    assert!(!record.is_eligible);
    assert_eq!(store.begin_payment("r1", &config, at(300)), PaymentPlan::NotDue);
    assert_eq!(store.find_by_id("r1").unwrap().payment_attempts, 0);
    assert!(store.find_by_status(RecycleStatus::Confirmed).is_empty());
}

#[test]
fn deposit_at_the_cutoff_height_is_a_donation() {
    let config = config(1, 900_000, 1000);
    let mut store = store_with_one_recycle();
    let view = ChainView {
        tip_height: 900_000,
        transactions: vec![deposit_tx("tx1", 0, 500, Some(900_000), Some(vec![Some(1)]))],
    };
    check_deposits(&mut store, &view, &config, at(200));
    assert_eq!(store.find_by_id("r1").unwrap().status, RecycleStatus::Donation);
}

#[test]
fn large_input_is_a_donation() {
    let config = config(1, 1_000_000, 1000);
    let mut store = store_with_one_recycle();
    let view = ChainView {
        tip_height: 800_000,
        transactions: vec![deposit_tx("tx1", 0, 500, Some(800_000), Some(vec![Some(5000)]))],
    };
    check_deposits(&mut store, &view, &config, at(200));
    let record = store.find_by_id("r1").unwrap();
    assert_eq!(record.status, RecycleStatus::Donation);
    assert_eq!(record.donation_reason, Some(DonationReason::InputTooLarge));
    assert_eq!(record.max_input_sats, Some(5000));
    assert_eq!(record.deposit_amount_sats, Some(500));
}

#[test]
fn input_at_the_limit_is_a_donation_and_below_it_is_not() {
    let config = config(1, 1_000_000, 1000);
    let mut at_limit = store_with_one_recycle();
    let view = ChainView {
        tip_height: 800_000,
        transactions: vec![deposit_tx("tx1", 0, 500, Some(800_000), Some(vec![Some(1000)]))],
    };
    check_deposits(&mut at_limit, &view, &config, at(200));
    assert_eq!(at_limit.find_by_id("r1").unwrap().status, RecycleStatus::Donation);

    let mut below = store_with_one_recycle();
    let view = ChainView {
        tip_height: 800_000,
        transactions: vec![deposit_tx("tx1", 0, 500, Some(800_000), Some(vec![Some(999)]))],
    };
    check_deposits(&mut below, &view, &config, at(200));
    assert_eq!(below.find_by_id("r1").unwrap().status, RecycleStatus::Confirmed);
}

#[test]
fn two_transactions_are_summed_and_wait_for_each_other() {
    let config = config(1, 1_000_000, 1000);
    let mut store = store_with_one_recycle();
    let mut view = ChainView {
        tip_height: 800_050,
        transactions: vec![
            deposit_tx("txa", 0, 300, Some(800_000), Some(vec![Some(200)])),
            deposit_tx("txb", 0, 400, None, Some(vec![Some(300)])),
        ],
    };
    check_deposits(&mut store, &view, &config, at(200));
    let record = store.find_by_id("r1").unwrap();
    assert_eq!(record.status, RecycleStatus::Confirming);
    assert_eq!(record.deposit_amount_sats, Some(700));
    assert_eq!(record.deposit_confirmations, 0);
    assert_eq!(record.deposit_block_height, None);
    assert_eq!(record.max_input_sats, None);
    assert_eq!(record.deposit_txid.as_deref(), Some("txa,txb"));

    view.tip_height = 800_100;
    view.transactions[1].block_height = Some(800_100);
    check_deposits(&mut store, &view, &config, at(300));
    let record = store.find_by_id("r1").unwrap();
    assert_eq!(record.status, RecycleStatus::Confirmed);
    assert_eq!(record.deposit_amount_sats, Some(700));
    assert_eq!(record.deposit_confirmations, 1);
    assert_eq!(record.deposit_block_height, Some(800_000));
    assert_eq!(record.max_input_sats, Some(300));

    assert_eq!(
        store.begin_payment("r1", &config, at(400)),
        PaymentPlan::Attempt { payout_sats: 707, attempt: 1 }
    );
}

#[test]
fn attempts_run_out_after_ten() {
    let config = config(1, 1_000_000, 1000);
    let mut store = store_with_one_recycle();
    let view = ChainView {
        tip_height: 800_000,
        transactions: vec![deposit_tx("tx1", 0, 500, Some(800_000), Some(vec![Some(400)]))],
    };
    check_deposits(&mut store, &view, &config, at(200));
    for attempt in 1..=10u32 {
        let plan = store.begin_payment("r1", &config, at(300));
        assert_eq!(plan, PaymentPlan::Attempt { payout_sats: 505, attempt });
        let mut poll = PayPoll::new();
        let mut looks = 0;
        let outcome = loop {
            looks += 1;
            match poll.after_look(PollEvent::Nothing, PAYMENT_HASH) {
                PollStep::Wait(next) => poll = next,
                PollStep::Done(outcome) => break outcome,
            }
        };
        assert_eq!(looks, 5);
        assert!(matches!(outcome, Err(PaymentError::NoResponse)));
        assert_eq!(store.find_by_id("r1").unwrap().status, RecycleStatus::Confirmed);
    }
    assert_eq!(store.begin_payment("r1", &config, at(400)), PaymentPlan::GiveUp);
    let record = store.find_by_id("r1").unwrap();
    assert_eq!(record.status, RecycleStatus::Failed);
    assert_eq!(record.payment_attempts, 10);
    assert_eq!(record.payment_preimage, None);
    assert_eq!(record.payment_hash, None);
    assert_eq!(record.payout_amount_sats, None);
    assert_eq!(store.begin_payment("r1", &config, at(500)), PaymentPlan::NotDue);
    assert_eq!(store.find_by_id("r1").unwrap().payment_attempts, 10);
}

#[test]
fn unresolved_inputs_get_the_benefit_of_the_doubt() {
    let config = config(1, 1_000_000, 1000);
    let mut store = store_with_one_recycle();
    let view = ChainView {
        tip_height: 800_000,
        transactions: vec![deposit_tx("tx1", 0, 500, Some(800_000), None)],
    };
    check_deposits(&mut store, &view, &config, at(200));
    let record = store.find_by_id("r1").unwrap();
    assert_eq!(record.status, RecycleStatus::Confirmed);
    assert_eq!(record.max_input_sats, None);
    assert!(record.is_eligible);
    store.begin_payment("r1", &config, at(300));
    assert!(store.complete_payment("r1", &paid_response(), &config, at(400)));
    assert_eq!(store.find_by_id("r1").unwrap().status, RecycleStatus::Paid);
}

#[test]
fn inputs_that_none_resolve_of_count_as_unknown() {
    let config = config(1, 1_000_000, 1000);
    let mut store = store_with_one_recycle();
    let view = ChainView {
        tip_height: 800_000,
        transactions: vec![deposit_tx("tx1", 0, 500, Some(800_000), Some(vec![None, None]))],
    };
    check_deposits(&mut store, &view, &config, at(200));
    let record = store.find_by_id("r1").unwrap();
    assert_eq!(record.status, RecycleStatus::Confirmed);
    assert_eq!(record.max_input_sats, None);
}

#[test]
fn a_second_look_at_the_same_chain_changes_nothing_but_the_time() {
    let config = config(6, 1_000_000, 1000);
    let mut store = store_with_one_recycle();
    let view = ChainView {
        tip_height: 800_002,
        transactions: vec![deposit_tx("tx1", 0, 500, Some(800_000), Some(vec![Some(400)]))],
    };
    check_deposits(&mut store, &view, &config, at(200));
    let first = store.find_by_id("r1").unwrap();
    assert_eq!(first.status, RecycleStatus::Confirming);
    assert_eq!(first.deposit_confirmations, 3);
    assert_eq!(first.deposit_block_height, Some(800_000));
    check_deposits(&mut store, &view, &config, at(200));
    let second = store.find_by_id("r1").unwrap();
    assert_eq!(second.status, first.status);
    assert_eq!(second.deposit_confirmations, first.deposit_confirmations);
    assert_eq!(second.deposit_block_height, first.deposit_block_height);
    assert_eq!(second.max_input_sats, first.max_input_sats);
    assert_eq!(second.deposit_amount_sats, first.deposit_amount_sats);
    assert_eq!(second.updated_at, first.updated_at);
}

#[test]
fn the_monitor_leaves_terminal_records_alone() {
    let config = config(1, 900_000, 1000);
    let mut store = store_with_one_recycle();
    let donation = ChainView {
        tip_height: 950_000,
        transactions: vec![deposit_tx("tx1", 0, 500, Some(950_000), None)],
    };
    check_deposits(&mut store, &donation, &config, at(200));
    assert_eq!(store.find_by_id("r1").unwrap().status, RecycleStatus::Donation);
    let harmless = ChainView {
        tip_height: 800_000,
        transactions: vec![deposit_tx("tx2", 0, 700, Some(800_000), Some(vec![Some(1)]))],
    };
    assert_eq!(check_deposits(&mut store, &harmless, &config, at(300)), 0);
    let record = store.find_by_id("r1").unwrap();
    assert_eq!(record.status, RecycleStatus::Donation);
    assert_eq!(record.deposit_amount_sats, Some(500));
    assert_eq!(record.updated_at, at(200));
}
