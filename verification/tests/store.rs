use utxo_recycler::record::{DonationReason, Recycle, RecycleRow, MAX_PAYMENT_ATTEMPTS};
use utxo_recycler::status::RecycleStatus;
use utxo_recycler::store::{RecycleRepository, StoreError};
use utxo_recycler::time::Timestamp;

const PREIMAGE: &str = "0000000000000000000000000000000000000000000000000000000000000000";
const PAYMENT_HASH: &str = "66687aadf862bd776c8fc18b8e9f8e20089714856ee233b3902a591d0d5f2925";

fn at(secs: i64) -> Timestamp {
    Timestamp { secs, nanos: 0 }
}

fn store_with(ids: &[&str]) -> RecycleRepository {
    let mut store = RecycleRepository::new();
    for id in ids {
        let index = store.increment_address_index().unwrap();
        let address = format!("addr{}", index);
        assert!(store.create(id, "a@b.c", &address, index, at(1)).is_ok());
    }
    store
}

#[test]
fn allocation_hands_out_each_index_once() {
    let mut store = RecycleRepository::new();
    assert_eq!(store.get_next_address_index(), 0);
    let mut seen = Vec::new();
    for expected in 0..50u32 {
        let index = store.increment_address_index().unwrap();
        assert_eq!(index, expected);
        assert!(!seen.contains(&index));
        seen.push(index);
        assert_eq!(store.get_next_address_index(), expected + 1);
    }
}

#[test]
fn created_records_have_distinct_indexes() {
    let store = store_with(&["a", "b", "c", "d"]);
    assert_eq!(store.len(), 4);
    for i in 0..store.len() {
        for j in 0..store.len() {
            if i != j {
                assert_ne!(store.record_at(i).address_index, store.record_at(j).address_index);
                assert_ne!(store.record_at(i).id, store.record_at(j).id);
            }
        }
    }
}

#[test]
fn create_refuses_what_would_break_the_store() {
    let mut store = store_with(&["a"]);
    let next = store.increment_address_index().unwrap();
    assert_eq!(next, 1);
    assert!(matches!(store.create("a", "x@y.z", "addr", next, at(2)), Err(StoreError::DuplicateId)));
    assert!(matches!(store.create("b", "x@y.z", "addr", 0, at(2)), Err(StoreError::IndexInUse)));
    assert!(matches!(
        store.create("b", "x@y.z", "addr", 2, at(2)),
        Err(StoreError::IndexNotAllocated)
    ));
    assert!(matches!(
        store.create("a", "x@y.z", "addr", 7, at(2)),
        Err(StoreError::DuplicateId)
    ));
    assert_eq!(store.len(), 1);
    let created = store.create("b", "x@y.z", "addr", next, at(2)).unwrap();
    assert_eq!(created.id, "b");
    assert_eq!(created.lightning_address, "x@y.z");
    assert_eq!(created.deposit_address, "addr");
    assert_eq!(created.address_index, 1);
    assert_eq!(created.status, RecycleStatus::AwaitingDeposit);
    assert_eq!(created.deposit_confirmations, 0);
    assert_eq!(created.payment_attempts, 0);
    assert!(created.is_eligible);
    assert_eq!(created.created_at, at(2));
    assert_eq!(created.updated_at, at(2));
    assert_eq!(created.paid_at, None);
    assert_eq!(store.len(), 2);
}

#[test]
fn finders_find_what_is_there() {
    let mut store = store_with(&["a", "b", "c"]);
    assert!(store.update_deposit_detected("b", "tx", 10, 0, None, None, 6, at(2)));
    assert!(store.update_deposit_detected("c", "tx", 10, 6, Some(5), Some(3), 6, at(2)));
    assert!(store.find_by_id("zzz").is_none());
    assert_eq!(store.find_by_id("b").unwrap().status, RecycleStatus::Confirming);
    assert_eq!(store.find_by_deposit_address("addr2").unwrap().id, "c");
    assert!(store.find_by_deposit_address("nowhere").is_none());
    let pending: Vec<String> = store.find_pending_deposits().into_iter().map(|r| r.id).collect();
    assert_eq!(pending, vec!["a".to_string(), "b".to_string()]);
    let confirmed: Vec<String> =
        store.find_by_status(RecycleStatus::Confirmed).into_iter().map(|r| r.id).collect();
    assert_eq!(confirmed, vec!["c".to_string()]);
    assert!(store.find_by_status(RecycleStatus::Paid).is_empty());
}

#[test]
fn status_follows_the_confirmations() {
    let mut store = store_with(&["a"]);
    assert!(store.update_deposit_detected("a", "tx", 10, 5, None, None, 6, at(2)));
    assert_eq!(store.find_by_id("a").unwrap().status, RecycleStatus::Confirming);
    assert!(store.update_confirmations("a", 5, 6, at(3)));
    assert_eq!(store.find_by_id("a").unwrap().status, RecycleStatus::Confirming);
    assert!(store.update_confirmations("a", 6, 6, at(4)));
    let record = store.find_by_id("a").unwrap();
    assert_eq!(record.status, RecycleStatus::Confirmed);
    assert_eq!(record.deposit_confirmations, 6);
    assert_eq!(record.updated_at, at(4));
    assert!(!store.update_confirmations("a", 1, 6, at(5)));
    assert_eq!(store.find_by_id("a").unwrap().status, RecycleStatus::Confirmed);
    assert_eq!(store.find_by_id("a").unwrap().deposit_confirmations, 6);
}

#[test]
fn no_operation_moves_a_status_backwards() {
    let mut store = store_with(&["paid", "failed", "donation"]);
    for id in ["paid", "failed"] {
        assert!(store.update_deposit_detected(id, "tx", 10, 6, Some(1), None, 6, at(2)));
    }
    assert!(store.mark_paid("paid", 10, PREIMAGE, PAYMENT_HASH, at(3)));
    assert!(store.mark_failed("failed", at(3)));
    assert!(store.update_as_donation(
        "donation",
        "tx",
        10,
        Some(1),
        Some(9),
        DonationReason::InputTooLarge,
        at(3)
    ));
    let before: Vec<Recycle> = (0..store.len()).map(|i| store.record_at(i)).collect();
    for id in ["paid", "failed", "donation"] {
        assert!(!store.update_deposit_detected(id, "other", 99, 0, None, None, 6, at(9)));
        assert!(!store.update_confirmations(id, 0, 6, at(9)));
        assert!(!store.update_as_donation(
            id,
            "other",
            99,
            None,
            None,
            DonationReason::BlockHeight,
            at(9)
        ));
        assert!(!store.mark_paid(id, 99, PREIMAGE, PAYMENT_HASH, at(9)));
        assert!(!store.mark_failed(id, at(9)));
        assert_eq!(store.increment_payment_attempts(id, at(9)), None);
    }
    for (i, old) in before.iter().enumerate() {
        let new = store.record_at(i);
        assert_eq!(new.status, old.status);
        assert_eq!(new.updated_at, old.updated_at);
        assert_eq!(new.deposit_amount_sats, old.deposit_amount_sats);
        assert_eq!(new.deposit_txid, old.deposit_txid);
    }
}

#[test]
fn mark_paid_asks_for_a_preimage_that_opens_the_hash() {
    let mut store = store_with(&["a"]);
    assert!(!store.mark_paid("a", 10, PREIMAGE, PAYMENT_HASH, at(2)));
    assert!(store.update_deposit_detected("a", "tx", 10, 6, Some(1), None, 6, at(2)));
    assert!(!store.mark_paid("a", 10, PREIMAGE, PREIMAGE, at(3)));
    assert!(!store.mark_paid("a", 10, "zz", PAYMENT_HASH, at(3)));
    assert!(!store.mark_paid("a", 10, "00", PAYMENT_HASH, at(3)));
    assert!(!store.mark_paid("missing", 10, PREIMAGE, PAYMENT_HASH, at(3)));
    assert_eq!(store.find_by_id("a").unwrap().status, RecycleStatus::Confirmed);
    assert!(store.mark_paid("a", 10, PREIMAGE, &PAYMENT_HASH.to_uppercase(), at(4)));
    let record = store.find_by_id("a").unwrap();
    assert_eq!(record.status, RecycleStatus::Paid);
    assert_eq!(record.payout_amount_sats, Some(10));
    assert_eq!(record.paid_at, Some(at(4)));
}

#[test]
fn attempts_never_pass_the_bound() {
    let mut store = store_with(&["a"]);
    assert_eq!(store.increment_payment_attempts("a", at(2)), None);
    assert!(store.update_deposit_detected("a", "tx", 10, 6, Some(1), None, 6, at(2)));
    for n in 1..=MAX_PAYMENT_ATTEMPTS {
        assert_eq!(store.increment_payment_attempts("a", at(3)), Some(n));
    }
    for _ in 0..5 {
        assert_eq!(store.increment_payment_attempts("a", at(4)), None);
    }
    let record = store.find_by_id("a").unwrap();
    assert_eq!(record.payment_attempts, 10);
    assert_eq!(record.updated_at, at(3));
}

#[test]
fn donation_takes_its_reason() {
    let mut store = store_with(&["a"]);
    assert!(store.update_as_donation(
        "a",
        "tx1,tx2",
        77,
        Some(5),
        None,
        DonationReason::BlockHeight,
        at(2)
    ));
    let record = store.find_by_id("a").unwrap();
    assert_eq!(record.status, RecycleStatus::Donation);
    assert_eq!(record.donation_reason, Some(DonationReason::BlockHeight));
    assert!(!record.is_eligible);
    assert_eq!(record.deposit_txid.as_deref(), Some("tx1,tx2"));
    assert_eq!(record.deposit_amount_sats, Some(77));
    assert_eq!(DonationReason::BlockHeight.as_str(), "block_height");
    assert_eq!(DonationReason::InputTooLarge.as_str(), "input_too_large");
    assert_eq!(DonationReason::from_str("input_too_large"), Some(DonationReason::InputTooLarge));
    assert_eq!(DonationReason::from_str("block_height"), Some(DonationReason::BlockHeight));
    assert_eq!(DonationReason::from_str("other"), None);
}

fn row() -> RecycleRow {
    RecycleRow {
        id: "id".to_string(),
        lightning_address: "a@b.c".to_string(),
        deposit_address: "addr".to_string(),
        address_index: 7,
        status: "confirming".to_string(),
        deposit_txid: Some("tx".to_string()),
        deposit_amount_sats: Some(500),
        deposit_confirmations: Some(3),
        deposit_block_height: Some(800_000),
        is_eligible: None,
        donation_reason: None,
        max_input_sats: Some(400),
        payout_amount_sats: None,
        payment_preimage: None,
        payment_hash: None,
        payment_attempts: 2,
        created_at: "2024-01-02T03:04:05Z".to_string(),
        updated_at: "2024-01-02T04:04:05.5+01:00".to_string(),
        paid_at: Some("not a time".to_string()),
    }
}

#[test]
fn a_row_reads_as_a_record() {
    let record = Recycle::from_row(row(), at(9));
    assert_eq!(record.id, "id");
    assert_eq!(record.address_index, 7);
    assert_eq!(record.status, RecycleStatus::Confirming);
    assert_eq!(record.deposit_amount_sats, Some(500));
    assert_eq!(record.deposit_confirmations, 3);
    assert_eq!(record.deposit_block_height, Some(800_000));
    assert!(record.is_eligible);
    assert_eq!(record.max_input_sats, Some(400));
    assert_eq!(record.payment_attempts, 2);
    assert_eq!(record.created_at, Timestamp { secs: 1_704_164_645, nanos: 0 });
    assert_eq!(record.updated_at, Timestamp { secs: 1_704_164_645, nanos: 500_000_000 });
    assert_eq!(record.paid_at, None);
}

#[test]
fn a_row_with_gaps_reads_with_the_defaults() {
    let mut gaps = row();
    gaps.status = "nonsense".to_string();
    gaps.deposit_confirmations = None;
    gaps.is_eligible = Some(0);
    gaps.donation_reason = Some("block_height".to_string());
    gaps.created_at = "yesterday".to_string();
    gaps.paid_at = Some("2024-01-02T03:04:05Z".to_string());
    let record = Recycle::from_row(gaps, at(9));
    assert_eq!(record.status, RecycleStatus::Failed);
    assert_eq!(record.deposit_confirmations, 0);
    assert!(!record.is_eligible);
    assert_eq!(record.donation_reason, Some(DonationReason::BlockHeight));
    assert_eq!(record.created_at, at(9));
    assert_eq!(record.paid_at, Some(Timestamp { secs: 1_704_164_645, nanos: 0 }));
}

#[test]
fn timestamps_read_rfc3339() {
    assert_eq!(
        Timestamp::from_rfc3339("1970-01-01T00:00:00Z"),
        Some(Timestamp { secs: 0, nanos: 0 })
    );
    assert_eq!(
        Timestamp::from_rfc3339("1970-01-01T01:00:01.000000001+01:00"),
        Some(Timestamp { secs: 1, nanos: 1 })
    );
    assert_eq!(Timestamp::from_rfc3339("1970-01-01"), None);
    assert_eq!(Timestamp::from_rfc3339(""), None);
    assert_eq!(Timestamp::from_rfc3339_or("bad", at(5)), at(5));
    assert_eq!(Timestamp::from_rfc3339_or("1970-01-01T00:00:07Z", at(5)), at(7));
}
