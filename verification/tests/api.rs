use utxo_recycler::api::{
    accept_request, confirmation_percent, is_in_progress, normalize_lightning_address,
    status_class, ApiError, CreateRecycleRequest, CreateRecycleResponse, RecycleResponse,
};
use utxo_recycler::record::Recycle;
use utxo_recycler::status::RecycleStatus;
use utxo_recycler::time::Timestamp;

#[test]
fn addresses_are_trimmed_and_lowered() {
    assert_eq!(normalize_lightning_address("  Alice@Example.COM \n"), "alice@example.com");
    assert_eq!(normalize_lightning_address("bob@b.c"), "bob@b.c");
    assert_eq!(normalize_lightning_address(" \t "), "");
    let request = CreateRecycleRequest { lightning_address: " Carol@Wallet.Example ".to_string() };
    assert_eq!(accept_request(&request), Ok("carol@wallet.example".to_string()));
    let bad = CreateRecycleRequest { lightning_address: " carol ".to_string() };
    assert_eq!(accept_request(&bad), Err(ApiError::InvalidLightningAddress));
}

#[test]
fn a_record_is_shown_as_it_is() {
    let mut record = Recycle::new("r9", "a@b.c", "bc1qaddr", 4, Timestamp { secs: 1, nanos: 2 });
    record.status = RecycleStatus::Confirming;
    record.deposit_txid = Some("tx1,tx2".to_string());
    record.deposit_amount_sats = Some(700);
    record.deposit_confirmations = 3;
    let shown = RecycleResponse::from_recycle(&record);
    assert_eq!(shown.id, "r9");
    assert_eq!(shown.lightning_address, "a@b.c");
    assert_eq!(shown.deposit_address, "bc1qaddr");
    assert_eq!(shown.status, "confirming");
    assert_eq!(shown.deposit_txid.as_deref(), Some("tx1,tx2"));
    assert_eq!(shown.deposit_amount_sats, Some(700));
    assert_eq!(shown.deposit_confirmations, 3);
    assert_eq!(shown.payout_amount_sats, None);
    assert_eq!(shown.payment_preimage, None);
    let created = CreateRecycleResponse::from_recycle(&record);
    assert_eq!(created.id, "r9");
    assert_eq!(created.deposit_address, "bc1qaddr");
    assert_eq!(created.lightning_address, "a@b.c");
    let copy = record.duplicate();
    assert_eq!(copy.id, record.id);
    assert_eq!(copy.deposit_txid, record.deposit_txid);
}

#[test]
fn pages_style_and_measure_progress() {
    assert_eq!(status_class(RecycleStatus::AwaitingDeposit), "status-awaiting");
    assert_eq!(status_class(RecycleStatus::Confirming), "status-confirming");
    assert_eq!(status_class(RecycleStatus::Confirmed), "status-confirmed");
    assert_eq!(status_class(RecycleStatus::Paid), "status-paid");
    assert_eq!(status_class(RecycleStatus::Failed), "status-failed");
    assert_eq!(status_class(RecycleStatus::Donation), "status-donation");
    assert!(is_in_progress(RecycleStatus::AwaitingDeposit));
    assert!(is_in_progress(RecycleStatus::Confirming));
    assert!(is_in_progress(RecycleStatus::Confirmed));
    assert!(!is_in_progress(RecycleStatus::Paid));
    assert!(!is_in_progress(RecycleStatus::Failed));
    assert!(!is_in_progress(RecycleStatus::Donation));
    assert!(RecycleStatus::Paid.terminal() && !RecycleStatus::Confirmed.terminal());
    assert!(RecycleStatus::Confirming.pending() && !RecycleStatus::Confirmed.pending());
    assert_eq!(confirmation_percent(0, 6), 0);
    assert_eq!(confirmation_percent(1, 6), 16);
    assert_eq!(confirmation_percent(3, 6), 50);
    assert_eq!(confirmation_percent(6, 6), 100);
    assert_eq!(confirmation_percent(7, 6), 100);
    assert_eq!(confirmation_percent(u32::MAX, 1), 100);
    assert_eq!(confirmation_percent(5, 0), 100);
    assert_eq!(confirmation_percent(1, u32::MAX), 0);
}
