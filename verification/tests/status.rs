use utxo_recycler::status::RecycleStatus;

#[test]
fn status_literals_round_trip() {
    let all = [
        (RecycleStatus::AwaitingDeposit, "awaiting_deposit", "Awaiting Deposit"),
        (RecycleStatus::Confirming, "confirming", "Confirming"),
        (RecycleStatus::Confirmed, "confirmed", "Confirmed"),
        (RecycleStatus::Paid, "paid", "Paid"),
        (RecycleStatus::Failed, "failed", "Failed"),
        (RecycleStatus::Donation, "donation", "Donation Received"),
    ];
    for (status, literal, label) in all {
        assert_eq!(status.as_str(), literal);
        assert_eq!(status.display_name(), label);
        assert_eq!(RecycleStatus::from_str(literal), status);
    }
}

#[test]
fn unknown_status_text_reads_as_failed() {
    assert_eq!(RecycleStatus::from_str(""), RecycleStatus::Failed);
    assert_eq!(RecycleStatus::from_str("PAID"), RecycleStatus::Failed);
    assert_eq!(RecycleStatus::from_str("paid "), RecycleStatus::Failed);
}
