use utxo_recycler::config::{Config, PayoutMultiplier};
use utxo_recycler::monitor::{backoff_delay_secs, MonitorLoop};
use utxo_recycler::processor::PaymentPlan;
use utxo_recycler::record::Recycle;
use utxo_recycler::status::RecycleStatus;
use utxo_recycler::time::Timestamp;

fn start() -> Timestamp {
    Timestamp { secs: 1, nanos: 2 }
}

fn defaults() -> Config {
    Config::with_defaults("d".to_string(), "u".to_string(), "w".to_string())
}

#[test]
fn the_payout_is_the_floor_of_the_product() {
    let m = PayoutMultiplier::from_parts_per_million(1_010_000);
    assert_eq!(m.payout_sats(500), Some(505));
    assert_eq!(m.payout_sats(700), Some(707));
    assert_eq!(m.payout_sats(99), Some(99));
    assert_eq!(m.payout_sats(100), Some(101));
    assert_eq!(m.payout_sats(199), Some(200));
    assert_eq!(m.payout_sats(0), Some(0));
    assert_eq!(m.payout_sats(u64::MAX), None);
    assert_eq!(PayoutMultiplier::from_parts_per_million(1_000_000).payout_sats(u64::MAX), Some(u64::MAX));
    assert_eq!(PayoutMultiplier::from_parts_per_million(1_000_001).payout_sats(u64::MAX), None);
    assert_eq!(PayoutMultiplier::from_parts_per_million(0).payout_sats(u64::MAX), Some(0));
    assert_eq!(PayoutMultiplier::from_parts_per_million(1_150_000).payout_sats(100), Some(115));
    assert_eq!(PayoutMultiplier::from_parts_per_million(u64::MAX).payout_sats(u64::MAX), None);
    assert_eq!(PayoutMultiplier::from_parts_per_million(333_333).payout_sats(3), Some(0));
}

#[test]
fn the_plan_follows_the_record() {
    let config = defaults();
    let fresh = Recycle::new("r", "a@b.c", "addr", 0, start());
    assert_eq!(fresh.payment_plan(&config), PaymentPlan::NotDue);
    let mut confirmed = Recycle::new("r", "a@b.c", "addr", 0, start());
    confirmed.status = RecycleStatus::Confirmed;
    assert_eq!(confirmed.payment_plan(&config), PaymentPlan::MissingAmount);
    confirmed.deposit_amount_sats = Some(u64::MAX);
    assert_eq!(confirmed.payment_plan(&config), PaymentPlan::PayoutTooLarge);
    confirmed.deposit_amount_sats = Some(1000);
    confirmed.payment_attempts = 9;
    assert_eq!(
        confirmed.payment_plan(&config),
        PaymentPlan::Attempt { payout_sats: 1010, attempt: 10 }
    );
    confirmed.payment_attempts = 10;
    assert_eq!(confirmed.payment_plan(&config), PaymentPlan::GiveUp);
    confirmed.deposit_amount_sats = None;
    assert_eq!(confirmed.payment_plan(&config), PaymentPlan::GiveUp);
}

#[test]
fn the_defaults_are_the_documented_ones() {
    let config = defaults();
    assert_eq!(config.payout_multiplier.parts_per_million, 1_010_000);
    assert_eq!(config.required_confirmations, 6);
    assert_eq!(config.cutoff_block_height, 930_400);
    assert_eq!(config.max_input_sats, 1000);
    assert_eq!(config.wallet_descriptor, "d");
    assert_eq!(config.chain_backend_url, "u");
    assert_eq!(config.wallet_connect_uri, "w");
}

#[test]
fn the_monitor_backs_off_and_recovers() {
    let expected = [30u64, 60, 120, 240, 300, 300, 300];
    for (errors, secs) in expected.iter().enumerate() {
        assert_eq!(backoff_delay_secs(errors as u32), *secs);
    }
    assert_eq!(backoff_delay_secs(u32::MAX), 300);
    let mut state = MonitorLoop::new();
    assert_eq!(state.delay_secs(), 30);
    state = state.after_look(false);
    state = state.after_look(false);
    assert_eq!(state.consecutive_errors, 2);
    assert_eq!(state.delay_secs(), 120);
    state = state.after_look(true);
    assert_eq!(state.consecutive_errors, 0);
    assert_eq!(state.delay_secs(), 30);
    let stuck = MonitorLoop { consecutive_errors: u32::MAX }.after_look(false);
    assert_eq!(stuck.consecutive_errors, u32::MAX);
}
