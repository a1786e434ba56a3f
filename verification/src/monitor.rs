//! The deposit monitor: what one look at the chain view does to the
//! pending recycles, and how long the monitor waits between looks.

use vstd::prelude::*;
use crate::chain::{
    ChainModel, ChainView, DepositInfo, DepositModel, aggregate, all_confirmed,
    check_address_deposit, deposits_to, joined, lowest_height, max_input_value_for_many,
    max_input_value_of_many, total_paid_to,
};
use crate::config::Config;
use crate::eligibility::{Eligibility, after_cutoff, decide_eligibility, eligibility_of, inputs_decide};
use crate::record::{Recycle, RecycleView};
use crate::status::RecycleStatus;
use crate::store::{RecycleRepository, statuses_move_forward};
use crate::time::Timestamp;

verus! {

/// Seconds between two looks while all goes well.
pub const BASE_INTERVAL_SECS: u64 = 30;

/// The longest wait after errors, in seconds.
pub const MAX_BACKOFF_SECS: u64 = 300;

/// 2 to the power `k`.
pub open spec fn two_to(k: nat) -> nat
    decreases k,
{
    if k == 0 {
        1
    } else {
        2 * two_to((k - 1) as nat)
    }
}

/// The wait before the next look after `consecutive_errors` failed looks in
/// a row: the base interval after none, else the base interval doubled for
/// each error up to four, and at most the longest wait.
pub open spec fn backoff_secs(consecutive_errors: u32) -> nat {
    if consecutive_errors == 0 {
        BASE_INTERVAL_SECS as nat
    } else {
        let exponent: nat = if consecutive_errors < 4 {
            consecutive_errors as nat
        } else {
            4
        };
        let doubled = BASE_INTERVAL_SECS as nat * two_to(exponent);
        if doubled > MAX_BACKOFF_SECS {
            MAX_BACKOFF_SECS as nat
        } else {
            doubled
        }
    }
}

/// The wait before the next look, in seconds.
pub fn backoff_delay_secs(consecutive_errors: u32) -> (secs: u64)
    ensures
        secs == backoff_secs(consecutive_errors),
        BASE_INTERVAL_SECS <= secs <= MAX_BACKOFF_SECS,
{
    proof {
        reveal_with_fuel(two_to, 5);
    }
    if consecutive_errors == 0 {
        return BASE_INTERVAL_SECS;
    }
    let exponent: u32 = if consecutive_errors < 4 {
        consecutive_errors
    } else {
        4
    };
    let mut factor: u64 = 1;
    let mut k: u32 = 0;
    while k < exponent
        invariant
            k <= exponent <= 4,
            factor == two_to(k as nat),
            factor <= 16,
        decreases exponent - k,
    {
        proof {
            reveal_with_fuel(two_to, 5);
        }
        factor = factor * 2;
        k = k + 1;
    }
    let doubled = BASE_INTERVAL_SECS * factor;
    if doubled > MAX_BACKOFF_SECS {
        MAX_BACKOFF_SECS
    } else {
        doubled
    }
}

/// The state of the monitor loop: how many looks have failed in a row.
#[derive(Debug, Clone, Copy, PartialEq, Eq, Structural)]
pub struct MonitorLoop {
    pub consecutive_errors: u32,
}

impl MonitorLoop {
    pub fn new() -> (state: MonitorLoop)
        ensures
            state.consecutive_errors == 0,
    {
        MonitorLoop { consecutive_errors: 0 }
    }

    /// The wait before the next look.
    pub fn delay_secs(&self) -> (secs: u64)
        ensures
            secs == backoff_secs(self.consecutive_errors),
    {
        backoff_delay_secs(self.consecutive_errors)
    }

    /// The state after a look: no errors once a look succeeds, one more
    /// error once it fails.
    pub fn after_look(self, succeeded: bool) -> (next: MonitorLoop)
        ensures
            succeeded ==> next.consecutive_errors == 0,
            !succeeded && self.consecutive_errors < u32::MAX ==> next.consecutive_errors
                == self.consecutive_errors + 1,
            !succeeded && self.consecutive_errors == u32::MAX ==> next.consecutive_errors
                == u32::MAX,
    {
        if succeeded {
            MonitorLoop { consecutive_errors: 0 }
        } else if self.consecutive_errors == u32::MAX {
            self
        } else {
            MonitorLoop { consecutive_errors: self.consecutive_errors + 1 }
        }
    }
}

/// Whether one look applies the eligibility rules to a recycle: its
/// deposits are all confirmed, and the rules were not applied before, which
/// the missing block height of the record shows.
pub open spec fn rules_apply(record: RecycleView, deposit: DepositModel) -> bool {
    &&& all_confirmed(deposit.deposits)
    &&& (record.status == RecycleStatus::AwaitingDeposit || (record.status
        == RecycleStatus::Confirming && record.deposit_block_height is None))
}

/// Whether the input values of the deposits are wanted: the rules apply
/// and the block-height rule leaves the deposit alone.
pub open spec fn input_values_wanted(
    record: RecycleView,
    deposit: DepositModel,
    cutoff_block_height: u32,
) -> bool {
    rules_apply(record, deposit) && !after_cutoff(deposit.deposits, cutoff_block_height)
}

/// What one look does to a record, given the deposits seen at its address
/// and the largest input value of those deposits as far as it could be
/// resolved (looked at only where `input_values_wanted`).
///
/// Where the rules apply, the record becomes a donation or takes the
/// deposit with its block height and input value. A recycle that awaits
/// its deposit and sees one that is not yet confirmed takes the deposit
/// without them. A confirming recycle otherwise only moves its confirmation
/// count. A record in any other status is left alone.
pub open spec fn monitored(
    record: RecycleView,
    deposit: DepositModel,
    max_input: Option<u64>,
    required_confirmations: u32,
    cutoff_block_height: u32,
    max_input_sats: u64,
    now: Timestamp,
) -> RecycleView {
    let txids = joined(deposit.txids);
    if rules_apply(record, deposit) {
        match eligibility_of(deposit.deposits, max_input, cutoff_block_height, max_input_sats) {
            Eligibility::Donation { reason, max_input_sats: seen } => record.with_donation(
                txids,
                deposit.amount_sats,
                lowest_height(deposit.deposits),
                seen,
                reason,
                now,
            ),
            Eligibility::Eligible { max_input_sats: seen } => record.with_deposit_detected(
                txids,
                deposit.amount_sats,
                deposit.min_confirmations,
                lowest_height(deposit.deposits),
                seen,
                required_confirmations,
                now,
            ),
        }
    } else if record.status == RecycleStatus::AwaitingDeposit {
        record.with_deposit_detected(
            txids,
            deposit.amount_sats,
            deposit.min_confirmations,
            None,
            None,
            required_confirmations,
            now,
        )
    } else if record.status == RecycleStatus::Confirming {
        record.with_confirmations(deposit.min_confirmations, required_confirmations, now)
    } else {
        record
    }
}

/// What one look at a chain view does to a record: nothing to a record
/// that is not pending, nothing where no transaction pays its address or
/// where what is paid cannot be summed, and else `monitored` with the
/// deposits and input values that the view holds.
pub open spec fn monitored_in(
    record: RecycleView,
    chain: ChainModel,
    required_confirmations: u32,
    cutoff_block_height: u32,
    max_input_sats: u64,
    now: Timestamp,
) -> RecycleView {
    if !record.status.is_pending() {
        record
    } else if total_paid_to(chain.transactions, record.address_index) > u64::MAX {
        record
    } else if deposits_to(chain.transactions, record.address_index, chain.tip_height).len() == 0 {
        record
    } else {
        let deposit = aggregate(chain.transactions, record.address_index, chain.tip_height);
        monitored(
            record,
            deposit,
            max_input_value_of_many(chain.transactions, deposit.txids),
            required_confirmations,
            cutoff_block_height,
            max_input_sats,
            now,
        )
    }
}

/// Whether one look at a chain view sees a deposit for a record: the
/// record is pending, and the view holds transactions that pay its address
/// a sum that an amount can hold.
pub open spec fn deposit_seen(record: RecycleView, chain: ChainModel) -> bool {
    &&& record.status.is_pending()
    &&& total_paid_to(chain.transactions, record.address_index) <= u64::MAX
    &&& deposits_to(chain.transactions, record.address_index, chain.tip_height).len() > 0
}

/// One look never moves a status backwards, and keeps a consistent record
/// consistent.
pub proof fn lemma_monitored_moves_forward(
    record: RecycleView,
    deposit: DepositModel,
    max_input: Option<u64>,
    required_confirmations: u32,
    cutoff_block_height: u32,
    max_input_sats: u64,
    now: Timestamp,
)
    ensures
        record.status.stays_or_advances(
            monitored(
                record,
                deposit,
                max_input,
                required_confirmations,
                cutoff_block_height,
                max_input_sats,
                now,
            ).status,
        ),
        record.consistent() ==> monitored(
            record,
            deposit,
            max_input,
            required_confirmations,
            cutoff_block_height,
            max_input_sats,
            now,
        ).consistent(),
{
}

/// A record that one look turned into a donation gives the reason, and the
/// reason holds: for the block height, the highest block height of the
/// deposits is at or after the cutoff, and so is the recorded block height
/// where the deposits share one height; for the input, the recorded
/// largest input value is at or above the limit.
pub proof fn lemma_monitored_donation_is_justified(
    record: RecycleView,
    deposit: DepositModel,
    max_input: Option<u64>,
    required_confirmations: u32,
    cutoff_block_height: u32,
    max_input_sats: u64,
    now: Timestamp,
)
    requires
        record.status.is_pending(),
    ensures
        ({
            let after = monitored(
                record,
                deposit,
                max_input,
                required_confirmations,
                cutoff_block_height,
                max_input_sats,
                now,
            );
            after.status == RecycleStatus::Donation ==> {
                &&& after.donation_reason is Some
                &&& after.donation_reason == Some(crate::record::DonationReason::BlockHeight) ==> {
                    &&& after_cutoff(deposit.deposits, cutoff_block_height)
                    &&& lowest_height(deposit.deposits) == crate::chain::highest_height(
                        deposit.deposits,
                    ) ==> (after.deposit_block_height matches Some(h) && h >= cutoff_block_height)
                }
                &&& after.donation_reason == Some(crate::record::DonationReason::InputTooLarge)
                    ==> (after.max_input_sats matches Some(v) && v >= max_input_sats)
            }
        }),
{
}

/// Whether the caller has to resolve the input values of the deposits
/// before `Recycle::after_deposit_check` can decide.
pub fn wants_input_values(record: &Recycle, deposit: &DepositInfo, config: &Config) -> (r: bool)
    ensures
        r == input_values_wanted(record@, deposit@, config.cutoff_block_height),
{
    let undecided = match record.status {
        RecycleStatus::AwaitingDeposit => true,
        RecycleStatus::Confirming => record.deposit_block_height.is_none(),
        _ => false,
    };
    undecided && deposit.all_confirmed() && inputs_decide(deposit, config)
}

impl Recycle {
    /// The record after one look that saw `deposit` at its address.
    /// `max_input` is the largest input value of the deposits as far as it
    /// could be resolved; it is looked at only where `wants_input_values`.
    pub fn after_deposit_check(
        self,
        deposit: &DepositInfo,
        max_input: Option<u64>,
        config: &Config,
        now: Timestamp,
    ) -> (r: Recycle)
        ensures
            r@ == monitored(
                self@,
                deposit@,
                max_input,
                config.required_confirmations,
                config.cutoff_block_height,
                config.max_input_sats,
                now,
            ),
            self@.status.stays_or_advances(r@.status),
            self@.consistent() ==> r@.consistent(),
    {
        let undecided = match self.status {
            RecycleStatus::AwaitingDeposit => true,
            RecycleStatus::Confirming => self.deposit_block_height.is_none(),
            _ => false,
        };
        let txids = deposit.txids_csv();
        if undecided && deposit.all_confirmed() {
            let height = deposit.min_block_height();
            match decide_eligibility(deposit, max_input, config) {
                Eligibility::Donation { reason, max_input_sats } => self.mark_donation(
                    txids.as_str(),
                    deposit.amount_sats,
                    height,
                    max_input_sats,
                    reason,
                    now,
                ),
                Eligibility::Eligible { max_input_sats } => self.record_deposit_detected(
                    txids.as_str(),
                    deposit.amount_sats,
                    deposit.min_confirmations,
                    height,
                    max_input_sats,
                    config.required_confirmations,
                    now,
                ),
            }
        } else {
            match self.status {
                RecycleStatus::AwaitingDeposit => self.record_deposit_detected(
                    txids.as_str(),
                    deposit.amount_sats,
                    deposit.min_confirmations,
                    None,
                    None,
                    config.required_confirmations,
                    now,
                ),
                RecycleStatus::Confirming => self.update_confirmations(
                    deposit.min_confirmations,
                    config.required_confirmations,
                    now,
                ),
                _ => self,
            }
        }
    }
}

impl RecycleRepository {
    /// Applies one look to the record with the id `id`: see `monitored`.
    /// Says whether there is a pending record with that id.
    pub fn apply_deposit_check(
        &mut self,
        id: &str,
        deposit: &DepositInfo,
        max_input: Option<u64>,
        config: &Config,
        now: Timestamp,
    ) -> (applied: bool)
        requires
            old(self).wf(),
        ensures
            final(self).wf(),
            final(self).next_index() == old(self).next_index(),
            final(self).records().len() == old(self).records().len(),
            forall|i: int|
                0 <= i < old(self).records().len() ==> #[trigger] final(self).records()[i] == if old(
                    self,
                ).records()[i].id == id@ {
                    monitored(
                        old(self).records()[i],
                        deposit@,
                        max_input,
                        config.required_confirmations,
                        config.cutoff_block_height,
                        config.max_input_sats,
                        now,
                    )
                } else {
                    old(self).records()[i]
                },
            applied == exists|i: int|
                0 <= i < old(self).records().len() && (#[trigger] old(self).records()[i]).id == id@
                    && old(self).records()[i].status.is_pending(),
            statuses_move_forward(old(self).records(), final(self).records()),
    {
        match self.position_of_id(id) {
            None => false,
            Some(i) => {
                let current = self.record_at(i);
                let applied = current.status.pending();
                let next = current.after_deposit_check(deposit, max_input, config, now);
                self.replace(i, next);
                applied
            },
        }
    }
}

/// One look of the deposit monitor: every pending recycle is held against
/// the chain view and moved as `monitored_in` says. Returns the number of
/// recycles that a deposit was seen for.
pub fn check_deposits(
    store: &mut RecycleRepository,
    view: &ChainView,
    config: &Config,
    now: Timestamp,
) -> (seen: usize)
    requires
        old(store).wf(),
    ensures
        final(store).wf(),
        final(store).next_index() == old(store).next_index(),
        final(store).records().len() == old(store).records().len(),
        forall|i: int|
            0 <= i < old(store).records().len() ==> #[trigger] final(store).records()[i]
                == monitored_in(
                old(store).records()[i],
                view@,
                config.required_confirmations,
                config.cutoff_block_height,
                config.max_input_sats,
                now,
            ),
        statuses_move_forward(old(store).records(), final(store).records()),
        seen == old(store).records().filter(|r: RecycleView| deposit_seen(r, view@)).len(),
{
    let n = store.len();
    let ghost start = store.records();
    let ghost pred = |r: RecycleView| deposit_seen(r, view@);
    let mut seen: usize = 0;
    let mut i: usize = 0;
    assert(start.take(0) =~= Seq::<RecycleView>::empty());
    while i < n
        invariant
            i <= n,
            seen <= i,
            start == old(store).records(),
            pred == |r: RecycleView| deposit_seen(r, view@),
            seen == start.take(i as int).filter(pred).len(),
            n == old(store).records().len(),
            store.wf(),
            store.next_index() == old(store).next_index(),
            store.records().len() == n,
            forall|k: int|
                0 <= k < i ==> #[trigger] store.records()[k] == monitored_in(
                    old(store).records()[k],
                    view@,
                    config.required_confirmations,
                    config.cutoff_block_height,
                    config.max_input_sats,
                    now,
                ),
            forall|k: int| i <= k < n ==> #[trigger] store.records()[k] == old(store).records()[k],
            statuses_move_forward(old(store).records(), store.records()),
        decreases n - i,
    {
        let current = store.record_at(i);
        let ghost before = store.records();
        proof {
            reveal(Seq::filter);
            assert(start.take(i + 1).drop_last() =~= start.take(i as int));
            assert(start.take(i + 1).last() == current@);
        }
        if current.status.pending() {
            match check_address_deposit(view, current.address_index) {
                Ok(Some(deposit)) => {
                    let max_input = if wants_input_values(&current, &deposit, config) {
                        max_input_value_for_many(view, &deposit.txids)
                    } else {
                        None
                    };
                    proof {
                        lemma_monitored_moves_forward(
                            current@,
                            deposit@,
                            max_input,
                            config.required_confirmations,
                            config.cutoff_block_height,
                            config.max_input_sats,
                            now,
                        );
                    }
                    store.apply_deposit_check(current.id.as_str(), &deposit, max_input, config, now);
                    seen = seen + 1;
                    proof {
                        assert forall|k: int| 0 <= k < n && k != i implies #[trigger] store.records()[k]
                            == before[k] by {
                            assert(before[k].id != before[i as int].id);
                        }
                    }
                },
                _ => {},
            }
        }
        i = i + 1;
    }
    assert(start.take(i as int) =~= start);
    seen
}

} // verus!
