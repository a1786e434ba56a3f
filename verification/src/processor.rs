//! The payment processor: what is due on a confirmed recycle, and what a
//! payment does to its record.

use vstd::prelude::*;
use crate::config::{Config, PayoutMultiplier, payout_amount, payout_for};
use crate::nwc::PaymentResult;
use crate::preimage::preimage_opens;
use crate::record::{MAX_PAYMENT_ATTEMPTS, Recycle, RecycleView};
use crate::status::RecycleStatus;
use crate::store::{RecycleRepository, holds_id, statuses_move_forward};
use crate::time::Timestamp;

verus! {

/// What the processor does next with a recycle.
#[derive(Debug, Clone, Copy, PartialEq, Eq, Structural)]
pub enum PaymentPlan {
    /// The recycle does not wait for a payout.
    NotDue,
    /// The attempts are used up: the recycle fails.
    GiveUp,
    /// The record holds no deposit amount: nothing is attempted.
    MissingAmount,
    /// No amount can hold the payout: nothing is attempted.
    PayoutTooLarge,
    /// An invoice for `payout_sats` is to be requested and paid; this is
    /// attempt number `attempt`.
    Attempt { payout_sats: u64, attempt: u32 },
}

/// What is due on a record: nothing unless it is confirmed; failure once
/// the attempts are used up; else one more attempt at the payout
/// `floor(deposit × multiplier)`.
pub open spec fn planned(record: RecycleView, multiplier: PayoutMultiplier) -> PaymentPlan {
    if record.status != RecycleStatus::Confirmed {
        PaymentPlan::NotDue
    } else if record.payment_attempts >= MAX_PAYMENT_ATTEMPTS {
        PaymentPlan::GiveUp
    } else {
        match record.deposit_amount_sats {
            None => PaymentPlan::MissingAmount,
            Some(deposit) => match payout_amount(deposit, multiplier) {
                None => PaymentPlan::PayoutTooLarge,
                Some(payout_sats) => PaymentPlan::Attempt {
                    payout_sats,
                    attempt: (record.payment_attempts + 1) as u32,
                },
            },
        }
    }
}

/// The record once the plan is acted on: failed where the processor gives
/// up, one attempt further where it attempts, and else unchanged. The
/// attempt is counted before anything is sent.
pub open spec fn payment_begun(
    record: RecycleView,
    multiplier: PayoutMultiplier,
    now: Timestamp,
) -> RecycleView {
    match planned(record, multiplier) {
        PaymentPlan::GiveUp => record.with_failure(now),
        PaymentPlan::Attempt { .. } => record.with_attempt(now),
        _ => record,
    }
}

/// The record once the wallet has answered with a preimage: paid with the
/// payout `floor(deposit × multiplier)`, if the record is confirmed, the
/// preimage opens the payment hash, and the payout is an amount; else
/// unchanged.
pub open spec fn payment_completed(
    record: RecycleView,
    preimage: Seq<char>,
    payment_hash: Seq<char>,
    multiplier: PayoutMultiplier,
    now: Timestamp,
) -> RecycleView {
    if record.may_be_paid(preimage, payment_hash) && record.deposit_amount_sats is Some
        && payout_amount(record.deposit_amount_sats.unwrap(), multiplier) is Some {
        record.with_payment(
            payout_amount(record.deposit_amount_sats.unwrap(), multiplier).unwrap(),
            preimage,
            payment_hash,
            now,
        )
    } else {
        record
    }
}

/// A record that a payment turned paid holds exactly the payout
/// `floor(deposit × multiplier)`, and a preimage that opens its payment
/// hash.
pub proof fn lemma_paid_is_exact(
    record: RecycleView,
    preimage: Seq<char>,
    payment_hash: Seq<char>,
    multiplier: PayoutMultiplier,
    now: Timestamp,
)
    requires
        record.status != RecycleStatus::Paid,
        payment_completed(record, preimage, payment_hash, multiplier, now).status
            == RecycleStatus::Paid,
    ensures
        ({
            let paid = payment_completed(record, preimage, payment_hash, multiplier, now);
            &&& record.deposit_amount_sats is Some
            &&& paid.deposit_amount_sats == record.deposit_amount_sats
            &&& paid.payout_amount_sats matches Some(payout) && payout == payout_for(
                record.deposit_amount_sats.unwrap(),
                multiplier,
            )
            &&& preimage_opens(paid.payment_preimage.unwrap(), paid.payment_hash.unwrap())
        }),
{
}

/// Acting on the plan keeps the attempts within their bound, whatever the
/// record was.
pub proof fn lemma_attempts_stay_bounded(
    record: RecycleView,
    multiplier: PayoutMultiplier,
    now: Timestamp,
)
    requires
        record.payment_attempts <= MAX_PAYMENT_ATTEMPTS,
    ensures
        payment_begun(record, multiplier, now).payment_attempts <= MAX_PAYMENT_ATTEMPTS,
{
}

impl Recycle {
    /// What is due on the record.
    pub fn payment_plan(&self, config: &Config) -> (plan: PaymentPlan)
        ensures
            plan == planned(self@, config.payout_multiplier),
    {
        match self.status {
            RecycleStatus::Confirmed => {},
            _ => {
                return PaymentPlan::NotDue;
            },
        }
        if self.payment_attempts >= MAX_PAYMENT_ATTEMPTS {
            return PaymentPlan::GiveUp;
        }
        match self.deposit_amount_sats {
            None => PaymentPlan::MissingAmount,
            Some(deposit) => match config.payout_multiplier.payout_sats(deposit) {
                None => PaymentPlan::PayoutTooLarge,
                Some(payout_sats) => PaymentPlan::Attempt {
                    payout_sats,
                    attempt: self.payment_attempts + 1,
                },
            },
        }
    }

    /// Acts on the plan: the record fails where the attempts are used up,
    /// and counts one more attempt where a payment is to be attempted.
    pub fn begin_payment(self, config: &Config, now: Timestamp) -> (r: (Recycle, PaymentPlan))
        ensures
            r.1 == planned(self@, config.payout_multiplier),
            r.0@ == payment_begun(self@, config.payout_multiplier, now),
            self@.status.stays_or_advances(r.0@.status),
            self@.consistent() ==> r.0@.consistent(),
    {
        let plan = self.payment_plan(config);
        let next = match plan {
            PaymentPlan::GiveUp => self.mark_failed(now),
            PaymentPlan::Attempt { .. } => self.count_payment_attempt(now),
            _ => self,
        };
        (next, plan)
    }

    /// Takes the answer of the wallet: the record is paid, with the payout
    /// `floor(deposit × multiplier)`, if it is confirmed and the preimage
    /// opens the payment hash.
    pub fn complete_payment(self, result: &PaymentResult, config: &Config, now: Timestamp) -> (r:
        Recycle)
        ensures
            r@ == payment_completed(
                self@,
                result.preimage@,
                result.payment_hash@,
                config.payout_multiplier,
                now,
            ),
            self@.status.stays_or_advances(r@.status),
            self@.consistent() ==> r@.consistent(),
            r@.status == RecycleStatus::Paid && self@.status != RecycleStatus::Paid ==> {
                &&& self@.deposit_amount_sats is Some
                &&& r@.payout_amount_sats matches Some(payout) && payout == payout_for(
                    self@.deposit_amount_sats.unwrap(),
                    config.payout_multiplier,
                )
                &&& preimage_opens(result.preimage@, result.payment_hash@)
            },
    {
        let payout = match self.deposit_amount_sats {
            None => {
                return self;
            },
            Some(deposit) => match config.payout_multiplier.payout_sats(deposit) {
                None => {
                    return self;
                },
                Some(p) => p,
            },
        };
        self.mark_paid(payout, result.preimage.as_str(), result.payment_hash.as_str(), now)
    }
}

impl RecycleRepository {
    /// Acts on what is due on the recycle with the id `id`, and says what
    /// that was: see `planned` and `payment_begun`.
    pub fn begin_payment(&mut self, id: &str, config: &Config, now: Timestamp) -> (plan:
        PaymentPlan)
        requires
            old(self).wf(),
        ensures
            final(self).wf(),
            final(self).next_index() == old(self).next_index(),
            final(self).records().len() == old(self).records().len(),
            forall|i: int|
                0 <= i < old(self).records().len() ==> #[trigger] final(self).records()[i] == if old(
                    self,
                ).records()[i].id == id@ {
                    payment_begun(old(self).records()[i], config.payout_multiplier, now)
                } else {
                    old(self).records()[i]
                },
            forall|i: int|
                0 <= i < old(self).records().len() && (#[trigger] old(self).records()[i]).id == id@
                    ==> plan == planned(old(self).records()[i], config.payout_multiplier),
            !holds_id(old(self).records(), id@) ==> plan == PaymentPlan::NotDue,
            statuses_move_forward(old(self).records(), final(self).records()),
    {
        match self.position_of_id(id) {
            None => PaymentPlan::NotDue,
            Some(i) => {
                let current = self.record_at(i);
                let (next, plan) = current.begin_payment(config, now);
                self.replace(i, next);
                plan
            },
        }
    }

    /// Takes the answer of the wallet for the recycle with the id `id`: see
    /// `payment_completed`. Says whether the recycle was marked paid.
    pub fn complete_payment(
        &mut self,
        id: &str,
        result: &PaymentResult,
        config: &Config,
        now: Timestamp,
    ) -> (paid: bool)
        requires
            old(self).wf(),
        ensures
            final(self).wf(),
            final(self).next_index() == old(self).next_index(),
            final(self).records().len() == old(self).records().len(),
            forall|i: int|
                0 <= i < old(self).records().len() ==> #[trigger] final(self).records()[i] == if old(
                    self,
                ).records()[i].id == id@ {
                    payment_completed(
                        old(self).records()[i],
                        result.preimage@,
                        result.payment_hash@,
                        config.payout_multiplier,
                        now,
                    )
                } else {
                    old(self).records()[i]
                },
            paid == exists|i: int|
                0 <= i < old(self).records().len() && (#[trigger] old(self).records()[i]).status
                    != RecycleStatus::Paid && final(self).records()[i].status
                    == RecycleStatus::Paid,
            forall|i: int|
                0 <= i < old(self).records().len() && (#[trigger] old(self).records()[i]).status
                    != RecycleStatus::Paid && final(self).records()[i].status
                    == RecycleStatus::Paid ==> final(self).records()[i].payout_amount_sats
                    == Some(
                    payout_for(
                        old(self).records()[i].deposit_amount_sats.unwrap(),
                        config.payout_multiplier,
                    ) as u64,
                ) && payout_for(
                    old(self).records()[i].deposit_amount_sats.unwrap(),
                    config.payout_multiplier,
                ) <= u64::MAX,
            statuses_move_forward(old(self).records(), final(self).records()),
    {
        match self.position_of_id(id) {
            None => false,
            Some(i) => {
                let current = self.record_at(i);
                let was_paid = match current.status {
                    RecycleStatus::Paid => true,
                    _ => false,
                };
                let next = current.complete_payment(result, config, now);
                let is_paid = match next.status {
                    RecycleStatus::Paid => true,
                    _ => false,
                };
                self.replace(i, next);
                assert(old(self).records()[i as int].id == id@);
                is_paid && !was_paid
            },
        }
    }
}

} // verus!
