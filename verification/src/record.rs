//! The persistent record of one recycle, its mathematical view, and the
//! changes that the state machine makes to it.

use vstd::prelude::*;
use crate::preimage::{preimage_opens, verify_preimage};
use crate::status::RecycleStatus;
use crate::text::str_eq;
use crate::time::Timestamp;

verus! {

/// The bound on payment attempts; a recycle that has used them up fails.
pub const MAX_PAYMENT_ATTEMPTS: u32 = 10;

/// Why a deposit was kept as a donation.
#[derive(Debug, Clone, Copy, PartialEq, Eq, Structural)]
pub enum DonationReason {
    /// The deposit was confirmed at or after the cutoff block height.
    BlockHeight,
    /// An input of the deposit spends an output at or above the limit.
    InputTooLarge,
}

impl DonationReason {
    /// The literal under which the reason is persisted.
    pub open spec fn text(self) -> Seq<char> {
        match self {
            DonationReason::BlockHeight => "block_height"@,
            DonationReason::InputTooLarge => "input_too_large"@,
        }
    }

    /// The reason that a persisted literal stands for, if any.
    pub open spec fn parse(s: Seq<char>) -> Option<DonationReason> {
        if s == "block_height"@ {
            Some(DonationReason::BlockHeight)
        } else if s == "input_too_large"@ {
            Some(DonationReason::InputTooLarge)
        } else {
            None
        }
    }

    pub fn as_str(&self) -> (s: &'static str)
        ensures
            s@ == self.text(),
    {
        match self {
            DonationReason::BlockHeight => "block_height",
            DonationReason::InputTooLarge => "input_too_large",
        }
    }

    pub fn from_str(s: &str) -> (r: Option<DonationReason>)
        ensures
            r == DonationReason::parse(s@),
    {
        if str_eq(s, "block_height") {
            Some(DonationReason::BlockHeight)
        } else if str_eq(s, "input_too_large") {
            Some(DonationReason::InputTooLarge)
        } else {
            None
        }
    }
}

/// The status that a confirmation count gives a funded recycle.
pub open spec fn status_for(confirmations: u32, required_confirmations: u32) -> RecycleStatus {
    if confirmations >= required_confirmations {
        RecycleStatus::Confirmed
    } else {
        RecycleStatus::Confirming
    }
}

pub fn status_for_confirmations(confirmations: u32, required_confirmations: u32) -> (s:
    RecycleStatus)
    ensures
        s == status_for(confirmations, required_confirmations),
{
    if confirmations >= required_confirmations {
        RecycleStatus::Confirmed
    } else {
        RecycleStatus::Confirming
    }
}

/// The view of optional text.
pub open spec fn text_of(o: Option<String>) -> Option<Seq<char>> {
    match o {
        Some(s) => Some(s@),
        None => None,
    }
}

/// An optional amount of a row as an unsigned amount.
pub open spec fn sats_of(o: Option<i64>) -> Option<u64> {
    match o {
        Some(v) => Some(v as u64),
        None => None,
    }
}

fn sats_from(o: Option<i64>) -> (r: Option<u64>)
    ensures
        r == sats_of(o),
{
    match o {
        Some(v) => Some(#[verifier::truncate] (v as u64)),
        None => None,
    }
}

/// A recycle as the database row holds it.
#[derive(Debug, Clone)]
pub struct RecycleRow {
    pub id: String,
    pub lightning_address: String,
    pub deposit_address: String,
    pub address_index: i64,
    pub status: String,
    pub deposit_txid: Option<String>,
    pub deposit_amount_sats: Option<i64>,
    pub deposit_confirmations: Option<i64>,
    pub deposit_block_height: Option<i64>,
    pub is_eligible: Option<i64>,
    pub donation_reason: Option<String>,
    pub max_input_sats: Option<i64>,
    pub payout_amount_sats: Option<i64>,
    pub payment_preimage: Option<String>,
    pub payment_hash: Option<String>,
    pub payment_attempts: i64,
    pub created_at: String,
    pub updated_at: String,
    pub paid_at: Option<String>,
}

/// One recycle: a deposit address handed to a user, and what became of it.
#[derive(Debug, Clone)]
pub struct Recycle {
    pub id: String,
    pub lightning_address: String,
    pub deposit_address: String,
    pub address_index: u32,
    pub status: RecycleStatus,
    /// The transactions that fund the deposit address, joined by commas.
    pub deposit_txid: Option<String>,
    pub deposit_amount_sats: Option<u64>,
    pub deposit_confirmations: u32,
    /// The lowest block height at which a deposit was confirmed.
    pub deposit_block_height: Option<u32>,
    pub is_eligible: bool,
    pub donation_reason: Option<DonationReason>,
    /// The largest value among the outputs that the deposits spend.
    pub max_input_sats: Option<u64>,
    pub payout_amount_sats: Option<u64>,
    pub payment_preimage: Option<String>,
    pub payment_hash: Option<String>,
    pub payment_attempts: u32,
    pub created_at: Timestamp,
    pub updated_at: Timestamp,
    pub paid_at: Option<Timestamp>,
}

/// A recycle as a mathematical value.
pub struct RecycleView {
    pub id: Seq<char>,
    pub lightning_address: Seq<char>,
    pub deposit_address: Seq<char>,
    pub address_index: u32,
    pub status: RecycleStatus,
    pub deposit_txid: Option<Seq<char>>,
    pub deposit_amount_sats: Option<u64>,
    pub deposit_confirmations: u32,
    pub deposit_block_height: Option<u32>,
    pub is_eligible: bool,
    pub donation_reason: Option<DonationReason>,
    pub max_input_sats: Option<u64>,
    pub payout_amount_sats: Option<u64>,
    pub payment_preimage: Option<Seq<char>>,
    pub payment_hash: Option<Seq<char>>,
    pub payment_attempts: u32,
    pub created_at: Timestamp,
    pub updated_at: Timestamp,
    pub paid_at: Option<Timestamp>,
}

impl View for Recycle {
    type V = RecycleView;

    open spec fn view(&self) -> RecycleView {
        RecycleView {
            id: self.id@,
            lightning_address: self.lightning_address@,
            deposit_address: self.deposit_address@,
            address_index: self.address_index,
            status: self.status,
            deposit_txid: text_of(self.deposit_txid),
            deposit_amount_sats: self.deposit_amount_sats,
            deposit_confirmations: self.deposit_confirmations,
            deposit_block_height: self.deposit_block_height,
            is_eligible: self.is_eligible,
            donation_reason: self.donation_reason,
            max_input_sats: self.max_input_sats,
            payout_amount_sats: self.payout_amount_sats,
            payment_preimage: text_of(self.payment_preimage),
            payment_hash: text_of(self.payment_hash),
            payment_attempts: self.payment_attempts,
            created_at: self.created_at,
            updated_at: self.updated_at,
            paid_at: self.paid_at,
        }
    }
}

impl RecycleView {
    /// What holds of every record that the state machine has produced.
    pub open spec fn consistent(self) -> bool {
        &&& self.payment_attempts <= MAX_PAYMENT_ATTEMPTS
        &&& (self.donation_reason is Some <==> self.status == RecycleStatus::Donation)
        &&& (!self.is_eligible <==> self.status == RecycleStatus::Donation)
        &&& (self.payout_amount_sats is Some <==> self.status == RecycleStatus::Paid)
        &&& (self.payment_preimage is Some <==> self.status == RecycleStatus::Paid)
        &&& (self.payment_hash is Some <==> self.status == RecycleStatus::Paid)
        &&& (self.paid_at is Some <==> self.status == RecycleStatus::Paid)
        &&& (self.status == RecycleStatus::Paid ==> preimage_opens(
            self.payment_preimage.unwrap(),
            self.payment_hash.unwrap(),
        ))
    }

    /// The record of a recycle that was just created.
    pub open spec fn created(
        id: Seq<char>,
        lightning_address: Seq<char>,
        deposit_address: Seq<char>,
        address_index: u32,
        now: Timestamp,
    ) -> RecycleView {
        RecycleView {
            id,
            lightning_address,
            deposit_address,
            address_index,
            status: RecycleStatus::AwaitingDeposit,
            deposit_txid: None,
            deposit_amount_sats: None,
            deposit_confirmations: 0,
            deposit_block_height: None,
            is_eligible: true,
            donation_reason: None,
            max_input_sats: None,
            payout_amount_sats: None,
            payment_preimage: None,
            payment_hash: None,
            payment_attempts: 0,
            created_at: now,
            updated_at: now,
            paid_at: None,
        }
    }

    /// The record that a database row stands for. Numbers are read as the
    /// unsigned values of their low bits, a missing confirmation count as 0,
    /// a missing eligibility flag as eligible, unknown status text as
    /// `Failed`, and creation and update times that cannot be read as `now`.
    pub open spec fn from_row(row: RecycleRow, now: Timestamp) -> RecycleView {
        RecycleView {
            id: row.id@,
            lightning_address: row.lightning_address@,
            deposit_address: row.deposit_address@,
            address_index: row.address_index as u32,
            status: RecycleStatus::parse(row.status@),
            deposit_txid: text_of(row.deposit_txid),
            deposit_amount_sats: sats_of(row.deposit_amount_sats),
            deposit_confirmations: match row.deposit_confirmations {
                Some(v) => v as u32,
                None => 0,
            },
            deposit_block_height: match row.deposit_block_height {
                Some(v) => Some(v as u32),
                None => None,
            },
            is_eligible: match row.is_eligible {
                Some(v) => v == 1,
                None => true,
            },
            donation_reason: match row.donation_reason {
                Some(s) => DonationReason::parse(s@),
                None => None,
            },
            max_input_sats: sats_of(row.max_input_sats),
            payout_amount_sats: sats_of(row.payout_amount_sats),
            payment_preimage: text_of(row.payment_preimage),
            payment_hash: text_of(row.payment_hash),
            payment_attempts: row.payment_attempts as u32,
            created_at: match Timestamp::read(row.created_at@) {
                Some(t) => t,
                None => now,
            },
            updated_at: match Timestamp::read(row.updated_at@) {
                Some(t) => t,
                None => now,
            },
            paid_at: match row.paid_at {
                Some(s) => Timestamp::read(s@),
                None => None,
            },
        }
    }

    /// A deposit was seen: the record takes its transactions, amount and
    /// confirmations, and the status that the confirmations give.
    pub open spec fn with_deposit_detected(
        self,
        txid: Seq<char>,
        amount_sats: u64,
        confirmations: u32,
        block_height: Option<u32>,
        max_input_sats: Option<u64>,
        required_confirmations: u32,
        now: Timestamp,
    ) -> RecycleView {
        RecycleView {
            status: status_for(confirmations, required_confirmations),
            deposit_txid: Some(txid),
            deposit_amount_sats: Some(amount_sats),
            deposit_confirmations: confirmations,
            deposit_block_height: block_height,
            max_input_sats,
            is_eligible: true,
            updated_at: now,
            ..self
        }
    }

    /// The deposit is kept as a donation.
    pub open spec fn with_donation(
        self,
        txid: Seq<char>,
        amount_sats: u64,
        block_height: Option<u32>,
        max_input_sats: Option<u64>,
        reason: DonationReason,
        now: Timestamp,
    ) -> RecycleView {
        RecycleView {
            status: RecycleStatus::Donation,
            deposit_txid: Some(txid),
            deposit_amount_sats: Some(amount_sats),
            deposit_block_height: block_height,
            max_input_sats,
            is_eligible: false,
            donation_reason: Some(reason),
            updated_at: now,
            ..self
        }
    }

    /// The confirmation count moved.
    pub open spec fn with_confirmations(
        self,
        confirmations: u32,
        required_confirmations: u32,
        now: Timestamp,
    ) -> RecycleView {
        RecycleView {
            status: status_for(confirmations, required_confirmations),
            deposit_confirmations: confirmations,
            updated_at: now,
            ..self
        }
    }

    /// The payout was made and proved.
    pub open spec fn with_payment(
        self,
        payout_amount_sats: u64,
        payment_preimage: Seq<char>,
        payment_hash: Seq<char>,
        now: Timestamp,
    ) -> RecycleView {
        RecycleView {
            status: RecycleStatus::Paid,
            payout_amount_sats: Some(payout_amount_sats),
            payment_preimage: Some(payment_preimage),
            payment_hash: Some(payment_hash),
            updated_at: now,
            paid_at: Some(now),
            ..self
        }
    }

    /// No further payment will be attempted.
    pub open spec fn with_failure(self, now: Timestamp) -> RecycleView {
        RecycleView { status: RecycleStatus::Failed, updated_at: now, ..self }
    }

    /// One more payment attempt is counted.
    pub open spec fn with_attempt(self, now: Timestamp) -> RecycleView {
        RecycleView {
            payment_attempts: (self.payment_attempts + 1) as u32,
            updated_at: now,
            ..self
        }
    }

    /// Whether one more attempt may be counted: the recycle waits for its
    /// payout and has attempts left.
    pub open spec fn may_attempt(self) -> bool {
        self.status == RecycleStatus::Confirmed && self.payment_attempts < MAX_PAYMENT_ATTEMPTS
    }

    /// Whether the record may be marked paid with this proof of payment.
    pub open spec fn may_be_paid(self, payment_preimage: Seq<char>, payment_hash: Seq<char>) -> bool {
        self.status == RecycleStatus::Confirmed && preimage_opens(payment_preimage, payment_hash)
    }
}

/// A copy of optional text.
pub(crate) fn clone_text(o: &Option<String>) -> (r: Option<String>)
    ensures
        r == *o,
{
    match o {
        Some(s) => Some(s.clone()),
        None => None,
    }
}

impl Recycle {
    /// A new recycle that awaits its deposit.
    pub fn new(
        id: &str,
        lightning_address: &str,
        deposit_address: &str,
        address_index: u32,
        now: Timestamp,
    ) -> (r: Recycle)
        ensures
            r@ == RecycleView::created(
                id@,
                lightning_address@,
                deposit_address@,
                address_index,
                now,
            ),
            r@.consistent(),
    {
        Recycle {
            id: id.to_owned(),
            lightning_address: lightning_address.to_owned(),
            deposit_address: deposit_address.to_owned(),
            address_index,
            status: RecycleStatus::AwaitingDeposit,
            deposit_txid: None,
            deposit_amount_sats: None,
            deposit_confirmations: 0,
            deposit_block_height: None,
            is_eligible: true,
            donation_reason: None,
            max_input_sats: None,
            payout_amount_sats: None,
            payment_preimage: None,
            payment_hash: None,
            payment_attempts: 0,
            created_at: now,
            updated_at: now,
            paid_at: None,
        }
    }

    /// Reads a database row. `now` stands in for a creation or update time
    /// that cannot be read.
    pub fn from_row(row: RecycleRow, now: Timestamp) -> (r: Recycle)
        ensures
            r@ == RecycleView::from_row(row, now),
    {
        Recycle {
            id: row.id,
            lightning_address: row.lightning_address,
            deposit_address: row.deposit_address,
            address_index: #[verifier::truncate] (row.address_index as u32),
            status: RecycleStatus::from_str(row.status.as_str()),
            deposit_txid: row.deposit_txid,
            deposit_amount_sats: sats_from(row.deposit_amount_sats),
            deposit_confirmations: match row.deposit_confirmations {
                Some(v) => #[verifier::truncate] (v as u32),
                None => 0,
            },
            deposit_block_height: match row.deposit_block_height {
                Some(v) => Some(#[verifier::truncate] (v as u32)),
                None => None,
            },
            is_eligible: match row.is_eligible {
                Some(v) => v == 1,
                None => true,
            },
            donation_reason: match &row.donation_reason {
                Some(s) => DonationReason::from_str(s.as_str()),
                None => None,
            },
            max_input_sats: sats_from(row.max_input_sats),
            payout_amount_sats: sats_from(row.payout_amount_sats),
            payment_preimage: row.payment_preimage,
            payment_hash: row.payment_hash,
            payment_attempts: #[verifier::truncate] (row.payment_attempts as u32),
            created_at: Timestamp::from_rfc3339_or(row.created_at.as_str(), now),
            updated_at: Timestamp::from_rfc3339_or(row.updated_at.as_str(), now),
            paid_at: match &row.paid_at {
                Some(s) => Timestamp::from_rfc3339(s.as_str()),
                None => None,
            },
        }
    }

    /// A copy of the record.
    pub fn duplicate(&self) -> (r: Recycle)
        ensures
            r == *self,
    {
        Recycle {
            id: self.id.clone(),
            lightning_address: self.lightning_address.clone(),
            deposit_address: self.deposit_address.clone(),
            address_index: self.address_index,
            status: self.status,
            deposit_txid: clone_text(&self.deposit_txid),
            deposit_amount_sats: self.deposit_amount_sats,
            deposit_confirmations: self.deposit_confirmations,
            deposit_block_height: self.deposit_block_height,
            is_eligible: self.is_eligible,
            donation_reason: self.donation_reason,
            max_input_sats: self.max_input_sats,
            payout_amount_sats: self.payout_amount_sats,
            payment_preimage: clone_text(&self.payment_preimage),
            payment_hash: clone_text(&self.payment_hash),
            payment_attempts: self.payment_attempts,
            created_at: self.created_at,
            updated_at: self.updated_at,
            paid_at: self.paid_at,
        }
    }

    /// Records a deposit that was seen on a pending recycle; any other
    /// record is returned as it is.
    pub fn record_deposit_detected(
        self,
        txid: &str,
        amount_sats: u64,
        confirmations: u32,
        block_height: Option<u32>,
        max_input_sats: Option<u64>,
        required_confirmations: u32,
        now: Timestamp,
    ) -> (r: Recycle)
        ensures
            r@ == if self@.status.is_pending() {
                self@.with_deposit_detected(
                    txid@,
                    amount_sats,
                    confirmations,
                    block_height,
                    max_input_sats,
                    required_confirmations,
                    now,
                )
            } else {
                self@
            },
            self@.status.stays_or_advances(r@.status),
            self@.consistent() ==> r@.consistent(),
    {
        if !self.status.pending() {
            return self;
        }
        let mut r = self;
        r.status = status_for_confirmations(confirmations, required_confirmations);
        r.deposit_txid = Some(txid.to_owned());
        r.deposit_amount_sats = Some(amount_sats);
        r.deposit_confirmations = confirmations;
        r.deposit_block_height = block_height;
        r.max_input_sats = max_input_sats;
        r.is_eligible = true;
        r.updated_at = now;
        r
    }

    /// Keeps the deposit of a pending recycle as a donation; any other
    /// record is returned as it is.
    pub fn mark_donation(
        self,
        txid: &str,
        amount_sats: u64,
        block_height: Option<u32>,
        max_input_sats: Option<u64>,
        reason: DonationReason,
        now: Timestamp,
    ) -> (r: Recycle)
        ensures
            r@ == if self@.status.is_pending() {
                self@.with_donation(txid@, amount_sats, block_height, max_input_sats, reason, now)
            } else {
                self@
            },
            self@.status.stays_or_advances(r@.status),
            self@.consistent() ==> r@.consistent(),
    {
        if !self.status.pending() {
            return self;
        }
        let mut r = self;
        r.status = RecycleStatus::Donation;
        r.deposit_txid = Some(txid.to_owned());
        r.deposit_amount_sats = Some(amount_sats);
        r.deposit_block_height = block_height;
        r.max_input_sats = max_input_sats;
        r.is_eligible = false;
        r.donation_reason = Some(reason);
        r.updated_at = now;
        r
    }

    /// Moves the confirmation count of a confirming recycle; any other
    /// record is returned as it is.
    pub fn update_confirmations(
        self,
        confirmations: u32,
        required_confirmations: u32,
        now: Timestamp,
    ) -> (r: Recycle)
        ensures
            r@ == if self@.status == RecycleStatus::Confirming {
                self@.with_confirmations(confirmations, required_confirmations, now)
            } else {
                self@
            },
            self@.status.stays_or_advances(r@.status),
            self@.consistent() ==> r@.consistent(),
    {
        match self.status {
            RecycleStatus::Confirming => {},
            _ => {
                return self;
            },
        }
        let mut r = self;
        r.status = status_for_confirmations(confirmations, required_confirmations);
        r.deposit_confirmations = confirmations;
        r.updated_at = now;
        r
    }

    /// Marks a confirmed recycle paid, if the preimage opens the payment
    /// hash; any other record, and any other proof, leaves it as it is.
    pub fn mark_paid(
        self,
        payout_amount_sats: u64,
        payment_preimage: &str,
        payment_hash: &str,
        now: Timestamp,
    ) -> (r: Recycle)
        ensures
            r@ == if self@.may_be_paid(payment_preimage@, payment_hash@) {
                self@.with_payment(payout_amount_sats, payment_preimage@, payment_hash@, now)
            } else {
                self@
            },
            self@.status.stays_or_advances(r@.status),
            self@.consistent() ==> r@.consistent(),
    {
        match self.status {
            RecycleStatus::Confirmed => {},
            _ => {
                return self;
            },
        }
        if !verify_preimage(payment_preimage, payment_hash) {
            return self;
        }
        let mut r = self;
        r.status = RecycleStatus::Paid;
        r.payout_amount_sats = Some(payout_amount_sats);
        r.payment_preimage = Some(payment_preimage.to_owned());
        r.payment_hash = Some(payment_hash.to_owned());
        r.updated_at = now;
        r.paid_at = Some(now);
        r
    }

    /// Gives up on a confirmed recycle; any other record is returned as it is.
    pub fn mark_failed(self, now: Timestamp) -> (r: Recycle)
        ensures
            r@ == if self@.status == RecycleStatus::Confirmed {
                self@.with_failure(now)
            } else {
                self@
            },
            self@.status.stays_or_advances(r@.status),
            self@.consistent() ==> r@.consistent(),
    {
        match self.status {
            RecycleStatus::Confirmed => {},
            _ => {
                return self;
            },
        }
        let mut r = self;
        r.status = RecycleStatus::Failed;
        r.updated_at = now;
        r
    }

    /// Counts one more payment attempt on a confirmed recycle that has
    /// attempts left; any other record is returned as it is.
    pub fn count_payment_attempt(self, now: Timestamp) -> (r: Recycle)
        ensures
            r@ == if self@.may_attempt() {
                self@.with_attempt(now)
            } else {
                self@
            },
            r@.status == self@.status,
            self@.consistent() ==> r@.consistent(),
    {
        match self.status {
            RecycleStatus::Confirmed => {},
            _ => {
                return self;
            },
        }
        if self.payment_attempts >= MAX_PAYMENT_ATTEMPTS {
            return self;
        }
        let mut r = self;
        r.payment_attempts = r.payment_attempts + 1;
        r.updated_at = now;
        r
    }
}

} // verus!
