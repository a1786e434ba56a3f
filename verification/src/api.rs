//! The creation interface and the read-only view of a recycle: what a
//! request must hold, and what is shown of a record.

use vstd::prelude::*;
use crate::lnurl::{LnurlClient, is_lightning_address};
use crate::record::{Recycle, clone_text, text_of};
use crate::status::RecycleStatus;

verus! {

/// A request to create a recycle.
#[derive(Debug, Clone)]
pub struct CreateRecycleRequest {
    pub lightning_address: String,
}

/// The answer to a request that created a recycle.
#[derive(Debug, Clone)]
pub struct CreateRecycleResponse {
    pub id: String,
    pub deposit_address: String,
    pub lightning_address: String,
}

/// What is shown of a recycle.
#[derive(Debug, Clone)]
pub struct RecycleResponse {
    pub id: String,
    pub lightning_address: String,
    pub deposit_address: String,
    pub status: String,
    pub deposit_txid: Option<String>,
    pub deposit_amount_sats: Option<u64>,
    pub deposit_confirmations: u32,
    pub payout_amount_sats: Option<u64>,
    pub payment_preimage: Option<String>,
}

/// Why a request was refused.
#[derive(Debug, Clone, Copy, PartialEq, Eq, Structural)]
pub enum ApiError {
    /// The lightning address has not the form `user@domain`.
    InvalidLightningAddress,
}

/// Text without the whitespace at its ends, as `str::trim` gives it.
pub uninterp spec fn trimmed(text: Seq<char>) -> Seq<char>;

/// Text in lower case, as `str::to_lowercase` gives it.
pub uninterp spec fn lowercased(text: Seq<char>) -> Seq<char>;

/// Calls `str::trim`. Trusted: the result depends on the text alone.
#[verifier::external_body]
fn trim(text: &str) -> (r: &str)
    ensures
        r@ == trimmed(text@),
{
    text.trim()
}

/// Calls `str::to_lowercase`. Trusted: the result depends on the text
/// alone.
#[verifier::external_body]
fn to_lowercase(text: &str) -> (r: String)
    ensures
        r@ == lowercased(text@),
{
    text.to_lowercase()
}

/// A lightning address as it is stored: trimmed, then in lower case.
pub open spec fn normalized(raw: Seq<char>) -> Seq<char> {
    lowercased(trimmed(raw))
}

/// Puts a lightning address into the form in which it is stored.
pub fn normalize_lightning_address(raw: &str) -> (r: String)
    ensures
        r@ == normalized(raw@),
{
    to_lowercase(trim(raw))
}

/// Takes the lightning address of a request: the normalized address, if it
/// has the form `user@domain`.
pub fn accept_request(request: &CreateRecycleRequest) -> (r: Result<String, ApiError>)
    ensures
        match r {
            Ok(address) => address@ == normalized(request.lightning_address@)
                && is_lightning_address(address@),
            Err(e) => e == ApiError::InvalidLightningAddress && !is_lightning_address(
                normalized(request.lightning_address@),
            ),
        },
{
    let address = normalize_lightning_address(request.lightning_address.as_str());
    if LnurlClient::validate_lightning_address(address.as_str()) {
        Ok(address)
    } else {
        Err(ApiError::InvalidLightningAddress)
    }
}

/// The class under which a page styles a status.
pub open spec fn status_class_of(status: RecycleStatus) -> Seq<char> {
    match status {
        RecycleStatus::AwaitingDeposit => "status-awaiting"@,
        RecycleStatus::Confirming => "status-confirming"@,
        RecycleStatus::Confirmed => "status-confirmed"@,
        RecycleStatus::Paid => "status-paid"@,
        RecycleStatus::Failed => "status-failed"@,
        RecycleStatus::Donation => "status-donation"@,
    }
}

pub fn status_class(status: RecycleStatus) -> (class: &'static str)
    ensures
        class@ == status_class_of(status),
{
    match status {
        RecycleStatus::AwaitingDeposit => "status-awaiting",
        RecycleStatus::Confirming => "status-confirming",
        RecycleStatus::Confirmed => "status-confirmed",
        RecycleStatus::Paid => "status-paid",
        RecycleStatus::Failed => "status-failed",
        RecycleStatus::Donation => "status-donation",
    }
}

/// Whether a page still waits for something to happen to the recycle.
pub fn is_in_progress(status: RecycleStatus) -> (r: bool)
    ensures
        r == !status.is_terminal(),
{
    match status {
        RecycleStatus::AwaitingDeposit | RecycleStatus::Confirming | RecycleStatus::Confirmed => {
            true
        },
        _ => false,
    }
}

/// How far the confirmations have come, in percent: 100 where none are
/// required, and at most 100.
pub open spec fn percent_confirmed(confirmations: u32, required_confirmations: u32) -> int {
    if required_confirmations == 0 {
        100
    } else if confirmations as int * 100 / (required_confirmations as int) > 100 {
        100
    } else {
        confirmations as int * 100 / (required_confirmations as int)
    }
}

pub fn confirmation_percent(confirmations: u32, required_confirmations: u32) -> (percent: u32)
    ensures
        percent == percent_confirmed(confirmations, required_confirmations),
        percent <= 100,
{
    if required_confirmations == 0 {
        return 100;
    }
    let scaled: u64 = confirmations as u64 * 100 / (required_confirmations as u64);
    if scaled > 100 {
        100
    } else {
        scaled as u32
    }
}

impl RecycleResponse {
    /// What is shown of `recycle`.
    pub fn from_recycle(recycle: &Recycle) -> (r: RecycleResponse)
        ensures
            r.id@ == recycle@.id,
            r.lightning_address@ == recycle@.lightning_address,
            r.deposit_address@ == recycle@.deposit_address,
            r.status@ == recycle@.status.text(),
            text_of(r.deposit_txid) == recycle@.deposit_txid,
            r.deposit_amount_sats == recycle@.deposit_amount_sats,
            r.deposit_confirmations == recycle@.deposit_confirmations,
            r.payout_amount_sats == recycle@.payout_amount_sats,
            text_of(r.payment_preimage) == recycle@.payment_preimage,
    {
        RecycleResponse {
            id: recycle.id.clone(),
            lightning_address: recycle.lightning_address.clone(),
            deposit_address: recycle.deposit_address.clone(),
            status: String::from_str(recycle.status.as_str()),
            deposit_txid: clone_text(&recycle.deposit_txid),
            deposit_amount_sats: recycle.deposit_amount_sats,
            deposit_confirmations: recycle.deposit_confirmations,
            payout_amount_sats: recycle.payout_amount_sats,
            payment_preimage: clone_text(&recycle.payment_preimage),
        }
    }
}

impl CreateRecycleResponse {
    /// The answer for a recycle that was just created.
    pub fn from_recycle(recycle: &Recycle) -> (r: CreateRecycleResponse)
        ensures
            r.id@ == recycle@.id,
            r.deposit_address@ == recycle@.deposit_address,
            r.lightning_address@ == recycle@.lightning_address,
    {
        CreateRecycleResponse {
            id: recycle.id.clone(),
            deposit_address: recycle.deposit_address.clone(),
            lightning_address: recycle.lightning_address.clone(),
        }
    }
}

} // verus!
