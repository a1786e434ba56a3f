//! The eligibility rules: whether a fully confirmed deposit earns a payout
//! or is kept as a donation.

use vstd::prelude::*;
use crate::chain::{
    ChainModel, ChainView, DepositInfo, TxDepositModel, aggregate, highest_height,
    lemma_highest_height_is_the_maximum, max_input_value_for_many, max_input_value_of_many,
};
use crate::config::Config;
use crate::record::DonationReason;

verus! {

/// What the rules say of a deposit.
#[derive(Debug, Clone, Copy, PartialEq, Eq, Structural)]
pub enum Eligibility {
    /// A payout is due. `max_input_sats` is the largest input value, where
    /// it is known.
    Eligible { max_input_sats: Option<u64> },
    /// No payout is due. `max_input_sats` is the largest input value,
    /// where it was looked at and is known.
    Donation { reason: DonationReason, max_input_sats: Option<u64> },
}

/// The largest input value as far as it is known: a missing value is
/// unknown, and so is 0, which stands for inputs that none could be
/// resolved of.
pub open spec fn known_input(max_input: Option<u64>) -> Option<u64> {
    match max_input {
        Some(v) => if v > 0 {
            Some(v)
        } else {
            None
        },
        None => None,
    }
}

/// Whether the block-height rule turns the deposits into a donation: the
/// highest block height among them is at or after the cutoff.
pub open spec fn after_cutoff(deposits: Seq<TxDepositModel>, cutoff_block_height: u32) -> bool {
    highest_height(deposits) matches Some(h) && h >= cutoff_block_height
}

/// The rules, in order. A deposit confirmed at or after the cutoff height
/// is a donation for its block height; the inputs are then not looked at.
/// Otherwise a known largest input value at or above the limit makes it a
/// donation for its input; an unknown one is given the benefit of the doubt.
pub open spec fn eligibility_of(
    deposits: Seq<TxDepositModel>,
    max_input: Option<u64>,
    cutoff_block_height: u32,
    max_input_sats: u64,
) -> Eligibility {
    if after_cutoff(deposits, cutoff_block_height) {
        Eligibility::Donation { reason: DonationReason::BlockHeight, max_input_sats: None }
    } else {
        match known_input(max_input) {
            Some(v) => if v >= max_input_sats {
                Eligibility::Donation {
                    reason: DonationReason::InputTooLarge,
                    max_input_sats: Some(v),
                }
            } else {
                Eligibility::Eligible { max_input_sats: Some(v) }
            },
            None => Eligibility::Eligible { max_input_sats: None },
        }
    }
}

/// The eligibility of what a chain view holds for the address with index
/// `index`, under a cutoff height and an input limit.
pub open spec fn eligibility_in(
    chain: ChainModel,
    index: u32,
    cutoff_block_height: u32,
    max_input_sats: u64,
) -> Eligibility {
    let deposit = aggregate(chain.transactions, index, chain.tip_height);
    eligibility_of(
        deposit.deposits,
        max_input_value_of_many(chain.transactions, deposit.txids),
        cutoff_block_height,
        max_input_sats,
    )
}

/// Whether the block-height rule leaves the deposit alone, so that the
/// values of its inputs decide.
pub fn inputs_decide(deposit: &DepositInfo, config: &Config) -> (r: bool)
    ensures
        r == !after_cutoff(deposit@.deposits, config.cutoff_block_height),
{
    match deposit.max_block_height() {
        Some(h) => h < config.cutoff_block_height,
        None => true,
    }
}

/// Applies the rules to a deposit, given the largest input value as far as
/// it could be resolved.
pub fn decide_eligibility(deposit: &DepositInfo, max_input: Option<u64>, config: &Config) -> (r:
    Eligibility)
    ensures
        r == eligibility_of(
            deposit@.deposits,
            max_input,
            config.cutoff_block_height,
            config.max_input_sats,
        ),
{
    if !inputs_decide(deposit, config) {
        return Eligibility::Donation { reason: DonationReason::BlockHeight, max_input_sats: None };
    }
    match max_input {
        Some(v) => {
            if v == 0 {
                Eligibility::Eligible { max_input_sats: None }
            } else if v >= config.max_input_sats {
                Eligibility::Donation {
                    reason: DonationReason::InputTooLarge,
                    max_input_sats: Some(v),
                }
            } else {
                Eligibility::Eligible { max_input_sats: Some(v) }
            }
        },
        None => Eligibility::Eligible { max_input_sats: None },
    }
}

/// Applies the rules to a deposit, looking the input values up in the
/// chain view where the block-height rule leaves the deposit alone.
pub fn evaluate_eligibility(view: &ChainView, deposit: &DepositInfo, config: &Config) -> (r:
    Eligibility)
    ensures
        r == eligibility_of(
            deposit@.deposits,
            max_input_value_of_many(view@.transactions, deposit@.txids),
            config.cutoff_block_height,
            config.max_input_sats,
        ),
{
    if !inputs_decide(deposit, config) {
        return Eligibility::Donation { reason: DonationReason::BlockHeight, max_input_sats: None };
    }
    let max_input = max_input_value_for_many(view, &deposit.txids);
    decide_eligibility(deposit, max_input, config)
}

/// The block-height rule takes the deposits exactly if one of them was
/// confirmed at or after the cutoff height.
pub proof fn lemma_after_cutoff_is_a_late_deposit(
    deposits: Seq<TxDepositModel>,
    cutoff_block_height: u32,
)
    ensures
        after_cutoff(deposits, cutoff_block_height) <==> exists|i: int|
            0 <= i < deposits.len() && ((#[trigger] deposits[i]).block_height matches Some(h) && h
                >= cutoff_block_height),
{
    lemma_highest_height_is_the_maximum(deposits);
    if after_cutoff(deposits, cutoff_block_height) {
        let m = highest_height(deposits).unwrap();
        let w = choose|i: int|
            0 <= i < deposits.len() && (#[trigger] deposits[i]).block_height == Some(m);
        assert(deposits[w].block_height matches Some(h) && h >= cutoff_block_height);
    }
}

/// A donation is for the block height only if the highest block height of
/// the deposits is at or after the cutoff, and for the input only if the
/// largest input value is known and at or above the limit.
pub proof fn lemma_donation_is_justified(
    deposits: Seq<TxDepositModel>,
    max_input: Option<u64>,
    cutoff_block_height: u32,
    max_input_sats: u64,
)
    ensures
        match eligibility_of(deposits, max_input, cutoff_block_height, max_input_sats) {
            Eligibility::Donation { reason: DonationReason::BlockHeight, max_input_sats: _ } => {
                highest_height(deposits) matches Some(h) && h >= cutoff_block_height
            },
            Eligibility::Donation {
                reason: DonationReason::InputTooLarge,
                max_input_sats: recorded,
            } => {
                &&& recorded == max_input
                &&& recorded matches Some(v) && v >= max_input_sats
            },
            Eligibility::Eligible { max_input_sats: recorded } => {
                &&& !(highest_height(deposits) matches Some(h) && h >= cutoff_block_height)
                &&& recorded matches Some(v) ==> v < max_input_sats
            },
        },
{
}

/// The same chain view and the same options give the same eligibility.
pub proof fn lemma_eligibility_is_deterministic(
    chain_a: ChainModel,
    chain_b: ChainModel,
    index: u32,
    cutoff_a: u32,
    cutoff_b: u32,
    limit_a: u64,
    limit_b: u64,
)
    requires
        chain_a == chain_b,
        cutoff_a == cutoff_b,
        limit_a == limit_b,
    ensures
        eligibility_in(chain_a, index, cutoff_a, limit_a) == eligibility_in(
            chain_b,
            index,
            cutoff_b,
            limit_b,
        ),
{
}

} // verus!
