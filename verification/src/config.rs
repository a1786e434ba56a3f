//! The options of the recycler, and the payout that the multiplier gives.

use vstd::prelude::*;

verus! {

/// The multiplier by which a payout exceeds its deposit, in millionths:
/// 1_010_000 stands for 1.01.
#[derive(Debug, Clone, Copy, PartialEq, Eq, Structural)]
pub struct PayoutMultiplier {
    pub parts_per_million: u64,
}

pub const MILLION: u64 = 1_000_000;

pub const DEFAULT_PAYOUT_PARTS_PER_MILLION: u64 = 1_010_000;

pub const DEFAULT_REQUIRED_CONFIRMATIONS: u32 = 6;

pub const DEFAULT_CUTOFF_BLOCK_HEIGHT: u32 = 930_400;

pub const DEFAULT_MAX_INPUT_SATS: u64 = 1000;

/// The options of the recycler.
#[derive(Debug, Clone)]
pub struct Config {
    /// A payout is the deposit times this, rounded down.
    pub payout_multiplier: PayoutMultiplier,
    /// The confirmations at which a deposit counts as confirmed.
    pub required_confirmations: u32,
    /// A deposit confirmed at this block height or later is a donation.
    pub cutoff_block_height: u32,
    /// A deposit that spends an output of this value or more is a donation.
    pub max_input_sats: u64,
    /// The descriptor of the tracked external keychain.
    pub wallet_descriptor: String,
    /// The endpoint of the chain view.
    pub chain_backend_url: String,
    /// The URI of the remote wallet that pays.
    pub wallet_connect_uri: String,
}

/// `floor(deposit × multiplier)`, as a mathematical integer.
pub open spec fn payout_for(deposit_sats: u64, multiplier: PayoutMultiplier) -> int {
    (deposit_sats as int * multiplier.parts_per_million as int) / (MILLION as int)
}

/// The payout as an amount: `payout_for` where an amount can hold it.
pub open spec fn payout_amount(deposit_sats: u64, multiplier: PayoutMultiplier) -> Option<u64> {
    if payout_for(deposit_sats, multiplier) <= u64::MAX {
        Some(payout_for(deposit_sats, multiplier) as u64)
    } else {
        None
    }
}

impl PayoutMultiplier {
    pub fn from_parts_per_million(parts_per_million: u64) -> (m: PayoutMultiplier)
        ensures
            m.parts_per_million == parts_per_million,
    {
        PayoutMultiplier { parts_per_million }
    }

    /// The payout for a deposit: `floor(deposit × multiplier)`, or `None`
    /// where no amount can hold it.
    pub fn payout_sats(&self, deposit_sats: u64) -> (payout: Option<u64>)
        ensures
            payout == payout_amount(deposit_sats, *self),
            payout matches Some(p) ==> p == payout_for(deposit_sats, *self),
    {
        let wide: u128 = deposit_sats as u128;
        let factor: u128 = self.parts_per_million as u128;
        assert(wide * factor <= 0xffff_ffff_ffff_ffff * 0xffff_ffff_ffff_ffff) by (nonlinear_arith)
            requires
                wide <= 0xffff_ffff_ffff_ffff,
                factor <= 0xffff_ffff_ffff_ffff,
        ;
        let scaled: u128 = wide * factor / (MILLION as u128);
        if scaled > u64::MAX as u128 {
            None
        } else {
            Some(scaled as u64)
        }
    }
}

impl Config {
    /// The options with every number at its default: multiplier 1.01, 6
    /// confirmations, cutoff height 930_400, input limit 1000 sats.
    pub fn with_defaults(
        wallet_descriptor: String,
        chain_backend_url: String,
        wallet_connect_uri: String,
    ) -> (config: Config)
        ensures
            config.payout_multiplier.parts_per_million == DEFAULT_PAYOUT_PARTS_PER_MILLION,
            config.required_confirmations == DEFAULT_REQUIRED_CONFIRMATIONS,
            config.cutoff_block_height == DEFAULT_CUTOFF_BLOCK_HEIGHT,
            config.max_input_sats == DEFAULT_MAX_INPUT_SATS,
            config.wallet_descriptor == wallet_descriptor,
            config.chain_backend_url == chain_backend_url,
            config.wallet_connect_uri == wallet_connect_uri,
    {
        Config {
            payout_multiplier: PayoutMultiplier {
                parts_per_million: DEFAULT_PAYOUT_PARTS_PER_MILLION,
            },
            required_confirmations: DEFAULT_REQUIRED_CONFIRMATIONS,
            cutoff_block_height: DEFAULT_CUTOFF_BLOCK_HEIGHT,
            max_input_sats: DEFAULT_MAX_INPUT_SATS,
            wallet_descriptor,
            chain_backend_url,
            wallet_connect_uri,
        }
    }
}

} // verus!
