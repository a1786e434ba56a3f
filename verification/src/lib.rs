//! Verified core of a custodial UTXO recycler: the recycle state machine,
//! its store, and the decisions of the deposit monitor and the payment
//! processor.

pub mod status;
pub mod text;
pub mod preimage;
pub mod invoice;
pub mod time;
pub mod record;
pub mod store;
pub mod config;
pub mod chain;
pub mod eligibility;
pub mod monitor;
pub mod nwc;
pub mod processor;
pub mod lnurl;
pub mod api;
pub mod rate_limit;
