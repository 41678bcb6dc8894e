//! Payment order lifecycle: deposit-account derivation, order storage,
//! balance verification, proceeds sharing and refunds, and the journal that
//! carries orders across restarts, with every rule stated as a contract.

pub mod codec;
pub mod digest;
pub mod engine;
pub mod error;
pub mod helper_utils;
pub mod journal;
pub mod laws;
pub mod lifecycle;
pub mod order;
pub mod payment;
pub mod principal;
pub mod service;
pub mod stable;
pub mod state;
pub mod state_codec;
pub mod store;
