//! Validity predicates and transaction logic for the Ethereum bridge queue
//! and for token balances.
pub mod address;
pub mod codec;
pub mod crypto;
pub mod data;
pub mod ethereum;
pub mod laws;
pub mod storage;
pub mod token;
pub mod transfer;
pub mod tx;
pub mod util;
pub mod vp;
