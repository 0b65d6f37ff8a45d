//! Plain values that transactions and validity predicates exchange.
use vstd::prelude::*;

verus! {

/// Represents a write to a storage key
#[derive(Clone, Debug, PartialEq)]
pub struct WriteOp {
    /// The storage key to write to
    pub key: String,
    /// The new value to be written to the storage key
    pub value: Vec<u8>,
}

} // verus!
