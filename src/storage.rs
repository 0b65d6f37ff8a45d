//! Storage keys that the bridge and the token logic read and write.
use vstd::prelude::*;

use crate::address::Address;

verus! {

/// A path into the key-value store. Distinct accounts and tokens give
/// distinct keys.
#[derive(Clone, Debug, PartialEq, Eq, PartialOrd, Ord, Hash)]
pub enum Key {
    /// The bridge's queue of pending transfers
    BridgeQueue,
    /// The protocol public key that a validator registered
    ProtocolPublicKey(Address),
    /// The balance of `owner` in `token`
    Balance { token: Address, owner: Address },
    /// Any other path
    Other(String),
}

/// The one key under which the bridge keeps its queue.
pub fn queue_key() -> (r: Key)
    ensures
        r == Key::BridgeQueue,
{
    Key::BridgeQueue
}

/// The key of a validator's protocol public key.
pub fn protocol_pk_key(validator: &Address) -> (r: Key)
    ensures
        r == Key::ProtocolPublicKey(*validator),
{
    Key::ProtocolPublicKey(*validator)
}

/// The key of `owner`'s balance in `token`.
pub fn balance_key(token: &Address, owner: &Address) -> (r: Key)
    ensures
        r == (Key::Balance { token: *token, owner: *owner }),
{
    Key::Balance { token: *token, owner: *owner }
}

/// The owner whose balance in `token` the key holds, if it is such a key.
pub open spec fn balance_owner(token: Address, key: Key) -> Option<Address> {
    match key {
        Key::Balance { token: t, owner } => if t == token {
            Some(owner)
        } else {
            None
        },
        _ => None,
    }
}

/// Tells whether `key` is a balance key of `token`, and whose.
pub fn is_balance_key(token: &Address, key: &Key) -> (r: Option<Address>)
    ensures
        r == balance_owner(*token, *key),
{
    match key {
        Key::Balance { token: t, owner } => if *t == *token {
            Some(*owner)
        } else {
            None
        },
        _ => None,
    }
}

} // verus!
