//! Validity predicate for the Ethereum bridge: only the queue key may
//! change, and only under a signature of an active validator.
use vstd::prelude::*;

use crate::address::Address;
use crate::crypto::{decode_public_key, ed25519_accepts, public_key_of_bytes, verify_ed25519};
use crate::data::{to_signed, to_signed_spec};
use crate::storage::Key;

verus! {

/// A ledger epoch.
pub type Epoch = u64;

/// A validator and its voting power.
#[derive(Clone, Copy, Debug, PartialEq, Eq, Structural)]
pub struct WeightedValidator {
    pub voting_power: u64,
    pub address: Address,
}

/// The validators of one epoch, in canonical order.
#[derive(Clone, Debug, PartialEq)]
pub struct ValidatorSet {
    /// Validators empowered to authorize changes
    pub active: Vec<WeightedValidator>,
    /// Registered validators without that power
    pub inactive: Vec<WeightedValidator>,
}

/// The read-only view of storage that the predicate is given.
pub struct Ctx {
    /// The current epoch, where storage can tell it
    pub epoch: Option<Epoch>,
    /// The validator set recorded for each epoch
    pub validator_sets: Vec<(Epoch, ValidatorSet)>,
    /// The protocol public key stored for each validator, as stored bytes
    pub protocol_keys: Vec<(Address, Vec<u8>)>,
}

/// Validity predicate for the Ethereum bridge
pub struct EthBridge {
    /// Context to interact with the host structures.
    pub ctx: Ctx,
}

/// Errors that may be returned by this module
#[derive(Clone, Copy, Debug, PartialEq, Eq, Structural)]
pub enum Error {
    /// Opaque error that we return to any callers
    Internal,
}

/// The validator set recorded for `epoch`: the first entry for it from
/// position `i` on.
pub open spec fn set_for_epoch(sets: Seq<(Epoch, ValidatorSet)>, epoch: Epoch, i: int) -> Option<
    ValidatorSet,
>
    decreases sets.len() - i,
{
    if i < 0 || i >= sets.len() {
        None
    } else if sets[i].0 == epoch {
        Some(sets[i].1)
    } else {
        set_for_epoch(sets, epoch, i + 1)
    }
}

/// The bytes stored as `a`'s protocol public key: the first entry for it
/// from position `i` on.
pub open spec fn stored_key_for(keys: Seq<(Address, Vec<u8>)>, a: Address, i: int) -> Option<
    Seq<u8>,
>
    decreases keys.len() - i,
{
    if i < 0 || i >= keys.len() {
        None
    } else if keys[i].0 == a {
        Some(keys[i].1@)
    } else {
        stored_key_for(keys, a, i + 1)
    }
}

/// The key set is exactly the queue key.
pub open spec fn keys_changed_ok(keys: Seq<Key>) -> bool {
    keys.len() == 1 && keys[0] == Key::BridgeQueue
}

/// `a` has a well-formed protocol key stored and it accepts `sig` over `data`.
pub open spec fn signed_by(ctx: Ctx, a: Address, data: Seq<u8>, sig: Seq<u8>) -> bool {
    match stored_key_for(ctx.protocol_keys@, a, 0) {
        Some(b) => match public_key_of_bytes(b) {
            Some(pk) => ed25519_accepts(pk, data, sig),
            None => false,
        },
        None => false,
    }
}

/// What the predicate decides for a transaction.
pub open spec fn validate_spec(ctx: Ctx, tx_data: Seq<u8>, keys_changed: Seq<Key>) -> Result<
    bool,
    Error,
> {
    if !keys_changed_ok(keys_changed) {
        Ok(false)
    } else {
        match to_signed_spec(tx_data) {
            Err(_) => Ok(false),
            Ok((data, sig)) => match ctx.epoch {
                None => Err(Error::Internal),
                Some(epoch) => match set_for_epoch(ctx.validator_sets@, epoch, 0) {
                    None => Err(Error::Internal),
                    Some(set) => Ok(
                        exists|i: int|
                            0 <= i < set.active@.len() && #[trigger] signed_by(
                                ctx,
                                set.active@[i].address,
                                data,
                                sig,
                            ),
                    ),
                },
            },
        }
    }
}

/// Accepts a changed key set only where it is the queue key alone.
pub fn validate_keys_changed(keys_changed: &Vec<Key>) -> (r: bool)
    ensures
        r == keys_changed_ok(keys_changed@),
{
    let mut i: usize = 0;
    while i < keys_changed.len()
        invariant
            i <= keys_changed@.len(),
            forall|j: int| 0 <= j < i ==> keys_changed@[j] == Key::BridgeQueue,
        decreases keys_changed@.len() - i,
    {
        match &keys_changed[i] {
            Key::BridgeQueue => {},
            _ => {
                return false;
            },
        }
        i = i + 1;
    }
    keys_changed.len() == 1
}

impl Ctx {
    /// The validator set recorded for `epoch`.
    pub fn validator_set(&self, epoch: Epoch) -> (r: Option<&ValidatorSet>)
        ensures
            r matches Some(s) ==> set_for_epoch(self.validator_sets@, epoch, 0) == Some(*s),
            r is None ==> set_for_epoch(self.validator_sets@, epoch, 0) is None,
    {
        let mut i: usize = 0;
        while i < self.validator_sets.len()
            invariant
                i <= self.validator_sets@.len(),
                set_for_epoch(self.validator_sets@, epoch, 0) == set_for_epoch(
                    self.validator_sets@,
                    epoch,
                    i as int,
                ),
            decreases self.validator_sets@.len() - i,
        {
            if self.validator_sets[i].0 == epoch {
                return Some(&self.validator_sets[i].1);
            }
            i = i + 1;
        }
        None
    }

    /// The bytes stored as `validator`'s protocol public key.
    pub fn read_protocol_key(&self, validator: &Address) -> (r: Option<&Vec<u8>>)
        ensures
            r matches Some(b) ==> stored_key_for(self.protocol_keys@, *validator, 0) == Some(b@),
            r is None ==> stored_key_for(self.protocol_keys@, *validator, 0) is None,
    {
        let mut i: usize = 0;
        while i < self.protocol_keys.len()
            invariant
                i <= self.protocol_keys@.len(),
                stored_key_for(self.protocol_keys@, *validator, 0) == stored_key_for(
                    self.protocol_keys@,
                    *validator,
                    i as int,
                ),
            decreases self.protocol_keys@.len() - i,
        {
            if self.protocol_keys[i].0 == *validator {
                return Some(&self.protocol_keys[i].1);
            }
            i = i + 1;
        }
        None
    }
}

impl EthBridge {
    /// Decides whether a transaction may make the changes it made: the
    /// queue key alone changed, `tx_data` is a signed envelope with a
    /// payload, and an active validator of the current epoch signed it.
    /// A missing epoch or validator set is an internal error.
    pub fn validate_tx(&self, tx_data: &[u8], keys_changed: &Vec<Key>, verifiers: &Vec<Address>) -> (r:
        Result<bool, Error>)
        ensures
            r == validate_spec(self.ctx, tx_data@, keys_changed@),
    {
        if !validate_keys_changed(keys_changed) {
            return Ok(false);
        }
        let signed = match to_signed(tx_data) {
            Ok(s) => s,
            Err(_) => {
                return Ok(false);
            },
        };
        let epoch = match self.ctx.epoch {
            Some(e) => e,
            None => {
                return Err(Error::Internal);
            },
        };
        let set = match self.ctx.validator_set(epoch) {
            Some(s) => s,
            None => {
                return Err(Error::Internal);
            },
        };
        let ghost data = signed.data@;
        let ghost sig = signed.sig@;
        let mut i: usize = 0;
        while i < set.active.len()
            invariant
                i <= set.active@.len(),
                data == signed.data@,
                sig == signed.sig@,
                keys_changed_ok(keys_changed@),
                to_signed_spec(tx_data@) == Ok::<(Seq<u8>, Seq<u8>), crate::data::Error>((data, sig)),
                self.ctx.epoch == Some(epoch),
                set_for_epoch(self.ctx.validator_sets@, epoch, 0) == Some(*set),
                forall|j: int|
                    0 <= j < i ==> !#[trigger] signed_by(self.ctx, set.active@[j].address, data, sig),
            decreases set.active@.len() - i,
        {
            let validator = &set.active[i].address;
            match self.ctx.read_protocol_key(validator) {
                Some(bytes) => match decode_public_key(bytes.as_slice()) {
                    Some(pk) => {
                        if verify_ed25519(pk.as_slice(), signed.data.as_slice(), signed.sig.as_slice()) {
                            assert(signed_by(self.ctx, set.active@[i as int].address, data, sig));
                            assert(to_signed_spec(tx_data@) is Ok);
                            assert(to_signed_spec(tx_data@)->Ok_0 == (data, sig));
                            return Ok(true);
                        }
                    },
                    None => {},
                },
                None => {},
            }
            i = i + 1;
        }
        Ok(false)
    }
}

} // verus!
