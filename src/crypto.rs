//! Protocol public keys and Ed25519 signature checks.
use vstd::prelude::*;

verus! {

/// Whether `sig` is a valid Ed25519 signature of `msg` under the public key
/// `pk`, as strict verification decides it.
pub uninterp spec fn ed25519_accepts(pk: Seq<u8>, msg: Seq<u8>, sig: Seq<u8>) -> bool;

/// Relies on ed25519_dalek's `VerifyingKey::verify_strict` to check a
/// signature (after `VerifyingKey::from_bytes` and `Signature::from_slice`
/// turn the bytes into its argument types); the outcome is a function of the
/// three byte strings alone.
#[verifier::external_body]
pub(crate) fn verify_ed25519(pk: &[u8], msg: &[u8], sig: &[u8]) -> (r: bool)
    ensures
        r == ed25519_accepts(pk@, msg@, sig@),
{
    let key_bytes: [u8; 32] = match pk.try_into() {
        Ok(b) => b,
        Err(_) => return false,
    };
    let key = match ed25519_dalek::VerifyingKey::from_bytes(&key_bytes) {
        Ok(k) => k,
        Err(_) => return false,
    };
    match ed25519_dalek::Signature::from_slice(sig) {
        Ok(s) => key.verify_strict(msg, &s).is_ok(),
        Err(_) => false,
    }
}

/// The Ed25519 key that a registered value holds: a scheme tag of zero
/// followed by the 32 key bytes.
pub open spec fn public_key_of_bytes(b: Seq<u8>) -> Option<Seq<u8>> {
    if b.len() == 33 && b[0] == 0 {
        Some(b.subrange(1, 33))
    } else {
        None
    }
}

/// Decodes a registered protocol public key.
pub fn decode_public_key(b: &[u8]) -> (r: Option<Vec<u8>>)
    ensures
        r matches Some(k) ==> public_key_of_bytes(b@) == Some(k@),
        r is None ==> public_key_of_bytes(b@) is None,
{
    if b.len() != 33 || b[0] != 0 {
        return None;
    }
    let mut k: Vec<u8> = Vec::new();
    let mut i: usize = 1;
    while i < 33
        invariant
            1 <= i <= 33,
            b@.len() == 33,
            k@ == b@.subrange(1, i as int),
        decreases 33 - i,
    {
        k.push(b[i]);
        i = i + 1;
        assert(k@ =~= b@.subrange(1, i as int));
    }
    Some(k)
}

} // verus!
