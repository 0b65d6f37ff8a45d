use ed25519_dalek::{Signer, SigningKey};
use eth_bridge::address::Address;
use eth_bridge::data::SignedEnvelope;
use eth_bridge::storage::{self, Key};
use eth_bridge::vp::{validate_keys_changed, Ctx, Error, EthBridge, ValidatorSet, WeightedValidator};

const A: Address = Address::Established(1);
const B: Address = Address::Established(2);
const C: Address = Address::Established(3);

fn signing_key(seed: u8) -> SigningKey {
    SigningKey::from_bytes(&[seed; 32])
}

fn registered(key: &SigningKey) -> Vec<u8> {
    let mut b = vec![0u8];
    b.extend_from_slice(key.verifying_key().as_bytes());
    b
}

fn envelope(payload: &[u8], key: &SigningKey) -> Vec<u8> {
    let sig = key.sign(payload).to_bytes().to_vec();
    SignedEnvelope { data: payload.to_vec(), sig }.to_bytes()
}

/// Active {A, B} with only A's key registered; C is inactive with a key.
fn bridge() -> EthBridge {
    let set = ValidatorSet {
        active: vec![
            WeightedValidator { voting_power: 10, address: A },
            WeightedValidator { voting_power: 10, address: B },
        ],
        inactive: vec![WeightedValidator { voting_power: 5, address: C }],
    };
    EthBridge {
        ctx: Ctx {
            epoch: Some(4),
            validator_sets: vec![(3, ValidatorSet { active: vec![], inactive: vec![] }), (4, set)],
            protocol_keys: vec![(A, registered(&signing_key(1))), (C, registered(&signing_key(3)))],
        },
    }
}

fn queue_only() -> Vec<Key> {
    vec![storage::queue_key()]
}

#[test]
fn test_validate_keys_changed() {
    let queue_only = {
        let mut set = Vec::<Key>::default();
        set.push(storage::queue_key());
        set
    };
    assert!(validate_keys_changed(&queue_only));

    let empty = Vec::<Key>::default();
    assert!(!validate_keys_changed(&empty));
}

#[test]
fn keys_beyond_the_queue_key_are_rejected() {
    let keys = vec![storage::queue_key(), Key::Other("other".to_string())];
    assert!(!validate_keys_changed(&keys));
    assert!(!validate_keys_changed(&vec![Key::Other("other".to_string())]));
    let tx = envelope(b"update", &signing_key(1));
    assert_eq!(bridge().validate_tx(&tx, &keys, &vec![]), Ok(false));
    assert_eq!(bridge().validate_tx(&tx, &vec![], &vec![]), Ok(false));
}

#[test]
fn signature_of_active_registered_validator_is_accepted() {
    let tx = envelope(b"update", &signing_key(1));
    assert_eq!(bridge().validate_tx(&tx, &queue_only(), &vec![]), Ok(true));
}

#[test]
fn signature_of_unregistered_key_is_rejected() {
    let tx = envelope(b"update", &signing_key(9));
    assert_eq!(bridge().validate_tx(&tx, &queue_only(), &vec![]), Ok(false));
}

#[test]
fn signature_of_inactive_validator_is_rejected() {
    let tx = envelope(b"update", &signing_key(3));
    assert_eq!(bridge().validate_tx(&tx, &queue_only(), &vec![]), Ok(false));
}

#[test]
fn signature_over_other_payload_is_rejected() {
    let sig = signing_key(1).sign(b"other").to_bytes().to_vec();
    let tx = SignedEnvelope { data: b"update".to_vec(), sig }.to_bytes();
    assert_eq!(bridge().validate_tx(&tx, &queue_only(), &vec![]), Ok(false));
}

#[test]
fn empty_payload_is_rejected_even_when_signed() {
    let tx = envelope(b"", &signing_key(1));
    assert_eq!(bridge().validate_tx(&tx, &queue_only(), &vec![]), Ok(false));
}

#[test]
fn malformed_envelope_is_rejected() {
    let mut tx = envelope(b"update", &signing_key(1));
    tx.push(0);
    assert_eq!(bridge().validate_tx(&tx, &queue_only(), &vec![]), Ok(false));
    assert_eq!(bridge().validate_tx(&[1, 2], &queue_only(), &vec![]), Ok(false));
}

#[test]
fn undecodable_registered_key_is_skipped() {
    let mut vp = bridge();
    vp.ctx.protocol_keys = vec![(A, vec![1, 2, 3]), (B, registered(&signing_key(2)))];
    let tx = envelope(b"update", &signing_key(2));
    assert_eq!(vp.validate_tx(&tx, &queue_only(), &vec![]), Ok(true));
    let tx = envelope(b"update", &signing_key(1));
    assert_eq!(vp.validate_tx(&tx, &queue_only(), &vec![]), Ok(false));
}

#[test]
fn missing_epoch_is_internal_error() {
    let mut vp = bridge();
    vp.ctx.epoch = None;
    let tx = envelope(b"update", &signing_key(1));
    assert_eq!(vp.validate_tx(&tx, &queue_only(), &vec![]), Err(Error::Internal));
}

#[test]
fn missing_validator_set_is_internal_error() {
    let mut vp = bridge();
    vp.ctx.epoch = Some(7);
    let tx = envelope(b"update", &signing_key(1));
    assert_eq!(vp.validate_tx(&tx, &queue_only(), &vec![]), Err(Error::Internal));
}
