use eth_bridge::address::{Address, InternalAddress};
use eth_bridge::data::{to_signed, Error as DataError, SignedEnvelope};
use eth_bridge::ethereum::{self, Block, FungibleAsset};
use eth_bridge::token::Amount;
use eth_bridge::transfer::{TransferFromEthereum, UpdateQueue};
use eth_bridge::tx::{
    apply_tx, apply_tx_aux, dequeue_and_mint, deserialize, ensure_queue_initialized, enqueue_new_transfers,
    update_min_confirmations, update_queue, TxError,
};

fn transfer_n(n: u8) -> TransferFromEthereum {
    TransferFromEthereum {
        asset: if n % 2 == 0 { FungibleAsset::Eth } else { FungibleAsset::Erc20(ethereum::Address(vec![n; 20])) },
        receiver: if n == 3 { Address::Internal(InternalAddress::EthBridge) } else { Address::Established(n as u64) },
        amount: Amount { micro: 1000 + n as u64 },
        min_confirmations: n,
        seen: 10 * n as u64,
        latest_descendant: Block { height: 11 * n as u64, hash: ethereum::Hash(vec![n; 32]) },
    }
}

fn signed_update(transfers: Vec<TransferFromEthereum>) -> Vec<u8> {
    let data = UpdateQueue::new(transfers).to_bytes();
    SignedEnvelope { data, sig: vec![9; 64] }.to_bytes()
}

fn empty_queue() -> Vec<u8> {
    ensure_queue_initialized(false).unwrap()
}

#[test]
fn initialization_writes_empty_queue_once() {
    let first = ensure_queue_initialized(false);
    assert_eq!(first, Some(vec![0, 0, 0, 0]));
    assert_eq!(ensure_queue_initialized(true), None);
}

#[test]
fn apply_on_fresh_storage_creates_and_fills_queue() {
    let tx = signed_update(vec![transfer_n(1), transfer_n(2)]);
    let stored = apply_tx(&tx, None).unwrap();
    let q = UpdateQueue::from_bytes(&stored).unwrap();
    assert_eq!(q.enqueue, vec![transfer_n(1), transfer_n(2)]);
}

#[test]
fn apply_appends_in_arrival_order() {
    let stored = apply_tx(&signed_update(vec![transfer_n(1)]), None).unwrap();
    let stored = apply_tx(&signed_update(vec![transfer_n(2), transfer_n(3)]), Some(stored)).unwrap();
    let q = UpdateQueue::from_bytes(&stored).unwrap();
    assert_eq!(q.enqueue, vec![transfer_n(1), transfer_n(2), transfer_n(3)]);
}

#[test]
fn empty_update_leaves_queue_unchanged() {
    let stored = apply_tx(&signed_update(vec![transfer_n(4), transfer_n(5)]), None).unwrap();
    let after = update_queue(&Some(stored.clone()), UpdateQueue::new(vec![])).unwrap();
    assert_eq!(after, stored);
    let after = apply_tx(&signed_update(vec![]), Some(stored.clone())).unwrap();
    assert_eq!(after, stored);
}

#[test]
fn corrupt_queue_halts() {
    let tx = signed_update(vec![transfer_n(1)]);
    assert_eq!(apply_tx(&tx, Some(vec![1, 2])), Err(TxError::CorruptQueue));
    assert_eq!(apply_tx_aux(&tx, &None), Err(TxError::CorruptQueue));
    assert_eq!(update_queue(&None, UpdateQueue::new(vec![])), Err(TxError::CorruptQueue));
}

#[test]
fn bad_envelope_or_payload_halts() {
    assert_eq!(apply_tx(&[0, 0], None), Err(TxError::Envelope(DataError::Deserialization)));
    let empty = SignedEnvelope { data: vec![], sig: vec![1] }.to_bytes();
    assert_eq!(apply_tx(&empty, None), Err(TxError::Envelope(DataError::EmptyData)));
    let junk = SignedEnvelope { data: vec![5, 0, 0, 0], sig: vec![1] }.to_bytes();
    assert_eq!(deserialize(&junk), Err(TxError::Payload));
}

#[test]
fn deserialize_reads_the_batch() {
    let tx = signed_update(vec![transfer_n(6)]);
    assert_eq!(deserialize(&tx), Ok(UpdateQueue::new(vec![transfer_n(6)])));
}

#[test]
fn extension_points_succeed() {
    assert_eq!(update_min_confirmations(), Ok(()));
    assert_eq!(dequeue_and_mint(), Ok(()));
}

#[test]
fn enqueue_encodes_concatenation() {
    let bytes = enqueue_new_transfers(vec![transfer_n(1)], vec![transfer_n(2)]).unwrap();
    let mut expected = empty_queue();
    expected[0] = 2;
    expected.extend(transfer_n(1).to_bytes());
    expected.extend(transfer_n(2).to_bytes());
    assert_eq!(bytes, expected);
}

#[test]
fn to_signed_checks_structure_and_payload() {
    let env = SignedEnvelope { data: vec![1, 2, 3], sig: vec![4, 5] };
    let bytes = env.to_bytes();
    assert_eq!(to_signed(&bytes), Ok(env));
    assert_eq!(to_signed(&bytes[..bytes.len() - 1]), Err(DataError::Deserialization));
    let mut longer = bytes.clone();
    longer.push(0);
    assert_eq!(to_signed(&longer), Err(DataError::Deserialization));
    let empty = SignedEnvelope { data: vec![], sig: vec![4, 5] }.to_bytes();
    assert_eq!(to_signed(&empty), Err(DataError::EmptyData));
}
