use eth_bridge::data::{to_signed, SignedEnvelope};
use eth_bridge::address::Address;
use eth_bridge::ethereum::{self, Block, FungibleAsset};
use eth_bridge::token::Amount;
use eth_bridge::transfer::{TransferFromEthereum, UpdateQueue};

fn sample(n: u8) -> TransferFromEthereum {
    TransferFromEthereum {
        asset: FungibleAsset::Erc20(ethereum::Address(vec![0xab, n, 0xcd])),
        receiver: Address::Established(0x1122_3344_5566_7788),
        amount: Amount { micro: 42 },
        min_confirmations: 12,
        seen: 0x0102_0304,
        latest_descendant: Block { height: 77, hash: ethereum::Hash(vec![n; 32]) },
    }
}

#[test]
fn transfer_round_trip() {
    let t = sample(1);
    let bytes = t.to_bytes();
    assert_eq!(TransferFromEthereum::from_bytes(&bytes), Some(t));
    for k in 0..bytes.len() {
        assert_eq!(TransferFromEthereum::from_bytes(&bytes[..k]), None);
    }
}

#[test]
fn transfer_wire_form() {
    let t = TransferFromEthereum {
        asset: FungibleAsset::Eth,
        receiver: Address::Established(1),
        amount: Amount { micro: 2 },
        min_confirmations: 3,
        seen: 4,
        latest_descendant: Block { height: 5, hash: ethereum::Hash(vec![6; 32]) },
    };
    let mut expected = vec![0u8, 0, 1, 0, 0, 0, 0, 0, 0, 0, 2, 0, 0, 0, 0, 0, 0, 0, 3];
    expected.extend([4, 0, 0, 0, 0, 0, 0, 0, 5, 0, 0, 0, 0, 0, 0, 0]);
    expected.extend([6u8; 32]);
    assert_eq!(t.to_bytes(), expected);
}

#[test]
fn update_queue_round_trip() {
    let u = UpdateQueue::new(vec![sample(1), sample(2), sample(3)]);
    let bytes = u.to_bytes();
    assert_eq!(UpdateQueue::from_bytes(&bytes), Some(u));
    for k in 0..bytes.len() {
        assert_eq!(UpdateQueue::from_bytes(&bytes[..k]), None);
    }
    let mut longer = bytes.clone();
    longer.push(0);
    assert_eq!(UpdateQueue::from_bytes(&longer), None);
}

#[test]
fn empty_update_queue_round_trip() {
    let u = UpdateQueue::new(vec![]);
    assert_eq!(u.to_bytes(), vec![0, 0, 0, 0]);
    assert_eq!(UpdateQueue::from_bytes(&[0, 0, 0, 0]), Some(u));
}

#[test]
fn envelope_round_trip_and_borsh_layout() {
    let env = SignedEnvelope { data: vec![1, 2, 3], sig: vec![7; 64] };
    let bytes = env.to_bytes();
    assert_eq!(bytes, borsh::to_vec(&(vec![1u8, 2, 3], vec![7u8; 64])).unwrap());
    assert_eq!(to_signed(&bytes), Ok(env));
    for k in 0..bytes.len() {
        assert!(to_signed(&bytes[..k]).is_err());
    }
}

#[test]
fn unknown_tags_do_not_decode() {
    let mut bytes = sample(1).to_bytes();
    bytes[0] = 2;
    assert_eq!(TransferFromEthereum::from_bytes(&bytes), None);
}
