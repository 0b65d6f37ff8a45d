use eth_bridge::address::{Address, InternalAddress};
use eth_bridge::storage::{balance_key, Key};
use eth_bridge::token::{transfer, vp, Amount, KeyReads, TransferError, VpError};

const TOKEN: Address = Address::Established(100);
const ALICE: Address = Address::Established(1);
const BOB: Address = Address::Established(2);
const MINT: Address = Address::Internal(InternalAddress::Mint);
const BURN: Address = Address::Internal(InternalAddress::Burn);

fn amt(x: u64) -> Option<Vec<u8>> {
    Some(Amount { micro: x }.to_bytes())
}

fn reads(pre: Option<Vec<u8>>, post: Option<Vec<u8>>, temp: Option<Vec<u8>>) -> KeyReads {
    KeyReads { pre, post, temp }
}

#[test]
fn balanced_consented_transfer_is_accepted() {
    let keys = vec![balance_key(&TOKEN, &ALICE), balance_key(&TOKEN, &BOB)];
    let r = vec![reads(amt(50), amt(40), None), reads(amt(5), amt(15), None)];
    assert_eq!(vp(&TOKEN, &keys, &r, &vec![ALICE]), Ok(true));
}

#[test]
fn perturbed_delta_is_rejected() {
    let keys = vec![balance_key(&TOKEN, &ALICE), balance_key(&TOKEN, &BOB)];
    let r = vec![reads(amt(50), amt(40), None), reads(amt(5), amt(16), None)];
    assert_eq!(vp(&TOKEN, &keys, &r, &vec![ALICE]), Ok(false));
}

#[test]
fn debit_without_consent_is_rejected() {
    let keys = vec![balance_key(&TOKEN, &ALICE), balance_key(&TOKEN, &BOB)];
    let r = vec![reads(amt(50), amt(40), None), reads(amt(5), amt(15), None)];
    assert_eq!(vp(&TOKEN, &keys, &r, &vec![BOB]), Ok(false));
    assert_eq!(vp(&TOKEN, &keys, &r, &vec![]), Ok(false));
}

#[test]
fn mint_debit_needs_no_consent() {
    let keys = vec![balance_key(&TOKEN, &MINT), balance_key(&TOKEN, &ALICE)];
    let r = vec![reads(None, None, amt(u64::MAX - 30)), reads(None, amt(30), None)];
    assert_eq!(vp(&TOKEN, &keys, &r, &vec![]), Ok(true));
}

#[test]
fn burn_credit_balances_a_debit() {
    let keys = vec![balance_key(&TOKEN, &ALICE), balance_key(&TOKEN, &BURN)];
    let r = vec![reads(amt(30), amt(0), None), reads(amt(999), amt(999), amt(30))];
    assert_eq!(vp(&TOKEN, &keys, &r, &vec![ALICE]), Ok(true));
}

#[test]
fn non_balance_key_is_rejected() {
    let keys = vec![balance_key(&TOKEN, &ALICE), Key::Other("x".to_string())];
    let r = vec![reads(amt(1), amt(1), None), reads(None, None, None)];
    assert_eq!(vp(&TOKEN, &keys, &r, &vec![ALICE]), Ok(false));
    let other_token = vec![balance_key(&Address::Established(101), &ALICE)];
    assert_eq!(vp(&TOKEN, &other_token, &vec![reads(None, None, None)], &vec![]), Ok(false));
}

#[test]
fn missing_balances_read_as_zero() {
    let keys = vec![balance_key(&TOKEN, &ALICE)];
    assert_eq!(vp(&TOKEN, &keys, &vec![reads(None, None, None)], &vec![]), Ok(true));
    assert_eq!(vp(&TOKEN, &vec![], &vec![], &vec![]), Ok(true));
}

#[test]
fn undecodable_balance_is_a_fault() {
    let keys = vec![balance_key(&TOKEN, &ALICE)];
    let r = vec![reads(Some(vec![1, 2, 3]), amt(0), None)];
    assert_eq!(vp(&TOKEN, &keys, &r, &vec![ALICE]), Err(VpError::Storage));
}

#[test]
fn transfer_between_ordinary_accounts() {
    let w = transfer(&ALICE, &BOB, &TOKEN, Amount { micro: 30 }, &amt(100), &amt(5)).unwrap();
    assert_eq!(w.source.key, balance_key(&TOKEN, &ALICE));
    assert_eq!(w.source.amount, Amount { micro: 70 });
    assert!(!w.source.temp);
    assert_eq!(w.target.key, balance_key(&TOKEN, &BOB));
    assert_eq!(w.target.amount, Amount { micro: 35 });
    assert!(!w.target.temp);
}

#[test]
fn transfer_from_mint_goes_to_temporary_view() {
    let w = transfer(&MINT, &BOB, &TOKEN, Amount { micro: 30 }, &None, &None).unwrap();
    assert_eq!(w.source.amount, Amount { micro: u64::MAX - 30 });
    assert!(w.source.temp);
    assert_eq!(w.target.amount, Amount { micro: 30 });
    assert!(!w.target.temp);
}

#[test]
fn transfer_to_burn_goes_to_temporary_view() {
    let w = transfer(&ALICE, &BURN, &TOKEN, Amount { micro: 30 }, &amt(30), &None).unwrap();
    assert_eq!(w.source.amount, Amount { micro: 0 });
    assert!(w.target.temp);
    assert_eq!(w.target.amount, Amount { micro: 30 });
}

#[test]
fn transfer_errors() {
    let a = Amount { micro: 30 };
    assert_eq!(transfer(&ALICE, &BOB, &TOKEN, a, &None, &None), Err(TransferError::NoBalance));
    assert_eq!(transfer(&ALICE, &BOB, &TOKEN, a, &amt(29), &None), Err(TransferError::InsufficientBalance));
    assert_eq!(transfer(&ALICE, &BOB, &TOKEN, a, &amt(30), &amt(u64::MAX)), Err(TransferError::BalanceOverflow));
    assert_eq!(transfer(&BURN, &BOB, &TOKEN, a, &amt(30), &None), Err(TransferError::FromBurn));
    assert_eq!(transfer(&ALICE, &MINT, &TOKEN, a, &amt(30), &None), Err(TransferError::ToMint));
}

#[test]
fn amount_bytes_match_borsh() {
    let a = Amount { micro: 0x0102_0304_0506_0708 };
    assert_eq!(a.to_bytes(), borsh::to_vec(&a.micro).unwrap());
    assert_eq!(Amount::from_bytes(&a.to_bytes()), Some(a));
    assert_eq!(Amount::from_bytes(&[1, 2, 3]), None);
    assert_eq!(Amount::max().change() - Amount::zero().change(), u64::MAX as i128);
}

#[test]
fn transfer_to_oneself_keeps_balance() {
    let w = transfer(&ALICE, &ALICE, &TOKEN, Amount { micro: 3 }, &amt(10), &amt(10)).unwrap();
    assert_eq!(w.source.key, w.target.key);
    assert_eq!(w.source.amount, Amount { micro: 7 });
    assert_eq!(w.target.amount, Amount { micro: 10 });
    assert_eq!(
        transfer(&ALICE, &ALICE, &TOKEN, Amount { micro: 11 }, &amt(10), &amt(10)),
        Err(TransferError::InsufficientBalance)
    );
}
