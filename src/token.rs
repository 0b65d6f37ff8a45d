//! Token amounts, the token validity predicate and token transfers.
use vstd::prelude::*;

use crate::address::{Address, InternalAddress};
use crate::codec::{get_u64, parse_u64, put_u64, u64_le};
use crate::storage::{balance_key, balance_owner, is_balance_key, Key};

verus! {

/// A quantity of a token, in its smallest unit.
#[derive(Clone, Copy, Debug, PartialEq, Eq, Structural, PartialOrd, Ord, Hash)]
pub struct Amount {
    pub micro: u64,
}

/// A signed change of an amount.
pub type Change = i128;

impl Amount {
    /// The largest amount.
    pub fn max() -> (r: Amount)
        ensures
            r.micro == u64::MAX,
    {
        Amount { micro: u64::MAX }
    }

    /// No tokens.
    pub fn zero() -> (r: Amount)
        ensures
            r.micro == 0,
    {
        Amount { micro: 0 }
    }

    /// The amount as a signed quantity.
    pub fn change(&self) -> (r: Change)
        ensures
            r == self.micro as int,
    {
        self.micro as i128
    }
}

/// The amount that stored bytes hold: eight little-endian bytes, nothing more.
pub open spec fn amount_of_bytes(b: Seq<u8>) -> Option<u64> {
    match parse_u64(b, 0) {
        Some((x, q)) => if q == b.len() {
            Some(x)
        } else {
            None
        },
        None => None,
    }
}

impl Amount {
    /// The stored form of the amount.
    pub fn to_bytes(&self) -> (r: Vec<u8>)
        ensures
            r@ == u64_le(self.micro),
    {
        let mut out: Vec<u8> = Vec::new();
        put_u64(&mut out, self.micro);
        assert(out@ =~= u64_le(self.micro));
        out
    }

    /// Decodes a stored amount.
    pub fn from_bytes(b: &[u8]) -> (r: Option<Amount>)
        ensures
            r matches Some(a) ==> amount_of_bytes(b@) == Some(a.micro),
            r is None ==> amount_of_bytes(b@) is None,
    {
        let (x, q) = get_u64(b, 0)?;
        if q == b.len() {
            Some(Amount { micro: x })
        } else {
            None
        }
    }
}

/// What the validity predicate was able to read for one changed key: the
/// value before the transaction, after it, and in the temporary view.
#[derive(Clone, Debug, PartialEq)]
pub struct KeyReads {
    pub pre: Option<Vec<u8>>,
    pub post: Option<Vec<u8>>,
    pub temp: Option<Vec<u8>>,
}

/// Errors of the token validity predicate
#[derive(Clone, Copy, Debug, PartialEq, Eq, Structural)]
pub enum VpError {
    /// A stored balance could not be decoded
    Storage,
}

/// A balance as read: a missing value is zero, one that does not decode is
/// `None`.
pub open spec fn balance_read(b: Option<Vec<u8>>) -> Option<int> {
    match b {
        None => Some(0),
        Some(v) => match amount_of_bytes(v@) {
            Some(x) => Some(x as int),
            None => None,
        },
    }
}

pub open spec fn is_mint(a: Address) -> bool {
    a == Address::Internal(InternalAddress::Mint)
}

pub open spec fn is_burn(a: Address) -> bool {
    a == Address::Internal(InternalAddress::Burn)
}

/// What one changed key contributes. A fall in an ordinary balance needs
/// its owner among the verifiers; the mint and burn addresses need no
/// consent.
pub enum KeyOutcome {
    /// The transaction is rejected
    Reject,
    /// Storage could not be read
    Fault,
    /// The owner's balance changed by this much
    Change(int),
}

/// The balance before: unbounded for the mint address, zero for the burn
/// address, else what the pre-state holds.
pub open spec fn pre_balance(owner: Address, r: KeyReads) -> Option<int> {
    if is_mint(owner) {
        Some(u64::MAX as int)
    } else if is_burn(owner) {
        Some(0)
    } else {
        balance_read(r.pre)
    }
}

/// The balance after: the temporary view for mint and burn, else the
/// post-state.
pub open spec fn post_balance(owner: Address, r: KeyReads) -> Option<int> {
    if is_mint(owner) || is_burn(owner) {
        balance_read(r.temp)
    } else {
        balance_read(r.post)
    }
}

pub open spec fn key_outcome(token: Address, key: Key, r: KeyReads, verifiers: Seq<Address>) -> KeyOutcome {
    match balance_owner(token, key) {
        None => KeyOutcome::Reject,
        Some(owner) => match (pre_balance(owner, r), post_balance(owner, r)) {
            (Some(pre), Some(post)) => if post - pre < 0 && !is_mint(owner) && !is_burn(owner)
                && !verifiers.contains(owner) {
                KeyOutcome::Reject
            } else {
                KeyOutcome::Change(post - pre)
            },
            _ => KeyOutcome::Fault,
        },
    }
}

pub open spec fn key_outcomes(
    token: Address,
    keys: Seq<Key>,
    reads: Seq<KeyReads>,
    verifiers: Seq<Address>,
) -> Seq<KeyOutcome> {
    Seq::new(keys.len(), |i: int| key_outcome(token, keys[i], reads[i], verifiers))
}

/// The verdict over the outcomes in order, starting from a running total:
/// the first rejection or fault decides; a total that leaves the range of
/// `Change` rejects; else the total must end at zero.
pub open spec fn settle(os: Seq<KeyOutcome>, total: int) -> Result<bool, VpError>
    decreases os.len(),
{
    if os.len() == 0 {
        Ok(total == 0)
    } else {
        match os[0] {
            KeyOutcome::Reject => Ok(false),
            KeyOutcome::Fault => Err(VpError::Storage),
            KeyOutcome::Change(c) => if i128::MIN <= total + c <= i128::MAX {
                settle(os.drop_first(), total + c)
            } else {
                Ok(false)
            },
        }
    }
}

fn read_balance(b: &Option<Vec<u8>>) -> (r: Option<Amount>)
    ensures
        r matches Some(a) ==> balance_read(*b) == Some(a.micro as int),
        r is None ==> balance_read(*b) is None,
{
    match b {
        None => Some(Amount::zero()),
        Some(v) => Amount::from_bytes(v.as_slice()),
    }
}

fn contains_address(v: &Vec<Address>, a: &Address) -> (r: bool)
    ensures
        r == v@.contains(*a),
{
    let mut i: usize = 0;
    while i < v.len()
        invariant
            i <= v@.len(),
            forall|j: int| 0 <= j < i ==> v@[j] != *a,
        decreases v@.len() - i,
    {
        if v[i] == *a {
            return true;
        }
        i = i + 1;
    }
    false
}

/// A token validity predicate: every changed key is a balance of `token`,
/// no ordinary balance falls without its owner among `verifiers`, and the changes sum
/// to zero. `reads[i]` holds what storage gives for `keys_changed[i]`.
pub fn vp(token: &Address, keys_changed: &Vec<Key>, reads: &Vec<KeyReads>, verifiers: &Vec<Address>) -> (r:
    Result<bool, VpError>)
    requires
        reads@.len() == keys_changed@.len(),
    ensures
        r == settle(key_outcomes(*token, keys_changed@, reads@, verifiers@), 0),
{
    let ghost os = key_outcomes(*token, keys_changed@, reads@, verifiers@);
    let mut change: Change = 0;
    let mut i: usize = 0;
    assert(os.subrange(0, os.len() as int) =~= os);
    while i < keys_changed.len()
        invariant
            i <= keys_changed@.len(),
            reads@.len() == keys_changed@.len(),
            os == key_outcomes(*token, keys_changed@, reads@, verifiers@),
            settle(os, 0) == settle(os.subrange(i as int, os.len() as int), change as int),
        decreases keys_changed@.len() - i,
    {
        proof {
            let rest = os.subrange(i as int, os.len() as int);
            assert(rest[0] == os[i as int]);
            assert(rest.drop_first() =~= os.subrange(i + 1, os.len() as int));
        }
        let owner = match is_balance_key(token, &keys_changed[i]) {
            None => {
                return Ok(false);
            },
            Some(o) => o,
        };
        let is_mint_owner = owner == Address::Internal(InternalAddress::Mint);
        let is_burn_owner = owner == Address::Internal(InternalAddress::Burn);
        let pre = if is_mint_owner {
            Amount::max()
        } else if is_burn_owner {
            Amount::zero()
        } else {
            match read_balance(&reads[i].pre) {
                Some(a) => a,
                None => {
                    return Err(VpError::Storage);
                },
            }
        };
        let post = if is_mint_owner || is_burn_owner {
            read_balance(&reads[i].temp)
        } else {
            read_balance(&reads[i].post)
        };
        let post = match post {
            Some(a) => a,
            None => {
                return Err(VpError::Storage);
            },
        };
        let this_change = post.change() - pre.change();
        if this_change < 0 && !is_mint_owner && !is_burn_owner && !contains_address(verifiers, &owner) {
            return Ok(false);
        }
        change = match change.checked_add(this_change) {
            Some(c) => c,
            None => {
                return Ok(false);
            },
        };
        i = i + 1;
    }
    assert(os.subrange(i as int, os.len() as int) =~= Seq::<KeyOutcome>::empty());
    Ok(change == 0)
}

/// One balance that a transfer writes, to storage or to the temporary view.
#[derive(Clone, Debug, PartialEq)]
pub struct BalanceWrite {
    pub key: Key,
    pub amount: Amount,
    /// The value goes to the temporary view and is never committed
    pub temp: bool,
}

/// The two writes of a transfer, to be applied in this order.
#[derive(Clone, Debug, PartialEq)]
pub struct TransferWrites {
    pub source: BalanceWrite,
    pub target: BalanceWrite,
}

/// Why a transfer halts the transaction.
#[derive(Clone, Copy, Debug, PartialEq, Eq, Structural)]
pub enum TransferError {
    /// The source has no balance and is not the mint address
    NoBalance,
    /// The source holds less than the amount
    InsufficientBalance,
    /// The target's balance would pass the largest amount
    BalanceOverflow,
    /// Nothing can be taken from the burn address
    FromBurn,
    /// Nothing can be sent to the mint address
    ToMint,
}

/// A stored balance as the transaction side reads it: missing or
/// undecodable is `None`.
pub open spec fn stored_amount(b: Option<Vec<u8>>) -> Option<u64> {
    match b {
        Some(v) => amount_of_bytes(v@),
        None => None,
    }
}

/// What a transfer of `amount` of `token` from `src` to `dest` writes,
/// given the stored balances of both. The target is credited after the
/// source is debited, so a transfer to oneself leaves the balance as it was.
pub open spec fn transfer_result(
    src: Address,
    dest: Address,
    token: Address,
    amount: u64,
    src_stored: Option<Vec<u8>>,
    dest_stored: Option<Vec<u8>>,
) -> Result<TransferWrites, TransferError> {
    let src_bal = match stored_amount(src_stored) {
        Some(b) => Some(b),
        None => if is_mint(src) {
            Some(u64::MAX)
        } else {
            None
        },
    };
    let stored_dest: u64 = match stored_amount(dest_stored) {
        Some(b) => b,
        None => 0,
    };
    match src_bal {
        None => Err(TransferError::NoBalance),
        Some(s) => {
            let dest_bal: int = if src == dest {
                s - amount
            } else {
                stored_dest as int
            };
            if s < amount {
                Err(TransferError::InsufficientBalance)
            } else if dest_bal + amount > u64::MAX {
                Err(TransferError::BalanceOverflow)
            } else if is_burn(src) {
                Err(TransferError::FromBurn)
            } else if is_mint(dest) {
                Err(TransferError::ToMint)
            } else {
                Ok(
                    TransferWrites {
                        source: BalanceWrite {
                            key: Key::Balance { token, owner: src },
                            amount: Amount { micro: (s - amount) as u64 },
                            temp: is_mint(src),
                        },
                        target: BalanceWrite {
                            key: Key::Balance { token, owner: dest },
                            amount: Amount { micro: (dest_bal + amount) as u64 },
                            temp: is_burn(dest),
                        },
                    },
                )
            }
        },
    }
}

fn read_stored(b: &Option<Vec<u8>>) -> (r: Option<Amount>)
    ensures
        r matches Some(a) ==> stored_amount(*b) == Some(a.micro),
        r is None ==> stored_amount(*b) is None,
{
    match b {
        Some(v) => Amount::from_bytes(v.as_slice()),
        None => None,
    }
}

/// A token transfer that can be used in a transaction: debits `src` and
/// credits `dest`. The mint address is an unbounded source whose balance
/// goes to the temporary view; so does the burn address's as a target.
pub fn transfer(
    src: &Address,
    dest: &Address,
    token: &Address,
    amount: Amount,
    src_stored: &Option<Vec<u8>>,
    dest_stored: &Option<Vec<u8>>,
) -> (r: Result<TransferWrites, TransferError>)
    ensures
        r == transfer_result(*src, *dest, *token, amount.micro, *src_stored, *dest_stored),
{
    let src_is_mint = *src == Address::Internal(InternalAddress::Mint);
    let src_bal = match read_stored(src_stored) {
        Some(b) => b,
        None => if src_is_mint {
            Amount::max()
        } else {
            return Err(TransferError::NoBalance);
        },
    };
    if src_bal.micro < amount.micro {
        return Err(TransferError::InsufficientBalance);
    }
    let src_new = Amount { micro: src_bal.micro - amount.micro };
    let dest_bal = if *src == *dest {
        src_new
    } else {
        match read_stored(dest_stored) {
            Some(b) => b,
            None => Amount::zero(),
        }
    };
    let dest_new = match dest_bal.micro.checked_add(amount.micro) {
        Some(x) => Amount { micro: x },
        None => {
            return Err(TransferError::BalanceOverflow);
        },
    };
    if *src == Address::Internal(InternalAddress::Burn) {
        return Err(TransferError::FromBurn);
    }
    if *dest == Address::Internal(InternalAddress::Mint) {
        return Err(TransferError::ToMint);
    }
    let source = BalanceWrite { key: balance_key(token, src), amount: src_new, temp: src_is_mint };
    let target = BalanceWrite {
        key: balance_key(token, dest),
        amount: dest_new,
        temp: *dest == Address::Internal(InternalAddress::Burn),
    };
    Ok(TransferWrites { source, target })
}

} // verus!
