//! Ledger account addresses.
use vstd::prelude::*;

use crate::codec::{get_u64, get_u8, holds_at, lemma_holds_join, lemma_holds_split, lemma_u64, lemma_u8, parse_u64, parse_u8, put_u64, u64_le};

verus! {

/// The fixed set of addresses that belong to the protocol itself.
#[derive(Clone, Copy, Debug, PartialEq, Eq, Structural, PartialOrd, Ord, Hash)]
pub enum InternalAddress {
    /// Proof of stake
    PoS,
    /// The Ethereum bridge
    EthBridge,
    /// Virtual source of minted tokens
    Mint,
    /// Virtual sink of burnt tokens
    Burn,
}

/// An account on the ledger.
#[derive(Clone, Copy, Debug, PartialEq, Eq, Structural, PartialOrd, Ord, Hash)]
pub enum Address {
    /// An account that users control, by its identity
    Established(u64),
    /// An account of the protocol
    Internal(InternalAddress),
}

pub open spec fn internal_tag(a: InternalAddress) -> u8 {
    match a {
        InternalAddress::PoS => 0,
        InternalAddress::EthBridge => 1,
        InternalAddress::Mint => 2,
        InternalAddress::Burn => 3,
    }
}

pub open spec fn internal_of_tag(t: u8) -> Option<InternalAddress> {
    if t == 0 {
        Some(InternalAddress::PoS)
    } else if t == 1 {
        Some(InternalAddress::EthBridge)
    } else if t == 2 {
        Some(InternalAddress::Mint)
    } else if t == 3 {
        Some(InternalAddress::Burn)
    } else {
        None
    }
}

/// Wire form of an address: a tag byte, then the identity or the internal tag.
pub open spec fn enc_address(a: Address) -> Seq<u8> {
    match a {
        Address::Established(id) => seq![0u8] + u64_le(id),
        Address::Internal(i) => seq![1u8] + seq![internal_tag(i)],
    }
}

pub open spec fn parse_address(s: Seq<u8>, p: int) -> Option<(Address, int)> {
    match parse_u8(s, p) {
        Some((tag, q)) => if tag == 0 {
            match parse_u64(s, q) {
                Some((id, r)) => Some((Address::Established(id), r)),
                None => None,
            }
        } else if tag == 1 {
            match parse_u8(s, q) {
                Some((t, r)) => match internal_of_tag(t) {
                    Some(i) => Some((Address::Internal(i), r)),
                    None => None,
                },
                None => None,
            }
        } else {
            None
        },
        None => None,
    }
}

pub proof fn lemma_address(s: Seq<u8>, p: int, a: Address)
    ensures
        holds_at(s, p, enc_address(a)) ==> parse_address(s, p) == Some(
            (a, p + enc_address(a).len()),
        ),
        parse_address(s, p) matches Some((b, q)) ==> q == p + enc_address(b).len() && holds_at(
            s,
            p,
            enc_address(b),
        ),
{
    if holds_at(s, p, enc_address(a)) {
        match a {
            Address::Established(id) => {
                lemma_holds_split(s, p, seq![0u8], u64_le(id));
                lemma_u8(s, p, 0);
                lemma_u64(s, p + 1, id);
            },
            Address::Internal(i) => {
                lemma_holds_split(s, p, seq![1u8], seq![internal_tag(i)]);
                lemma_u8(s, p, 1);
                lemma_u8(s, p + 1, internal_tag(i));
            },
        }
    }
    lemma_u8(s, p, 0);
    if let Some((tag, q)) = parse_u8(s, p) {
        lemma_u8(s, p, tag);
        lemma_u64(s, q, 0);
        lemma_u8(s, q, 0);
        if let Some((id, r)) = parse_u64(s, q) {
            lemma_u64(s, q, id);
            if tag == 0 {
                lemma_holds_join(s, p, seq![0u8], u64_le(id));
            }
        }
        if let Some((t, r)) = parse_u8(s, q) {
            lemma_u8(s, q, t);
            if tag == 1 {
                lemma_holds_join(s, p, seq![1u8], seq![t]);
            }
        }
    }
}

fn internal_to_tag(a: InternalAddress) -> (r: u8)
    ensures
        r == internal_tag(a),
{
    match a {
        InternalAddress::PoS => 0,
        InternalAddress::EthBridge => 1,
        InternalAddress::Mint => 2,
        InternalAddress::Burn => 3,
    }
}

/// Appends the wire form of `a`.
pub fn encode_address(a: &Address, out: &mut Vec<u8>)
    ensures
        final(out)@ == old(out)@ + enc_address(*a),
{
    match a {
        Address::Established(id) => {
            out.push(0u8);
            put_u64(out, *id);
        },
        Address::Internal(i) => {
            out.push(1u8);
            out.push(internal_to_tag(*i));
        },
    }
    assert(final(out)@ =~= old(out)@ + enc_address(*a));
}

/// Reads an address at position `p`.
pub fn decode_address(s: &[u8], p: usize) -> (r: Option<(Address, usize)>)
    ensures
        r matches Some((a, q)) ==> parse_address(s@, p as int) == Some((a, q as int)),
        r is None ==> parse_address(s@, p as int) is None,
{
    let (tag, q) = get_u8(s, p)?;
    if tag == 0 {
        let (id, r) = get_u64(s, q)?;
        Some((Address::Established(id), r))
    } else if tag == 1 {
        let (t, r) = get_u8(s, q)?;
        let i = if t == 0 {
            InternalAddress::PoS
        } else if t == 1 {
            InternalAddress::EthBridge
        } else if t == 2 {
            InternalAddress::Mint
        } else if t == 3 {
            InternalAddress::Burn
        } else {
            return None;
        };
        Some((Address::Internal(i), r))
    } else {
        None
    }
}

} // verus!
