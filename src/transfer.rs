//! Transfers from Ethereum, batches of them, and their wire forms.
use vstd::prelude::*;

use crate::address::{decode_address, encode_address, enc_address, lemma_address, parse_address, Address};
use crate::codec::{enc_bytes, get_bytes, get_fixed, get_u32, get_u64, get_u8, holds_at, lemma_bytes, lemma_fixed, lemma_holds_join, lemma_holds_split, lemma_u64, lemma_u8, parse_bytes, parse_fixed, parse_u32, parse_u64, parse_u8, put_bytes, put_raw, put_u32, put_u64, u32_le, u64_le};
use crate::ethereum::{self, AssetView, BlockView, FungibleAsset};
use crate::token::Amount;

verus! {

/// Represents a transfer from Ethereum
#[derive(Clone, Debug, PartialEq)]
pub struct TransferFromEthereum {
    /// The specific asset being transferred
    pub asset: FungibleAsset,
    /// the address on the ledger receiving the tokens
    pub receiver: Address,
    /// the amount of the asset to mint
    pub amount: Amount,
    /// minimum number of confirmations needed for mints
    pub min_confirmations: u8,
    /// height of the block at which the message appeared
    pub seen: ethereum::BlockHeight,
    /// the hash & height of the last descendant block marked as `seen`
    pub latest_descendant: ethereum::Block,
}

/// What a transfer is, over plain values.
pub struct TransferView {
    pub asset: AssetView,
    pub receiver: Address,
    pub amount: u64,
    pub min_confirmations: u8,
    pub seen: u64,
    pub latest_descendant: BlockView,
}

impl View for TransferFromEthereum {
    type V = TransferView;

    open spec fn view(&self) -> TransferView {
        TransferView {
            asset: self.asset@,
            receiver: self.receiver,
            amount: self.amount.micro,
            min_confirmations: self.min_confirmations,
            seen: self.seen,
            latest_descendant: self.latest_descendant@,
        }
    }
}

/// Contains information to update the queue
#[derive(Clone, Debug, PartialEq)]
pub struct UpdateQueue {
    /// New transfers to add to the queue
    pub enqueue: Vec<TransferFromEthereum>,
}

/// The views of a sequence of transfers.
pub open spec fn transfers_view(v: Seq<TransferFromEthereum>) -> Seq<TransferView> {
    v.map_values(|t: TransferFromEthereum| t@)
}

impl View for UpdateQueue {
    type V = Seq<TransferView>;

    open spec fn view(&self) -> Seq<TransferView> {
        transfers_view(self.enqueue@)
    }
}

impl UpdateQueue {
    /// Creates a new queue containing the passed transfers
    pub fn new(transfers: Vec<TransferFromEthereum>) -> (r: Self)
        ensures
            r.enqueue@ == transfers@,
    {
        UpdateQueue { enqueue: transfers }
    }
}

/// A transfer that can be put on the wire: the token address fits a
/// length prefix and the block hash has 32 bytes.
pub open spec fn transfer_wf(t: TransferView) -> bool {
    &&& (t.asset matches AssetView::Erc20(a) ==> a.len() <= u32::MAX)
    &&& t.latest_descendant.hash.len() == 32
}

pub open spec fn queue_wf(v: Seq<TransferView>) -> bool {
    &&& v.len() <= u32::MAX
    &&& forall|i: int| 0 <= i < v.len() ==> transfer_wf(#[trigger] v[i])
}

pub open spec fn enc_asset(a: AssetView) -> Seq<u8> {
    match a {
        AssetView::Eth => seq![0u8],
        AssetView::Erc20(b) => seq![1u8] + enc_bytes(b),
    }
}

/// Wire form of a transfer: its fields in order.
pub open spec fn enc_transfer(t: TransferView) -> Seq<u8> {
    enc_asset(t.asset) + enc_address(t.receiver) + u64_le(t.amount) + seq![t.min_confirmations]
        + u64_le(t.seen) + u64_le(t.latest_descendant.height) + t.latest_descendant.hash
}

/// Wire form of the transfers one after another, without a count.
pub open spec fn enc_transfers(v: Seq<TransferView>) -> Seq<u8>
    decreases v.len(),
{
    if v.len() == 0 {
        Seq::empty()
    } else {
        enc_transfers(v.drop_last()) + enc_transfer(v.last())
    }
}

/// Wire form of a queue or a batch: the count, then the transfers.
pub open spec fn enc_queue(v: Seq<TransferView>) -> Seq<u8> {
    u32_le(v.len() as u32) + enc_transfers(v)
}

pub open spec fn parse_asset(s: Seq<u8>, p: int) -> Option<(AssetView, int)> {
    match parse_u8(s, p) {
        Some((tag, q)) => if tag == 0 {
            Some((AssetView::Eth, q))
        } else if tag == 1 {
            match parse_bytes(s, q) {
                Some((b, r)) => Some((AssetView::Erc20(b), r)),
                None => None,
            }
        } else {
            None
        },
        None => None,
    }
}

#[verifier::opaque]
pub open spec fn parse_transfer(s: Seq<u8>, p: int) -> Option<(TransferView, int)> {
    match parse_asset(s, p) {
        Some((asset, p1)) => match parse_address(s, p1) {
            Some((receiver, p2)) => match parse_u64(s, p2) {
                Some((amount, p3)) => match parse_u8(s, p3) {
                    Some((min_confirmations, p4)) => match parse_u64(s, p4) {
                        Some((seen, p5)) => match parse_u64(s, p5) {
                            Some((height, p6)) => match parse_fixed(s, p6, 32) {
                                Some((hash, p7)) => Some(
                                    (
                                        TransferView {
                                            asset,
                                            receiver,
                                            amount,
                                            min_confirmations,
                                            seen,
                                            latest_descendant: BlockView { height, hash },
                                        },
                                        p7,
                                    ),
                                ),
                                None => None,
                            },
                            None => None,
                        },
                        None => None,
                    },
                    None => None,
                },
                None => None,
            },
            None => None,
        },
        None => None,
    }
}

/// Reads `k` transfers one after another from position `p`.
pub open spec fn parse_transfers(s: Seq<u8>, p: int, k: nat) -> Option<(Seq<TransferView>, int)>
    decreases k,
{
    if k == 0 {
        if 0 <= p <= s.len() {
            Some((Seq::empty(), p))
        } else {
            None
        }
    } else {
        match parse_transfers(s, p, (k - 1) as nat) {
            Some((items, q)) => match parse_transfer(s, q) {
                Some((t, r)) => Some((items.push(t), r)),
                None => None,
            },
            None => None,
        }
    }
}

pub open spec fn parse_queue(s: Seq<u8>, p: int) -> Option<(Seq<TransferView>, int)> {
    match parse_u32(s, p) {
        Some((n, q)) => parse_transfers(s, q, n as nat),
        None => None,
    }
}

/// What decoding a whole buffer as a queue gives: a value only where the
/// encoding takes up every byte.
pub open spec fn queue_of_bytes(s: Seq<u8>) -> Option<Seq<TransferView>> {
    match parse_queue(s, 0) {
        Some((v, q)) => if q == s.len() {
            Some(v)
        } else {
            None
        },
        None => None,
    }
}

pub proof fn lemma_asset(s: Seq<u8>, p: int, a: AssetView)
    ensures
        holds_at(s, p, enc_asset(a)) && (a matches AssetView::Erc20(b) ==> b.len() <= u32::MAX)
            ==> parse_asset(s, p) == Some((a, p + enc_asset(a).len())),
        parse_asset(s, p) matches Some((b, q)) ==> q == p + enc_asset(b).len() && holds_at(
            s,
            p,
            enc_asset(b),
        ) && (b matches AssetView::Erc20(x) ==> x.len() <= u32::MAX),
{
    if holds_at(s, p, enc_asset(a)) {
        match a {
            AssetView::Eth => {
                lemma_u8(s, p, 0);
            },
            AssetView::Erc20(b) => {
                lemma_holds_split(s, p, seq![1u8], enc_bytes(b));
                lemma_u8(s, p, 1);
                lemma_bytes(s, p + 1, b);
            },
        }
    }
    lemma_u8(s, p, 0);
    if let Some((tag, q)) = parse_u8(s, p) {
        lemma_u8(s, p, tag);
        lemma_bytes(s, q, Seq::empty());
        if let Some((b, r)) = parse_bytes(s, q) {
            if tag == 1 {
                lemma_holds_join(s, p, seq![1u8], enc_bytes(b));
            }
        }
    }
}

pub proof fn lemma_transfer(s: Seq<u8>, p: int, t: TransferView)
    ensures
        holds_at(s, p, enc_transfer(t)) && transfer_wf(t) ==> parse_transfer(s, p) == Some(
            (t, p + enc_transfer(t).len()),
        ),
        parse_transfer(s, p) matches Some((u, q)) ==> q == p + enc_transfer(u).len() && holds_at(
            s,
            p,
            enc_transfer(u),
        ) && transfer_wf(u),
{
    reveal(parse_transfer);
    if holds_at(s, p, enc_transfer(t)) && transfer_wf(t) {
        let a1 = enc_asset(t.asset);
        let a2 = enc_address(t.receiver);
        let a3 = u64_le(t.amount);
        let a4 = seq![t.min_confirmations];
        let a5 = u64_le(t.seen);
        let a6 = u64_le(t.latest_descendant.height);
        let a7 = t.latest_descendant.hash;
        lemma_holds_split(s, p, a1 + a2 + a3 + a4 + a5 + a6, a7);
        lemma_holds_split(s, p, a1 + a2 + a3 + a4 + a5, a6);
        lemma_holds_split(s, p, a1 + a2 + a3 + a4, a5);
        lemma_holds_split(s, p, a1 + a2 + a3, a4);
        lemma_holds_split(s, p, a1 + a2, a3);
        lemma_holds_split(s, p, a1, a2);
        let p1 = p + a1.len();
        let p2 = p1 + a2.len();
        let p3 = p2 + 8;
        let p4 = p3 + 1;
        let p5 = p4 + 8;
        let p6 = p5 + 8;
        lemma_asset(s, p, t.asset);
        lemma_address(s, p1, t.receiver);
        lemma_u64(s, p2, t.amount);
        lemma_u8(s, p3, t.min_confirmations);
        lemma_u64(s, p4, t.seen);
        lemma_u64(s, p5, t.latest_descendant.height);
        lemma_fixed(s, p6, 32, a7);
    }
    if let Some((u, q)) = parse_transfer(s, p) {
        let (asset, p1) = parse_asset(s, p).unwrap();
        let (receiver, p2) = parse_address(s, p1).unwrap();
        let (amount, p3) = parse_u64(s, p2).unwrap();
        let (mc, p4) = parse_u8(s, p3).unwrap();
        let (seen, p5) = parse_u64(s, p4).unwrap();
        let (height, p6) = parse_u64(s, p5).unwrap();
        let (hash, p7) = parse_fixed(s, p6, 32).unwrap();
        lemma_asset(s, p, asset);
        lemma_address(s, p1, receiver);
        lemma_u64(s, p2, amount);
        lemma_u8(s, p3, mc);
        lemma_u64(s, p4, seen);
        lemma_u64(s, p5, height);
        lemma_fixed(s, p6, 32, hash);
        let a1 = enc_asset(asset);
        let a2 = enc_address(receiver);
        let a3 = u64_le(amount);
        let a4 = seq![mc];
        let a5 = u64_le(seen);
        let a6 = u64_le(height);
        lemma_holds_join(s, p, a1, a2);
        lemma_holds_join(s, p, a1 + a2, a3);
        lemma_holds_join(s, p, a1 + a2 + a3, a4);
        lemma_holds_join(s, p, a1 + a2 + a3 + a4, a5);
        lemma_holds_join(s, p, a1 + a2 + a3 + a4 + a5, a6);
        lemma_holds_join(s, p, a1 + a2 + a3 + a4 + a5 + a6, hash);
    }
}

pub proof fn lemma_transfers_complete(s: Seq<u8>, p: int, v: Seq<TransferView>)
    requires
        holds_at(s, p, enc_transfers(v)),
        forall|i: int| 0 <= i < v.len() ==> transfer_wf(#[trigger] v[i]),
    ensures
        parse_transfers(s, p, v.len()) == Some((v, p + enc_transfers(v).len())),
    decreases v.len(),
{
    if v.len() > 0 {
        let w = v.drop_last();
        lemma_holds_split(s, p, enc_transfers(w), enc_transfer(v.last()));
        assert forall|i: int| 0 <= i < w.len() implies transfer_wf(#[trigger] w[i]) by {
            assert(w[i] == v[i]);
        }
        lemma_transfers_complete(s, p, w);
        assert(transfer_wf(v[v.len() - 1]));
        lemma_transfer(s, p + enc_transfers(w).len(), v.last());
        assert(w.push(v.last()) =~= v);
    }
}

pub proof fn lemma_transfers_sound(s: Seq<u8>, p: int, k: nat)
    ensures
        parse_transfers(s, p, k) matches Some((u, q)) ==> u.len() == k && q == p
            + enc_transfers(u).len() && holds_at(s, p, enc_transfers(u)) && (forall|i: int|
            0 <= i < u.len() ==> transfer_wf(#[trigger] u[i])),
    decreases k,
{
    if k == 0 {
        if 0 <= p <= s.len() {
            assert(s.subrange(p, p) =~= enc_transfers(Seq::<TransferView>::empty()));
        }
    } else {
        lemma_transfers_sound(s, p, (k - 1) as nat);
        if let Some((u, q)) = parse_transfers(s, p, k) {
            let (items, q1) = parse_transfers(s, p, (k - 1) as nat).unwrap();
            let (t, r) = parse_transfer(s, q1).unwrap();
            lemma_transfer(s, q1, t);
            assert(u.drop_last() =~= items);
            lemma_holds_join(s, p, enc_transfers(items), enc_transfer(t));
            assert forall|i: int| 0 <= i < u.len() implies transfer_wf(#[trigger] u[i]) by {
                if i < items.len() {
                    assert(u[i] == items[i]);
                }
            }
        }
    }
}

/// Once reading `k` transfers fails, reading more fails too.
pub proof fn lemma_transfers_fail(s: Seq<u8>, p: int, k: nat, j: nat)
    requires
        k <= j,
        parse_transfers(s, p, k) is None,
    ensures
        parse_transfers(s, p, j) is None,
    decreases j,
{
    if k < j {
        lemma_transfers_fail(s, p, k, (j - 1) as nat);
    }
}

/// What decoding a whole buffer as one transfer gives.
pub open spec fn transfer_of_bytes(s: Seq<u8>) -> Option<TransferView> {
    match parse_transfer(s, 0) {
        Some((v, q)) => if q == s.len() {
            Some(v)
        } else {
            None
        },
        None => None,
    }
}

fn encode_asset(a: &FungibleAsset, out: &mut Vec<u8>)
    requires
        a@ matches AssetView::Erc20(b) ==> b.len() <= u32::MAX,
    ensures
        final(out)@ == old(out)@ + enc_asset(a@),
{
    match a {
        FungibleAsset::Eth => {
            out.push(0u8);
        },
        FungibleAsset::Erc20(addr) => {
            out.push(1u8);
            put_bytes(out, addr.0.as_slice());
        },
    }
    assert(final(out)@ =~= old(out)@ + enc_asset(a@));
}

fn decode_asset(s: &[u8], p: usize) -> (r: Option<(FungibleAsset, usize)>)
    ensures
        r matches Some((a, q)) ==> parse_asset(s@, p as int) == Some((a@, q as int)),
        r is None ==> parse_asset(s@, p as int) is None,
{
    let (tag, q) = get_u8(s, p)?;
    if tag == 0 {
        Some((FungibleAsset::Eth, q))
    } else if tag == 1 {
        let (b, r) = get_bytes(s, q)?;
        Some((FungibleAsset::Erc20(ethereum::Address(b)), r))
    } else {
        None
    }
}

/// Appends the wire form of a transfer.
pub fn encode_transfer(t: &TransferFromEthereum, out: &mut Vec<u8>)
    requires
        transfer_wf(t@),
    ensures
        final(out)@ == old(out)@ + enc_transfer(t@),
{
    encode_asset(&t.asset, out);
    encode_address(&t.receiver, out);
    put_u64(out, t.amount.micro);
    out.push(t.min_confirmations);
    put_u64(out, t.seen);
    put_u64(out, t.latest_descendant.height);
    put_raw(out, t.latest_descendant.hash.0.as_slice());
    assert(final(out)@ =~= old(out)@ + enc_transfer(t@));
}

/// Reads a transfer at position `p`.
pub fn decode_transfer(s: &[u8], p: usize) -> (r: Option<(TransferFromEthereum, usize)>)
    ensures
        r matches Some((t, q)) ==> parse_transfer(s@, p as int) == Some((t@, q as int)),
        r is None ==> parse_transfer(s@, p as int) is None,
{
    proof {
        reveal(parse_transfer);
    }
    let (asset, p1) = decode_asset(s, p)?;
    let (receiver, p2) = decode_address(s, p1)?;
    let (amount, p3) = get_u64(s, p2)?;
    let (min_confirmations, p4) = get_u8(s, p3)?;
    let (seen, p5) = get_u64(s, p4)?;
    let (height, p6) = get_u64(s, p5)?;
    let (hash, p7) = get_fixed(s, p6, 32)?;
    let t = TransferFromEthereum {
        asset,
        receiver,
        amount: Amount { micro: amount },
        min_confirmations,
        seen,
        latest_descendant: ethereum::Block { height, hash: ethereum::Hash(hash) },
    };
    Some((t, p7))
}

/// Appends the wire form of a sequence of transfers: the count, then each.
pub fn encode_queue(v: &Vec<TransferFromEthereum>, out: &mut Vec<u8>)
    requires
        queue_wf(transfers_view(v@)),
    ensures
        final(out)@ == old(out)@ + enc_queue(transfers_view(v@)),
{
    let ghost start = out@;
    put_u32(out, v.len() as u32);
    let mut i: usize = 0;
    while i < v.len()
        invariant
            i <= v@.len(),
            queue_wf(transfers_view(v@)),
            out@ == start + u32_le(v@.len() as u32) + enc_transfers(
                transfers_view(v@.subrange(0, i as int)),
            ),
        decreases v@.len() - i,
    {
        assert(transfer_wf(transfers_view(v@)[i as int]));
        encode_transfer(&v[i], out);
        proof {
            let w = transfers_view(v@.subrange(0, i + 1));
            assert(w.drop_last() =~= transfers_view(v@.subrange(0, i as int)));
            assert(w.last() == v@[i as int]@);
        }
        i = i + 1;
    }
    assert(v@.subrange(0, v@.len() as int) =~= v@);
}

/// Reads a count and that many transfers at position `p`.
pub fn decode_queue(s: &[u8], p: usize) -> (r: Option<(Vec<TransferFromEthereum>, usize)>)
    ensures
        r matches Some((v, q)) ==> parse_queue(s@, p as int) == Some(
            (transfers_view(v@), q as int),
        ),
        r is None ==> parse_queue(s@, p as int) is None,
{
    let (n, q) = get_u32(s, p)?;
    let mut items: Vec<TransferFromEthereum> = Vec::new();
    let mut pos: usize = q;
    let mut i: u32 = 0;
    assert(transfers_view(items@) =~= Seq::<TransferView>::empty());
    while i < n
        invariant
            i <= n,
            parse_u32(s@, p as int) == Some((n, q as int)),
            parse_transfers(s@, q as int, i as nat) == Some((transfers_view(items@), pos as int)),
        decreases n - i,
    {
        match decode_transfer(s, pos) {
            Some((t, next)) => {
                proof {
                    assert(transfers_view(items@.push(t)) =~= transfers_view(items@).push(t@));
                }
                items.push(t);
                pos = next;
                i = i + 1;
            },
            None => {
                proof {
                    lemma_transfers_fail(s@, q as int, (i + 1) as nat, n as nat);
                }
                return None;
            },
        }
    }
    Some((items, pos))
}

impl TransferFromEthereum {
    /// The wire form of this transfer.
    pub fn to_bytes(&self) -> (r: Vec<u8>)
        requires
            transfer_wf(self@),
        ensures
            r@ == enc_transfer(self@),
    {
        let mut out: Vec<u8> = Vec::new();
        encode_transfer(self, &mut out);
        assert(out@ =~= enc_transfer(self@));
        out
    }

    /// Decodes a transfer that takes up all of `s`.
    pub fn from_bytes(s: &[u8]) -> (r: Option<TransferFromEthereum>)
        ensures
            r matches Some(t) ==> transfer_of_bytes(s@) == Some(t@),
            r is None ==> transfer_of_bytes(s@) is None,
    {
        let (t, q) = decode_transfer(s, 0)?;
        if q == s.len() {
            Some(t)
        } else {
            None
        }
    }
}

impl UpdateQueue {
    /// The wire form of this batch.
    pub fn to_bytes(&self) -> (r: Vec<u8>)
        requires
            queue_wf(self@),
        ensures
            r@ == enc_queue(self@),
    {
        let mut out: Vec<u8> = Vec::new();
        encode_queue(&self.enqueue, &mut out);
        assert(out@ =~= enc_queue(self@));
        out
    }

    /// Decodes a batch that takes up all of `s`.
    pub fn from_bytes(s: &[u8]) -> (r: Option<UpdateQueue>)
        ensures
            r matches Some(u) ==> queue_of_bytes(s@) == Some(u@),
            r is None ==> queue_of_bytes(s@) is None,
    {
        let (enqueue, q) = decode_queue(s, 0)?;
        if q == s.len() {
            Some(UpdateQueue { enqueue })
        } else {
            None
        }
    }
}

} // verus!
