//! Laws that relate the functions of the crate to one another.
use vstd::prelude::*;

use crate::address::{Address, InternalAddress};
use crate::codec::{holds_at, lemma_u32};
use crate::data::{enc_signed, lemma_signed, parse_signed, signed_of_bytes, to_signed_spec, Error as DataError};
use crate::storage::Key;
use crate::token::{
    balance_read, is_burn, is_mint, key_outcome, key_outcomes, pre_balance, post_balance, settle, stored_amount,
    transfer_result, KeyOutcome, KeyReads, VpError,
};
use crate::transfer::{
    enc_queue, enc_transfer, lemma_transfer, lemma_transfers_complete, lemma_transfers_sound, parse_queue,
    parse_transfer, queue_of_bytes, queue_wf, transfer_of_bytes, transfer_wf, TransferView,
};
use crate::tx::{queue_after_init, update_queue_spec};
use crate::storage::balance_owner;
use crate::vp::{keys_changed_ok, set_for_epoch, signed_by, validate_spec, Ctx};

verus! {

/// The bridge predicate's key check: for a set of changed keys (no key
/// twice), it passes exactly when the set is the queue key alone, and every
/// other set is rejected before anything else is looked at.
pub proof fn lemma_key_set_gating(ctx: Ctx, tx_data: Seq<u8>, keys: Seq<Key>)
    requires
        keys.no_duplicates(),
    ensures
        keys_changed_ok(keys) <==> keys.to_set() == set![Key::BridgeQueue],
        keys.to_set() != set![Key::BridgeQueue] ==> validate_spec(ctx, tx_data, keys) == Ok::<
            bool,
            crate::vp::Error,
        >(false),
{
    if keys_changed_ok(keys) {
        assert(keys.to_set() =~= set![Key::BridgeQueue]) by {
            assert forall|k: Key| keys.to_set().contains(k) implies k == Key::BridgeQueue by {
                assert(keys.contains(k));
            }
            assert(keys.contains(keys[0]));
        }
    }
    if keys.to_set() == set![Key::BridgeQueue] {
        assert(set![Key::BridgeQueue].contains(Key::BridgeQueue));
        assert(keys.contains(Key::BridgeQueue));
        let i = choose|i: int| 0 <= i < keys.len() && keys[i] == Key::BridgeQueue;
        if keys.len() != 1 {
            let j = if i == 0 { 1int } else { 0int };
            assert(keys.to_set().contains(keys[j]));
            assert(keys[j] == Key::BridgeQueue);
        }
        assert(keys[0] == Key::BridgeQueue);
    }
}

/// An envelope whose payload is empty is refused, whatever its signature,
/// and the bridge predicate rejects the transaction that carries it.
pub proof fn lemma_empty_payload_rejected(ctx: Ctx, sig: Seq<u8>, keys: Seq<Key>)
    requires
        sig.len() <= u32::MAX,
    ensures
        to_signed_spec(enc_signed(Seq::empty(), sig)) == Err::<(Seq<u8>, Seq<u8>), DataError>(
            DataError::EmptyData,
        ),
        validate_spec(ctx, enc_signed(Seq::empty(), sig), keys) == Ok::<bool, crate::vp::Error>(
            false,
        ),
{
    lemma_signed_round_trip(Seq::empty(), sig);
}

/// The sum of the changes in a run of outcomes.
pub open spec fn total_change(os: Seq<KeyOutcome>) -> int
    decreases os.len(),
{
    if os.len() == 0 {
        0
    } else {
        match os[0] {
            KeyOutcome::Change(c) => c + total_change(os.drop_first()),
            _ => 0,
        }
    }
}

/// Every changed key is a balance key of the token, every balance read
/// decodes, and every fall in an ordinary balance has its owner's consent.
pub open spec fn all_changes(os: Seq<KeyOutcome>) -> bool {
    forall|i: int| 0 <= i < os.len() ==> (#[trigger] os[i]) is Change
}

proof fn lemma_settle_changes(os: Seq<KeyOutcome>, acc: int, k: int)
    requires
        all_changes(os),
        forall|i: int|
            0 <= i < os.len() ==> -(u64::MAX as int) <= (#[trigger] os[i])->Change_0 <= u64::MAX,
        0 <= k,
        -k * (u64::MAX as int) <= acc <= k * (u64::MAX as int),
        k + os.len() <= 0x8000_0000_0000_0000,
    ensures
        settle(os, acc) == Ok::<bool, VpError>(acc + total_change(os) == 0),
    decreases os.len(),
{
    if os.len() > 0 {
        let c = os[0]->Change_0;
        assert(os[0] is Change);
        let m = u64::MAX as int;
        assert(-(k + 1) * m <= acc + c <= (k + 1) * m) by (nonlinear_arith)
            requires
                -k * m <= acc <= k * m,
                -m <= c <= m,
        ;
        assert((k + 1) * m <= 0x8000_0000_0000_0000 * m) by (nonlinear_arith)
            requires
                k + 1 <= 0x8000_0000_0000_0000,
                m >= 0,
        ;
        assert(0x8000_0000_0000_0000 * m <= i128::MAX);
        let rest = os.drop_first();
        assert forall|i: int| 0 <= i < rest.len() implies (#[trigger] rest[i]) is Change && -m
            <= rest[i]->Change_0 <= m by {
            assert(rest[i] == os[i + 1]);
        }
        lemma_settle_changes(rest, acc + c, k + 1);
    }
}

/// The token predicate conserves balances: where every changed key is a
/// balance of the token that decodes and every ordinary debit is consented
/// to, it accepts exactly when the changes sum to zero. Key sets fit in
/// memory, so there are fewer than 2^63 of them.
pub proof fn lemma_balance_conservation(
    token: Address,
    keys: Seq<Key>,
    reads: Seq<KeyReads>,
    verifiers: Seq<Address>,
)
    requires
        reads.len() == keys.len(),
        keys.len() <= 0x8000_0000_0000_0000,
        all_changes(key_outcomes(token, keys, reads, verifiers)),
    ensures
        settle(key_outcomes(token, keys, reads, verifiers), 0) == Ok::<bool, VpError>(
            total_change(key_outcomes(token, keys, reads, verifiers)) == 0,
        ),
{
    let os = key_outcomes(token, keys, reads, verifiers);
    assert forall|i: int| 0 <= i < os.len() implies -(u64::MAX as int) <= (
    #[trigger] os[i])->Change_0 <= u64::MAX by {
        assert(os[i] is Change);
    }
    lemma_settle_changes(os, 0, 0);
}

/// Minting needs no consent: crediting an ordinary account by `x` while the
/// mint address's temporary balance falls by `x` from the largest amount is
/// accepted, whoever the verifiers are.
pub proof fn lemma_mint_exemption(
    token: Address,
    owner: Address,
    x: u64,
    balance: u64,
    mint_reads: KeyReads,
    owner_reads: KeyReads,
    verifiers: Seq<Address>,
)
    requires
        !is_mint(owner),
        !is_burn(owner),
        balance_read(mint_reads.temp) == Some(u64::MAX - x),
        balance_read(owner_reads.pre) == Some(balance as int),
        balance_read(owner_reads.post) == Some(balance + x),
    ensures
        settle(
            key_outcomes(
                token,
                seq![
                    Key::Balance { token, owner: Address::Internal(InternalAddress::Mint) },
                    Key::Balance { token, owner },
                ],
                seq![mint_reads, owner_reads],
                verifiers,
            ),
            0,
        ) == Ok::<bool, VpError>(true),
{
    let os = key_outcomes(
        token,
        seq![
            Key::Balance { token, owner: Address::Internal(InternalAddress::Mint) },
            Key::Balance { token, owner },
        ],
        seq![mint_reads, owner_reads],
        verifiers,
    );
    assert(os[0] == KeyOutcome::Change(-(x as int)));
    assert(os[1] == KeyOutcome::Change(x as int));
    let rest = os.drop_first();
    assert(rest[0] == os[1]);
    assert(rest.drop_first().len() == 0);
    assert(settle(rest.drop_first(), 0) == Ok::<bool, VpError>(true));
    assert(settle(rest, -(x as int)) == Ok::<bool, VpError>(true));
}

/// A run of outcomes that holds a rejection before any fault is rejected.
pub proof fn lemma_rejection_decides(os: Seq<KeyOutcome>, acc: int, r: int)
    requires
        0 <= r < os.len(),
        os[r] is Reject,
        forall|i: int| 0 <= i < r ==> (#[trigger] os[i]) is Change,
    ensures
        settle(os, acc) == Ok::<bool, VpError>(false),
    decreases os.len(),
{
    if r > 0 {
        assert(os[0] is Change);
        let rest = os.drop_first();
        assert forall|i: int| 0 <= i < r - 1 implies (#[trigger] rest[i]) is Change by {
            assert(rest[i] == os[i + 1]);
        }
        assert(rest[r - 1] == os[r]);
        lemma_rejection_decides(rest, acc + os[0]->Change_0, r - 1);
    }
}

/// The initialization step is idempotent: a stored queue is never
/// overwritten, and a second step changes nothing.
pub proof fn lemma_init_idempotent(stored: Option<Seq<u8>>)
    ensures
        queue_after_init(queue_after_init(stored)) == queue_after_init(stored),
        stored is Some ==> queue_after_init(stored) == stored,
{
}

/// Appending an empty batch to a stored queue leaves its bytes, and so its
/// transfers and their order, as they were.
pub proof fn lemma_empty_update_keeps_queue(b: Seq<u8>)
    requires
        queue_of_bytes(b) is Some,
    ensures
        update_queue_spec(Some(b), Seq::empty()) == Ok::<Seq<u8>, crate::tx::TxError>(b),
{
    let q = queue_of_bytes(b)->Some_0;
    lemma_queue_sound(b);
    assert(q + Seq::<TransferView>::empty() =~= q);
}

/// Decoding the encoding of a transfer gives the transfer back, and no
/// proper prefix of the encoding decodes.
pub proof fn lemma_transfer_round_trip(t: TransferView)
    requires
        transfer_wf(t),
    ensures
        transfer_of_bytes(enc_transfer(t)) == Some(t),
        forall|k: int|
            0 <= k < enc_transfer(t).len() ==> transfer_of_bytes(
                #[trigger] enc_transfer(t).subrange(0, k),
            ) is None,
{
    let e = enc_transfer(t);
    assert(e.subrange(0, e.len() as int) =~= e);
    lemma_transfer(e, 0, t);
    assert forall|k: int| 0 <= k < e.len() implies transfer_of_bytes(
        #[trigger] e.subrange(0, k),
    ) is None by {
        lemma_transfer_prefix(t, k);
    }
}

proof fn lemma_transfer_prefix(t: TransferView, k: int)
    requires
        transfer_wf(t),
        0 <= k < enc_transfer(t).len(),
    ensures
        transfer_of_bytes(enc_transfer(t).subrange(0, k)) is None,
{
    let e = enc_transfer(t);
    let s = e.subrange(0, k);
    assert(e.subrange(0, e.len() as int) =~= e);
    lemma_transfer(e, 0, t);
    if let Some((u, q)) = parse_transfer(s, 0) {
        lemma_transfer(s, 0, u);
        if q == s.len() {
            assert(e.subrange(0, q) =~= s.subrange(0, q));
            lemma_transfer(e, 0, u);
        }
    }
}

/// Decoding the encoding of a batch gives the batch back, and no proper
/// prefix of the encoding decodes.
pub proof fn lemma_queue_round_trip(v: Seq<TransferView>)
    requires
        queue_wf(v),
    ensures
        queue_of_bytes(enc_queue(v)) == Some(v),
        forall|k: int|
            0 <= k < enc_queue(v).len() ==> queue_of_bytes(#[trigger] enc_queue(v).subrange(0, k))
                is None,
{
    let e = enc_queue(v);
    lemma_queue_parse(e, v);
    assert forall|k: int| 0 <= k < e.len() implies queue_of_bytes(#[trigger] e.subrange(0, k))
        is None by {
        let s = e.subrange(0, k);
        if let Some((u, q)) = parse_queue(s, 0) {
            if q == s.len() {
                lemma_queue_sound(s);
                assert(s == enc_queue(u));
                assert(s.subrange(0, s.len() as int) =~= s);
                lemma_queue_prefix(e, s, u);
            }
        }
    }
}

proof fn lemma_queue_parse(e: Seq<u8>, v: Seq<TransferView>)
    requires
        queue_wf(v),
        e == enc_queue(v),
    ensures
        parse_queue(e, 0) == Some((v, e.len() as int)),
{
    let h = crate::codec::u32_le(v.len() as u32);
    let body = crate::transfer::enc_transfers(v);
    assert(e.subrange(0, e.len() as int) =~= e);
    crate::codec::lemma_holds_split(e, 0, h, body);
    lemma_u32(e, 0, v.len() as u32);
    lemma_transfers_complete(e, 4, v);
}

proof fn lemma_queue_sound(s: Seq<u8>)
    requires
        queue_of_bytes(s) is Some,
    ensures
        s == enc_queue(queue_of_bytes(s)->Some_0),
        queue_wf(queue_of_bytes(s)->Some_0),
{
    let q = queue_of_bytes(s)->Some_0;
    let (n, p) = crate::codec::parse_u32(s, 0)->Some_0;
    assert(parse_queue(s, 0) == crate::transfer::parse_transfers(s, p, n as nat));
    lemma_u32(s, 0, n);
    lemma_transfers_sound(s, p, n as nat);
    assert(q.len() == n);
    assert(crate::codec::u32_le(n) == crate::codec::u32_le(q.len() as u32));
    crate::codec::lemma_holds_join(s, 0, crate::codec::u32_le(n), crate::transfer::enc_transfers(q));
    assert(s.subrange(0, s.len() as int) =~= s);
}

proof fn lemma_queue_prefix(e: Seq<u8>, s: Seq<u8>, u: Seq<TransferView>)
    requires
        s.len() < e.len(),
        s == e.subrange(0, s.len() as int),
        s == enc_queue(u),
        queue_wf(u),
    ensures
        parse_queue(e, 0) == Some((u, s.len() as int)),
{
    let h = crate::codec::u32_le(u.len() as u32);
    let body = crate::transfer::enc_transfers(u);
    assert(holds_at(e, 0, h + body));
    crate::codec::lemma_holds_split(e, 0, h, body);
    lemma_u32(e, 0, u.len() as u32);
    lemma_transfers_complete(e, 4, u);
}

/// Decoding the encoding of an envelope gives its payload and signature
/// back, and no proper prefix of the encoding decodes.
pub proof fn lemma_signed_round_trip(data: Seq<u8>, sig: Seq<u8>)
    requires
        data.len() <= u32::MAX,
        sig.len() <= u32::MAX,
    ensures
        signed_of_bytes(enc_signed(data, sig)) == Some((data, sig)),
        forall|k: int|
            0 <= k < enc_signed(data, sig).len() ==> signed_of_bytes(
                #[trigger] enc_signed(data, sig).subrange(0, k),
            ) is None,
{
    let e = enc_signed(data, sig);
    assert(e.subrange(0, e.len() as int) =~= e);
    lemma_signed(e, 0, data, sig);
    assert forall|k: int| 0 <= k < e.len() implies signed_of_bytes(#[trigger] e.subrange(0, k))
        is None by {
        let s = e.subrange(0, k);
        if let Some((g, q)) = parse_signed(s, 0) {
            lemma_signed(s, 0, g.0, g.1);
            if q == s.len() {
                assert(e.subrange(0, q) =~= s.subrange(0, q));
                lemma_signed(e, 0, g.0, g.1);
            }
        }
    }
}

/// One signature suffices: where only the queue key changed, the envelope
/// has a payload and the epoch's validator set is recorded, a signature that
/// any one active validator's registered key accepts is enough.
pub proof fn lemma_single_signature_suffices(
    ctx: Ctx,
    tx_data: Seq<u8>,
    keys: Seq<Key>,
    data: Seq<u8>,
    sig: Seq<u8>,
    epoch: u64,
    i: int,
)
    requires
        keys_changed_ok(keys),
        to_signed_spec(tx_data) == Ok::<(Seq<u8>, Seq<u8>), DataError>((data, sig)),
        ctx.epoch == Some(epoch),
        set_for_epoch(ctx.validator_sets@, epoch, 0) is Some,
        0 <= i < set_for_epoch(ctx.validator_sets@, epoch, 0)->Some_0.active@.len(),
        signed_by(ctx, set_for_epoch(ctx.validator_sets@, epoch, 0)->Some_0.active@[i].address, data, sig),
    ensures
        validate_spec(ctx, tx_data, keys) == Ok::<bool, crate::vp::Error>(true),
{
    let set = set_for_epoch(ctx.validator_sets@, epoch, 0)->Some_0;
    assert(to_signed_spec(tx_data) is Ok);
    assert(to_signed_spec(tx_data)->Ok_0 == (data, sig));
    assert(signed_by(ctx, set.active@[i].address, data, sig));
}

/// No balance of an ordinary account falls without its owner's consent:
/// where the keys before it all count, a debit of an account that is not
/// among the verifiers rejects the transaction.
pub proof fn lemma_unconsented_debit_rejected(
    token: Address,
    keys: Seq<Key>,
    reads: Seq<KeyReads>,
    verifiers: Seq<Address>,
    r: int,
)
    requires
        reads.len() == keys.len(),
        0 <= r < keys.len(),
        forall|i: int| 0 <= i < r ==> (#[trigger] key_outcomes(token, keys, reads, verifiers)[i]) is Change,
        balance_owner(token, keys[r]) matches Some(o) && !is_mint(o) && !is_burn(o) && !verifiers.contains(o)
            && (pre_balance(o, reads[r]) matches Some(pre) && post_balance(o, reads[r]) matches Some(post)
            && post < pre),
    ensures
        settle(key_outcomes(token, keys, reads, verifiers), 0) == Ok::<bool, VpError>(false),
{
    let os = key_outcomes(token, keys, reads, verifiers);
    assert(os[r] == key_outcome(token, keys[r], reads[r], verifiers));
    lemma_rejection_decides(os, 0, r);
}

/// A transfer to oneself leaves the balance as it was: both writes go to
/// the same key, and the last one holds the stored amount.
pub proof fn lemma_self_transfer_keeps_balance(
    a: Address,
    token: Address,
    amount: u64,
    stored: Option<Vec<u8>>,
)
    requires
        transfer_result(a, a, token, amount, stored, stored) is Ok,
    ensures
        transfer_result(a, a, token, amount, stored, stored) matches Ok(w) && w.source.key
            == w.target.key && stored_amount(stored) == Some(w.target.amount.micro),
{
}

} // verus!
