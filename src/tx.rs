//! Transaction side of the bridge: decode a signed batch of transfers and
//! append it to the queue, creating the queue on first use.
use vstd::prelude::*;

use crate::codec::parse_u32;
use crate::data::{self, to_signed, to_signed_spec};
use crate::transfer::{
    decode_queue, enc_queue, encode_queue, lemma_transfers_sound, queue_of_bytes,
    transfer_wf, transfers_view, TransferFromEthereum, TransferView, UpdateQueue,
};

verus! {

/// Why the queue update halts the transaction.
#[derive(Clone, Copy, Debug, PartialEq, Eq, Structural)]
pub enum TxError {
    /// `tx_data` is not a signed envelope with a payload
    Envelope(data::Error),
    /// The payload is not an encoded batch of transfers
    Payload,
    /// The stored queue is missing or does not decode
    CorruptQueue,
    /// The queue would hold more transfers than its count can say
    QueueTooLong,
}

/// Every transfer can be put on the wire.
pub open spec fn all_wf(v: Seq<TransferView>) -> bool {
    forall|i: int| 0 <= i < v.len() ==> transfer_wf(#[trigger] v[i])
}

/// The stored queue after the initialization step: an existing value is
/// kept, a missing one becomes the empty queue.
pub open spec fn queue_after_init(stored: Option<Seq<u8>>) -> Option<Seq<u8>> {
    match stored {
        Some(b) => Some(b),
        None => Some(enc_queue(Seq::empty())),
    }
}

/// The stored queue after `new` is appended to the one stored.
pub open spec fn update_queue_spec(stored: Option<Seq<u8>>, new: Seq<TransferView>) -> Result<
    Seq<u8>,
    TxError,
> {
    match stored {
        None => Err(TxError::CorruptQueue),
        Some(b) => match queue_of_bytes(b) {
            None => Err(TxError::CorruptQueue),
            Some(q) => if q.len() + new.len() > u32::MAX {
                Err(TxError::QueueTooLong)
            } else {
                Ok(enc_queue(q + new))
            },
        },
    }
}

/// The batch that `tx_data` carries.
pub open spec fn deserialize_spec(tx_data: Seq<u8>) -> Result<Seq<TransferView>, TxError> {
    match to_signed_spec(tx_data) {
        Err(e) => Err(TxError::Envelope(e)),
        Ok((payload, _)) => match queue_of_bytes(payload) {
            None => Err(TxError::Payload),
            Some(v) => Ok(v),
        },
    }
}

/// The stored queue after the whole transaction.
pub open spec fn apply_spec(tx_data: Seq<u8>, stored: Option<Seq<u8>>) -> Result<Seq<u8>, TxError> {
    match deserialize_spec(tx_data) {
        Err(e) => Err(e),
        Ok(v) => update_queue_spec(queue_after_init(stored), v),
    }
}

pub open spec fn stored_view(stored: Option<Vec<u8>>) -> Option<Seq<u8>> {
    match stored {
        Some(v) => Some(v@),
        None => None,
    }
}

/// A decoded queue can be put on the wire again.
pub proof fn lemma_decoded_wf(s: Seq<u8>)
    ensures
        queue_of_bytes(s) matches Some(v) ==> all_wf(v) && v.len() <= u32::MAX,
{
    if let Some((n, q)) = parse_u32(s, 0) {
        lemma_transfers_sound(s, q, n as nat);
    }
}

/// Ensures the queue is initialized: the value to write where the queue key
/// is absent, nothing where it is present.
pub fn ensure_queue_initialized(present: bool) -> (r: Option<Vec<u8>>)
    ensures
        present ==> r is None,
        !present ==> (r matches Some(b) && b@ == enc_queue(Seq::empty())),
{
    if present {
        return None;
    }
    let empty: Vec<TransferFromEthereum> = Vec::new();
    let mut out: Vec<u8> = Vec::new();
    assert(transfers_view(empty@) =~= Seq::<TransferView>::empty());
    encode_queue(&empty, &mut out);
    assert(out@ =~= enc_queue(Seq::empty()));
    Some(out)
}

/// Updates minimum confirmations of queued transfers. Does nothing yet and
/// touches no key.
pub fn update_min_confirmations() -> (r: Result<(), TxError>)
    ensures
        r is Ok,
{
    Ok(())
}

/// Dequeues matured transfers and mints them. Does nothing yet and touches
/// no key.
pub fn dequeue_and_mint() -> (r: Result<(), TxError>)
    ensures
        r is Ok,
{
    Ok(())
}

/// Appends `enqueue` to `queue`, in order, and encodes the result.
pub fn enqueue_new_transfers(queue: Vec<TransferFromEthereum>, enqueue: Vec<TransferFromEthereum>) -> (r:
    Result<Vec<u8>, TxError>)
    requires
        all_wf(transfers_view(queue@)),
        all_wf(transfers_view(enqueue@)),
    ensures
        queue@.len() + enqueue@.len() > u32::MAX ==> r == Err::<Vec<u8>, TxError>(
            TxError::QueueTooLong,
        ),
        queue@.len() + enqueue@.len() <= u32::MAX ==> (r matches Ok(b) && b@ == enc_queue(
            transfers_view(queue@) + transfers_view(enqueue@),
        )),
{
    if queue.len() > u32::MAX as usize || enqueue.len() > u32::MAX as usize - queue.len() {
        return Err(TxError::QueueTooLong);
    }
    let mut queue = queue;
    let mut enqueue = enqueue;
    let ghost first = queue@;
    let ghost second = enqueue@;
    queue.append(&mut enqueue);
    assert(transfers_view(queue@) =~= transfers_view(first) + transfers_view(second));
    let ghost all = transfers_view(queue@);
    assert forall|j: int| 0 <= j < all.len() implies transfer_wf(#[trigger] all[j]) by {
        if j < first.len() {
            assert(all[j] == transfers_view(first)[j]);
        } else {
            assert(all[j] == transfers_view(second)[j - first.len()]);
        }
    }
    let mut out: Vec<u8> = Vec::new();
    encode_queue(&queue, &mut out);
    assert(out@ =~= enc_queue(all));
    Ok(out)
}

/// Appends the batch to the stored queue, after the confirmation and
/// minting steps, and gives the queue's new stored value.
pub fn update_queue(stored: &Option<Vec<u8>>, update: UpdateQueue) -> (r: Result<Vec<u8>, TxError>)
    requires
        all_wf(update@),
    ensures
        r matches Ok(b) ==> update_queue_spec(stored_view(*stored), update@) == Ok::<
            Seq<u8>,
            TxError,
        >(b@),
        r matches Err(e) ==> update_queue_spec(stored_view(*stored), update@) == Err::<
            Seq<u8>,
            TxError,
        >(e),
{
    let bytes = match stored {
        Some(b) => b,
        None => {
            return Err(TxError::CorruptQueue);
        },
    };
    let queue = match decode_queue(bytes.as_slice(), 0) {
        Some((q, end)) => {
            if end != bytes.len() {
                return Err(TxError::CorruptQueue);
            }
            q
        },
        None => {
            return Err(TxError::CorruptQueue);
        },
    };
    proof {
        lemma_decoded_wf(bytes@);
    }
    update_min_confirmations()?;
    dequeue_and_mint()?;
    enqueue_new_transfers(queue, update.enqueue)
}

/// Reads the batch of transfers out of a signed envelope. The signature is
/// not checked here: the validity predicate does that.
pub fn deserialize(data: &[u8]) -> (r: Result<UpdateQueue, TxError>)
    ensures
        r matches Ok(u) ==> deserialize_spec(data@) == Ok::<Seq<TransferView>, TxError>(u@)
            && all_wf(u@),
        r matches Err(e) ==> deserialize_spec(data@) == Err::<Seq<TransferView>, TxError>(e),
{
    let signed = match to_signed(data) {
        Ok(s) => s,
        Err(e) => {
            return Err(TxError::Envelope(e));
        },
    };
    match UpdateQueue::from_bytes(signed.data.as_slice()) {
        Some(u) => {
            proof {
                lemma_decoded_wf(signed.data@);
            }
            Ok(u)
        },
        None => Err(TxError::Payload),
    }
}

/// Decodes the batch in `tx_data` and appends it to the stored queue.
pub fn apply_tx_aux(tx_data: &[u8], stored: &Option<Vec<u8>>) -> (r: Result<Vec<u8>, TxError>)
    ensures
        r matches Ok(b) ==> deserialize_spec(tx_data@) matches Ok(v) && update_queue_spec(
            stored_view(*stored),
            v,
        ) == Ok::<Seq<u8>, TxError>(b@),
        r matches Err(e) ==> match deserialize_spec(tx_data@) {
            Err(d) => d == e,
            Ok(v) => update_queue_spec(stored_view(*stored), v) == Err::<Seq<u8>, TxError>(e),
        },
{
    let update = deserialize(tx_data)?;
    update_queue(stored, update)
}

/// The whole queue-update transaction: initialize the queue where it is
/// absent, then append the signed batch. Gives the queue's new stored
/// value; an error halts the transaction.
pub fn apply_tx(tx_data: &[u8], stored: Option<Vec<u8>>) -> (r: Result<Vec<u8>, TxError>)
    ensures
        r matches Ok(b) ==> apply_spec(tx_data@, stored_view(stored)) == Ok::<Seq<u8>, TxError>(
            b@,
        ),
        r matches Err(e) ==> apply_spec(tx_data@, stored_view(stored)) == Err::<Seq<u8>, TxError>(
            e,
        ),
{
    let stored = match ensure_queue_initialized(stored.is_some()) {
        Some(init) => Some(init),
        None => stored,
    };
    apply_tx_aux(tx_data, &stored)
}

} // verus!
