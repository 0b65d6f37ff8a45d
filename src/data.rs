//! The signed envelope, shared by the transaction side and the validity
//! predicate side.
use vstd::prelude::*;

use crate::codec::{enc_bytes, get_bytes, holds_at, lemma_bytes, lemma_holds_join, lemma_holds_split, parse_bytes, put_bytes};

verus! {

/// A payload together with a signature over exactly its bytes. The
/// signature is not checked here: whoever holds the trusted key does that.
#[derive(Clone, Debug, PartialEq)]
pub struct SignedEnvelope {
    /// The signed payload
    pub data: Vec<u8>,
    /// The signature over `data`
    pub sig: Vec<u8>,
}

/// Why bytes are not a usable signed envelope.
#[derive(Clone, Copy, Debug, PartialEq, Eq, Structural)]
pub enum Error {
    /// The bytes are not the wire form of an envelope
    Deserialization,
    /// The envelope's payload is empty
    EmptyData,
}

#[allow(missing_docs)]
pub type Result<T> = core::result::Result<T, Error>;

/// Wire form of an envelope: the payload, then the signature, each with its
/// length in front.
pub open spec fn enc_signed(data: Seq<u8>, sig: Seq<u8>) -> Seq<u8> {
    enc_bytes(data) + enc_bytes(sig)
}

pub open spec fn parse_signed(s: Seq<u8>, p: int) -> Option<((Seq<u8>, Seq<u8>), int)> {
    match parse_bytes(s, p) {
        Some((data, q)) => match parse_bytes(s, q) {
            Some((sig, r)) => Some(((data, sig), r)),
            None => None,
        },
        None => None,
    }
}

/// The payload and signature that `s` encodes, where it encodes an envelope
/// and nothing more.
pub open spec fn signed_of_bytes(s: Seq<u8>) -> Option<(Seq<u8>, Seq<u8>)> {
    match parse_signed(s, 0) {
        Some((e, q)) => if q == s.len() {
            Some(e)
        } else {
            None
        },
        None => None,
    }
}

/// What `to_signed` makes of `s`: payload and signature, or the error.
pub open spec fn to_signed_spec(s: Seq<u8>) -> core::result::Result<(Seq<u8>, Seq<u8>), Error> {
    match signed_of_bytes(s) {
        None => Err(Error::Deserialization),
        Some((data, sig)) => if data.len() == 0 {
            Err(Error::EmptyData)
        } else {
            Ok((data, sig))
        },
    }
}

pub proof fn lemma_signed(s: Seq<u8>, p: int, data: Seq<u8>, sig: Seq<u8>)
    ensures
        holds_at(s, p, enc_signed(data, sig)) && data.len() <= u32::MAX && sig.len() <= u32::MAX
            ==> parse_signed(s, p) == Some(((data, sig), p + enc_signed(data, sig).len())),
        parse_signed(s, p) matches Some((e, q)) ==> q == p + enc_signed(e.0, e.1).len()
            && holds_at(s, p, enc_signed(e.0, e.1)) && e.0.len() <= u32::MAX && e.1.len()
            <= u32::MAX,
{
    if holds_at(s, p, enc_signed(data, sig)) && data.len() <= u32::MAX && sig.len() <= u32::MAX {
        lemma_holds_split(s, p, enc_bytes(data), enc_bytes(sig));
        lemma_bytes(s, p, data);
        lemma_bytes(s, p + enc_bytes(data).len(), sig);
    }
    lemma_bytes(s, p, data);
    if let Some((d, q)) = parse_bytes(s, p) {
        lemma_bytes(s, q, sig);
        if let Some((g, r)) = parse_bytes(s, q) {
            lemma_holds_join(s, p, enc_bytes(d), enc_bytes(g));
        }
    }
}

impl SignedEnvelope {
    /// The wire form of this envelope.
    pub fn to_bytes(&self) -> (r: Vec<u8>)
        requires
            self.data@.len() <= u32::MAX,
            self.sig@.len() <= u32::MAX,
        ensures
            r@ == enc_signed(self.data@, self.sig@),
    {
        let mut out: Vec<u8> = Vec::new();
        put_bytes(&mut out, self.data.as_slice());
        put_bytes(&mut out, self.sig.as_slice());
        assert(out@ =~= enc_signed(self.data@, self.sig@));
        out
    }
}

/// Decodes a signed envelope, refusing one whose payload is empty.
pub fn to_signed(data: &[u8]) -> (r: Result<SignedEnvelope>)
    ensures
        r matches Ok(e) ==> to_signed_spec(data@) == Ok::<(Seq<u8>, Seq<u8>), Error>(
            (e.data@, e.sig@),
        ),
        r matches Err(err) ==> to_signed_spec(data@) == Err::<(Seq<u8>, Seq<u8>), Error>(err),
{
    let (payload, q) = match get_bytes(data, 0) {
        Some(x) => x,
        None => {
            return Err(Error::Deserialization);
        },
    };
    let (sig, r) = match get_bytes(data, q) {
        Some(x) => x,
        None => {
            return Err(Error::Deserialization);
        },
    };
    if r != data.len() {
        return Err(Error::Deserialization);
    }
    if payload.len() == 0 {
        return Err(Error::EmptyData);
    }
    Ok(SignedEnvelope { data: payload, sig })
}

} // verus!
