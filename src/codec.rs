//! Compact little-endian binary encoding: the primitives that every wire
//! format of the crate is built from.
use vstd::prelude::*;

verus! {

/// The four little-endian bytes of a `u32`.
pub open spec fn u32_le(x: u32) -> Seq<u8> {
    seq![x as u8, (x >> 8u32) as u8, (x >> 16u32) as u8, (x >> 24u32) as u8]
}

pub open spec fn u32_from(b0: u8, b1: u8, b2: u8, b3: u8) -> u32 {
    (b0 as u32) | ((b1 as u32) << 8u32) | ((b2 as u32) << 16u32) | ((b3 as u32) << 24u32)
}

/// The eight little-endian bytes of a `u64`.
pub open spec fn u64_le(x: u64) -> Seq<u8> {
    seq![
        x as u8,
        (x >> 8u64) as u8,
        (x >> 16u64) as u8,
        (x >> 24u64) as u8,
        (x >> 32u64) as u8,
        (x >> 40u64) as u8,
        (x >> 48u64) as u8,
        (x >> 56u64) as u8,
    ]
}

pub open spec fn u64_from(s: Seq<u8>, p: int) -> u64 {
    (s[p] as u64) | ((s[p + 1] as u64) << 8u64) | ((s[p + 2] as u64) << 16u64) | ((s[p + 3] as u64)
        << 24u64) | ((s[p + 4] as u64) << 32u64) | ((s[p + 5] as u64) << 40u64) | ((s[p + 6] as u64)
        << 48u64) | ((s[p + 7] as u64) << 56u64)
}

/// A length-prefixed byte string: its length as a `u32`, then the bytes.
pub open spec fn enc_bytes(b: Seq<u8>) -> Seq<u8> {
    u32_le(b.len() as u32) + b
}

/// Reads a `u8` at position `p`: the value and the position after it.
pub open spec fn parse_u8(s: Seq<u8>, p: int) -> Option<(u8, int)> {
    if 0 <= p && p + 1 <= s.len() {
        Some((s[p], p + 1))
    } else {
        None
    }
}

pub open spec fn parse_u32(s: Seq<u8>, p: int) -> Option<(u32, int)> {
    if 0 <= p && p + 4 <= s.len() {
        Some((u32_from(s[p], s[p + 1], s[p + 2], s[p + 3]), p + 4))
    } else {
        None
    }
}

pub open spec fn parse_u64(s: Seq<u8>, p: int) -> Option<(u64, int)> {
    if 0 <= p && p + 8 <= s.len() {
        Some((u64_from(s, p), p + 8))
    } else {
        None
    }
}

pub open spec fn parse_bytes(s: Seq<u8>, p: int) -> Option<(Seq<u8>, int)> {
    match parse_u32(s, p) {
        Some((n, q)) => if q + n <= s.len() {
            Some((s.subrange(q, q + n), q + n))
        } else {
            None
        },
        None => None,
    }
}

/// Reads `n` raw bytes at position `p`.
pub open spec fn parse_fixed(s: Seq<u8>, p: int, n: nat) -> Option<(Seq<u8>, int)> {
    if 0 <= p && p + n <= s.len() {
        Some((s.subrange(p, p + n), p + n))
    } else {
        None
    }
}

/// `e` stands in `s` at position `p`.
pub open spec fn holds_at(s: Seq<u8>, p: int, e: Seq<u8>) -> bool {
    &&& 0 <= p
    &&& p + e.len() <= s.len()
    &&& s.subrange(p, p + e.len()) == e
}

/// Where `a + b` stands at `p`, `a` stands at `p` and `b` right after it.
pub proof fn lemma_holds_split(s: Seq<u8>, p: int, a: Seq<u8>, b: Seq<u8>)
    requires
        holds_at(s, p, a + b),
    ensures
        holds_at(s, p, a),
        holds_at(s, p + a.len(), b),
{
    let w = s.subrange(p, p + (a + b).len());
    assert(w == a + b);
    assert(s.subrange(p, p + a.len()) =~= w.subrange(0, a.len() as int));
    assert((a + b).subrange(0, a.len() as int) =~= a);
    assert(s.subrange(p + a.len(), p + a.len() + b.len()) =~= w.subrange(
        a.len() as int,
        w.len() as int,
    ));
    assert((a + b).subrange(a.len() as int, (a + b).len() as int) =~= b);
}

/// Where `a` stands at `p` and `b` right after it, `a + b` stands at `p`.
pub proof fn lemma_holds_join(s: Seq<u8>, p: int, a: Seq<u8>, b: Seq<u8>)
    requires
        holds_at(s, p, a),
        holds_at(s, p + a.len(), b),
    ensures
        holds_at(s, p, a + b),
{
    assert(s.subrange(p, p + a.len() + b.len()) =~= s.subrange(p, p + a.len())
        + s.subrange(p + a.len(), p + a.len() + b.len()));
}

pub proof fn lemma_u8(s: Seq<u8>, p: int, x: u8)
    ensures
        holds_at(s, p, seq![x]) ==> parse_u8(s, p) == Some((x, p + 1)),
        parse_u8(s, p) matches Some((y, q)) ==> q == p + 1 && holds_at(s, p, seq![y]),
{
    if holds_at(s, p, seq![x]) {
        assert(s[p] == s.subrange(p, p + 1)[0]);
    }
    if 0 <= p && p + 1 <= s.len() {
        assert(s.subrange(p, p + 1) =~= seq![s[p]]);
    }
}

pub proof fn lemma_u32(s: Seq<u8>, p: int, x: u32)
    ensures
        holds_at(s, p, u32_le(x)) ==> parse_u32(s, p) == Some((x, p + 4)),
        parse_u32(s, p) matches Some((y, q)) ==> q == p + 4 && holds_at(s, p, u32_le(y)),
{
    if holds_at(s, p, u32_le(x)) {
        let t = s.subrange(p, p + 4);
        assert(s[p] == t[0] && s[p + 1] == t[1] && s[p + 2] == t[2] && s[p + 3] == t[3]);
        assert(u32_from(x as u8, (x >> 8u32) as u8, (x >> 16u32) as u8, (x >> 24u32) as u8) == x)
            by (bit_vector);
    }
    if 0 <= p && p + 4 <= s.len() {
        let (b0, b1, b2, b3) = (s[p], s[p + 1], s[p + 2], s[p + 3]);
        let y = u32_from(b0, b1, b2, b3);
        assert(y as u8 == b0 && (y >> 8u32) as u8 == b1 && (y >> 16u32) as u8 == b2 && (y
            >> 24u32) as u8 == b3) by (bit_vector)
            requires
                y == (b0 as u32) | ((b1 as u32) << 8u32) | ((b2 as u32) << 16u32) | ((b3 as u32)
                    << 24u32),
        ;
        assert(s.subrange(p, p + 4) =~= u32_le(y));
    }
}

pub proof fn lemma_u64(s: Seq<u8>, p: int, x: u64)
    ensures
        holds_at(s, p, u64_le(x)) ==> parse_u64(s, p) == Some((x, p + 8)),
        parse_u64(s, p) matches Some((y, q)) ==> q == p + 8 && holds_at(s, p, u64_le(y)),
{
    if holds_at(s, p, u64_le(x)) {
        let t = s.subrange(p, p + 8);
        assert(s[p] == t[0] && s[p + 1] == t[1] && s[p + 2] == t[2] && s[p + 3] == t[3]);
        assert(s[p + 4] == t[4] && s[p + 5] == t[5] && s[p + 6] == t[6] && s[p + 7] == t[7]);
        assert(((x as u8) as u64) | ((((x >> 8u64) as u8) as u64) << 8u64) | ((((x >> 16u64) as u8)
            as u64) << 16u64) | ((((x >> 24u64) as u8) as u64) << 24u64) | ((((x >> 32u64) as u8)
            as u64) << 32u64) | ((((x >> 40u64) as u8) as u64) << 40u64) | ((((x >> 48u64) as u8)
            as u64) << 48u64) | ((((x >> 56u64) as u8) as u64) << 56u64) == x) by (bit_vector);
    }
    if 0 <= p && p + 8 <= s.len() {
        let (b0, b1, b2, b3) = (s[p], s[p + 1], s[p + 2], s[p + 3]);
        let (b4, b5, b6, b7) = (s[p + 4], s[p + 5], s[p + 6], s[p + 7]);
        let y = u64_from(s, p);
        assert(y as u8 == b0 && (y >> 8u64) as u8 == b1 && (y >> 16u64) as u8 == b2 && (y
            >> 24u64) as u8 == b3 && (y >> 32u64) as u8 == b4 && (y >> 40u64) as u8 == b5 && (y
            >> 48u64) as u8 == b6 && (y >> 56u64) as u8 == b7) by (bit_vector)
            requires
                y == (b0 as u64) | ((b1 as u64) << 8u64) | ((b2 as u64) << 16u64) | ((b3 as u64)
                    << 24u64) | ((b4 as u64) << 32u64) | ((b5 as u64) << 40u64) | ((b6 as u64)
                    << 48u64) | ((b7 as u64) << 56u64),
        ;
        assert(s.subrange(p, p + 8) =~= u64_le(y));
    }
}

pub proof fn lemma_fixed(s: Seq<u8>, p: int, n: nat, b: Seq<u8>)
    ensures
        holds_at(s, p, b) && b.len() == n ==> parse_fixed(s, p, n) == Some((b, p + n)),
        parse_fixed(s, p, n) matches Some((y, q)) ==> q == p + n && y.len() == n && holds_at(
            s,
            p,
            y,
        ),
{
}

pub proof fn lemma_bytes(s: Seq<u8>, p: int, b: Seq<u8>)
    ensures
        holds_at(s, p, enc_bytes(b)) && b.len() <= u32::MAX ==> parse_bytes(s, p) == Some(
            (b, p + enc_bytes(b).len()),
        ),
        parse_bytes(s, p) matches Some((y, q)) ==> y.len() <= u32::MAX && q == p + enc_bytes(
            y,
        ).len() && holds_at(s, p, enc_bytes(y)),
{
    if holds_at(s, p, enc_bytes(b)) && b.len() <= u32::MAX {
        lemma_holds_split(s, p, u32_le(b.len() as u32), b);
        lemma_u32(s, p, b.len() as u32);
    }
    lemma_u32(s, p, 0);
    if let Some((n, q)) = parse_u32(s, p) {
        lemma_u32(s, p, n);
        if q + n <= s.len() {
            let y = s.subrange(q, q + n);
            assert(y.len() == n);
            lemma_holds_join(s, p, u32_le(n), y);
        }
    }
}

/// Appends the little-endian bytes of `x`.
pub fn put_u32(out: &mut Vec<u8>, x: u32)
    ensures
        final(out)@ == old(out)@ + u32_le(x),
{
    out.push(x as u8);
    out.push((x >> 8u32) as u8);
    out.push((x >> 16u32) as u8);
    out.push((x >> 24u32) as u8);
    assert(final(out)@ =~= old(out)@ + u32_le(x));
}

pub fn put_u64(out: &mut Vec<u8>, x: u64)
    ensures
        final(out)@ == old(out)@ + u64_le(x),
{
    out.push(x as u8);
    out.push((x >> 8u64) as u8);
    out.push((x >> 16u64) as u8);
    out.push((x >> 24u64) as u8);
    out.push((x >> 32u64) as u8);
    out.push((x >> 40u64) as u8);
    out.push((x >> 48u64) as u8);
    out.push((x >> 56u64) as u8);
    assert(final(out)@ =~= old(out)@ + u64_le(x));
}

/// Appends `b` as it is.
pub fn put_raw(out: &mut Vec<u8>, b: &[u8])
    ensures
        final(out)@ == old(out)@ + b@,
{
    let mut i: usize = 0;
    while i < b.len()
        invariant
            i <= b@.len(),
            out@ == old(out)@ + b@.subrange(0, i as int),
        decreases b@.len() - i,
    {
        out.push(b[i]);
        i = i + 1;
        assert(out@ =~= old(out)@ + b@.subrange(0, i as int));
    }
    assert(b@.subrange(0, b@.len() as int) =~= b@);
}

/// Appends `b` with its length in front.
pub fn put_bytes(out: &mut Vec<u8>, b: &[u8])
    requires
        b@.len() <= u32::MAX,
    ensures
        final(out)@ == old(out)@ + enc_bytes(b@),
{
    put_u32(out, b.len() as u32);
    put_raw(out, b);
    assert(final(out)@ =~= old(out)@ + enc_bytes(b@));
}

pub fn get_u8(s: &[u8], p: usize) -> (r: Option<(u8, usize)>)
    ensures
        r matches Some((x, q)) ==> parse_u8(s@, p as int) == Some((x, q as int)),
        r is None ==> parse_u8(s@, p as int) is None,
{
    if p < s.len() {
        Some((s[p], p + 1))
    } else {
        None
    }
}

pub fn get_u32(s: &[u8], p: usize) -> (r: Option<(u32, usize)>)
    ensures
        r matches Some((x, q)) ==> parse_u32(s@, p as int) == Some((x, q as int)),
        r is None ==> parse_u32(s@, p as int) is None,
{
    if p <= s.len() && s.len() - p >= 4 {
        let x = (s[p] as u32) | ((s[p + 1] as u32) << 8u32) | ((s[p + 2] as u32) << 16u32) | ((s[p
            + 3] as u32) << 24u32);
        Some((x, p + 4))
    } else {
        None
    }
}

pub fn get_u64(s: &[u8], p: usize) -> (r: Option<(u64, usize)>)
    ensures
        r matches Some((x, q)) ==> parse_u64(s@, p as int) == Some((x, q as int)),
        r is None ==> parse_u64(s@, p as int) is None,
{
    if p <= s.len() && s.len() - p >= 8 {
        let x = (s[p] as u64) | ((s[p + 1] as u64) << 8u64) | ((s[p + 2] as u64) << 16u64) | ((s[p
            + 3] as u64) << 24u64) | ((s[p + 4] as u64) << 32u64) | ((s[p + 5] as u64) << 40u64)
            | ((s[p + 6] as u64) << 48u64) | ((s[p + 7] as u64) << 56u64);
        Some((x, p + 8))
    } else {
        None
    }
}

/// Copies `n` bytes of `s` from position `p`.
pub fn get_fixed(s: &[u8], p: usize, n: usize) -> (r: Option<(Vec<u8>, usize)>)
    ensures
        r matches Some((x, q)) ==> parse_fixed(s@, p as int, n as nat) == Some((x@, q as int)),
        r is None ==> parse_fixed(s@, p as int, n as nat) is None,
{
    if p <= s.len() && s.len() - p >= n {
        let mut v: Vec<u8> = Vec::new();
        let mut i: usize = 0;
        while i < n
            invariant
                i <= n,
                p + n <= s.len(),
                v@ == s@.subrange(p as int, p + i),
            decreases n - i,
        {
            v.push(s[p + i]);
            i = i + 1;
            assert(v@ =~= s@.subrange(p as int, p + i));
        }
        Some((v, p + n))
    } else {
        None
    }
}

pub fn get_bytes(s: &[u8], p: usize) -> (r: Option<(Vec<u8>, usize)>)
    ensures
        r matches Some((x, q)) ==> parse_bytes(s@, p as int) == Some((x@, q as int)),
        r is None ==> parse_bytes(s@, p as int) is None,
{
    match get_u32(s, p) {
        Some((n, q)) => get_fixed(s, q, n as usize),
        None => None,
    }
}

} // verus!
