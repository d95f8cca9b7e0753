//! Wire codec for the proving and data-availability pipeline.
//!
//! All integers travel little-endian and fixed-width. A batch payload is the
//! `u32` witness count followed by the fixed-width witness records; a rollup
//! batch adds roots and sequence bounds around its data. Encoding is
//! canonical: decoding accepts exactly the byte strings that encoding
//! produces, and the two are mutually inverse.

use vstd::prelude::*;

use crate::types::TransferProof;

verus! {

/// The little-endian bytes of a 64-bit value.
pub open spec fn u64_le_seq(v: u64) -> Seq<u8> {
    seq![
        (v & 0xff) as u8,
        ((v >> 8) & 0xff) as u8,
        ((v >> 16) & 0xff) as u8,
        ((v >> 24) & 0xff) as u8,
        ((v >> 32) & 0xff) as u8,
        ((v >> 40) & 0xff) as u8,
        ((v >> 48) & 0xff) as u8,
        ((v >> 56) & 0xff) as u8,
    ]
}

/// The 64-bit value held by 8 little-endian bytes.
pub open spec fn u64_of_le(s: Seq<u8>) -> u64
    recommends
        s.len() == 8,
{
    (s[0] as u64) | ((s[1] as u64) << 8) | ((s[2] as u64) << 16) | ((s[3] as u64) << 24) | ((
    s[4] as u64) << 32) | ((s[5] as u64) << 40) | ((s[6] as u64) << 48) | ((s[7] as u64) << 56)
}

/// The little-endian bytes of a 32-bit value.
pub open spec fn u32_le_seq(v: u32) -> Seq<u8> {
    seq![
        (v & 0xff) as u8,
        ((v >> 8) & 0xff) as u8,
        ((v >> 16) & 0xff) as u8,
        ((v >> 24) & 0xff) as u8,
    ]
}

/// The 32-bit value held by 4 little-endian bytes.
pub open spec fn u32_of_le(s: Seq<u8>) -> u32
    recommends
        s.len() == 4,
{
    (s[0] as u32) | ((s[1] as u32) << 8) | ((s[2] as u32) << 16) | ((s[3] as u32) << 24)
}

/// The little-endian bytes of a signed 64-bit value (two's complement).
pub open spec fn i64_le_seq(v: i64) -> Seq<u8> {
    u64_le_seq(v as u64)
}

/// The signed 64-bit value held by 8 little-endian bytes.
pub open spec fn i64_of_le(s: Seq<u8>) -> i64
    recommends
        s.len() == 8,
{
    u64_of_le(s) as i64
}

/// Appends the 8 little-endian bytes of `v` to `out`.
pub fn push_u64_le(out: &mut Vec<u8>, v: u64)
    ensures
        final(out)@ == old(out)@ + u64_le_seq(v),
{
    proof {
        assert((v & 0xff) < 256 && ((v >> 8) & 0xff) < 256 && ((v >> 16) & 0xff) < 256 && ((v
            >> 24) & 0xff) < 256 && ((v >> 32) & 0xff) < 256 && ((v >> 40) & 0xff) < 256 && ((v
            >> 48) & 0xff) < 256 && ((v >> 56) & 0xff) < 256) by (bit_vector);
    }
    out.push((v & 0xff) as u8);
    out.push(((v >> 8) & 0xff) as u8);
    out.push(((v >> 16) & 0xff) as u8);
    out.push(((v >> 24) & 0xff) as u8);
    out.push(((v >> 32) & 0xff) as u8);
    out.push(((v >> 40) & 0xff) as u8);
    out.push(((v >> 48) & 0xff) as u8);
    out.push(((v >> 56) & 0xff) as u8);
    proof {
        assert(out@ =~= old(out)@ + u64_le_seq(v));
    }
}

/// Appends the 4 little-endian bytes of `v` to `out`.
pub fn push_u32_le(out: &mut Vec<u8>, v: u32)
    ensures
        final(out)@ == old(out)@ + u32_le_seq(v),
{
    proof {
        assert((v & 0xff) < 256 && ((v >> 8) & 0xff) < 256 && ((v >> 16) & 0xff) < 256 && ((v
            >> 24) & 0xff) < 256) by (bit_vector);
    }
    out.push((v & 0xff) as u8);
    out.push(((v >> 8) & 0xff) as u8);
    out.push(((v >> 16) & 0xff) as u8);
    out.push(((v >> 24) & 0xff) as u8);
    proof {
        assert(out@ =~= old(out)@ + u32_le_seq(v));
    }
}

/// Appends the 8 little-endian bytes of a signed value to `out`.
pub fn push_i64_le(out: &mut Vec<u8>, v: i64)
    ensures
        final(out)@ == old(out)@ + i64_le_seq(v),
{
    push_u64_le(out, v as u64);
}

/// Reads the 64-bit value at `at` from `b`.
pub fn read_u64_le(b: &[u8], at: usize) -> (r: u64)
    requires
        at + 8 <= b@.len(),
    ensures
        r == u64_of_le(b@.subrange(at as int, at as int + 8)),
{
    let r: u64 = (b[at] as u64) | ((b[at + 1] as u64) << 8) | ((b[at + 2] as u64) << 16) | ((b[at
        + 3] as u64) << 24) | ((b[at + 4] as u64) << 32) | ((b[at + 5] as u64) << 40) | ((b[at
        + 6] as u64) << 48) | ((b[at + 7] as u64) << 56);
    proof {
        let s = b@.subrange(at as int, at as int + 8);
        assert(s[0] == b@[at as int] && s[1] == b@[at as int + 1] && s[2] == b@[at as int + 2]
            && s[3] == b@[at as int + 3] && s[4] == b@[at as int + 4] && s[5] == b@[at as int + 5]
            && s[6] == b@[at as int + 6] && s[7] == b@[at as int + 7]);
    }
    r
}

/// Reads the 32-bit value at `at` from `b`.
pub fn read_u32_le(b: &[u8], at: usize) -> (r: u32)
    requires
        at + 4 <= b@.len(),
    ensures
        r == u32_of_le(b@.subrange(at as int, at as int + 4)),
{
    let r: u32 = (b[at] as u32) | ((b[at + 1] as u32) << 8) | ((b[at + 2] as u32) << 16) | ((b[at
        + 3] as u32) << 24);
    proof {
        let s = b@.subrange(at as int, at as int + 4);
        assert(s[0] == b@[at as int] && s[1] == b@[at as int + 1] && s[2] == b@[at as int + 2]
            && s[3] == b@[at as int + 3]);
    }
    r
}

/// Reads the signed 64-bit value at `at` from `b`.
pub fn read_i64_le(b: &[u8], at: usize) -> (r: i64)
    requires
        at + 8 <= b@.len(),
    ensures
        r == i64_of_le(b@.subrange(at as int, at as int + 8)),
{
    let u: u64 = read_u64_le(b, at);
    u as i64
}

/// Decoding the 8 little-endian bytes of a value gives the value back.
pub proof fn lemma_u64_le_round_trip(v: u64)
    ensures
        u64_of_le(u64_le_seq(v)) == v,
{
    assert(((v & 0xff) as u8 as u64) | ((((v >> 8) & 0xff) as u8 as u64) << 8) | ((((v >> 16)
        & 0xff) as u8 as u64) << 16) | ((((v >> 24) & 0xff) as u8 as u64) << 24) | ((((v >> 32)
        & 0xff) as u8 as u64) << 32) | ((((v >> 40) & 0xff) as u8 as u64) << 40) | ((((v >> 48)
        & 0xff) as u8 as u64) << 48) | ((((v >> 56) & 0xff) as u8 as u64) << 56) == v)
        by (bit_vector);
}

/// Decoding the 4 little-endian bytes of a value gives the value back.
pub proof fn lemma_u32_le_round_trip(v: u32)
    ensures
        u32_of_le(u32_le_seq(v)) == v,
{
    assert(((v & 0xff) as u8 as u32) | ((((v >> 8) & 0xff) as u8 as u32) << 8) | ((((v >> 16)
        & 0xff) as u8 as u32) << 16) | ((((v >> 24) & 0xff) as u8 as u32) << 24) == v)
        by (bit_vector);
}

/// Decoding the little-endian bytes of a signed value gives the value back.
pub proof fn lemma_i64_le_round_trip(v: i64)
    ensures
        i64_of_le(i64_le_seq(v)) == v,
{
    lemma_u64_le_round_trip(v as u64);
    assert(v as u64 as i64 == v) by (bit_vector);
}


/// Number of bytes of one encoded transfer witness.
pub const WITNESS_BYTES: usize = 184;

/// The wire form of one transfer witness: fixed-width fields, little-endian
/// integers.
pub open spec fn witness_bytes(w: TransferProof) -> Seq<u8> {
    w.from_addr@ + w.to_addr@ + i64_le_seq(w.amount) + i64_le_seq(w.fee) + i64_le_seq(w.nonce)
        + w.signature@ + w.public_key@
}

/// The concatenated wire forms of a list of witnesses.
pub open spec fn witness_list_bytes(ws: Seq<TransferProof>) -> Seq<u8>
    decreases ws.len(),
{
    if ws.len() == 0 {
        Seq::empty()
    } else {
        witness_bytes(ws[0]) + witness_list_bytes(ws.subrange(1, ws.len() as int))
    }
}

/// The full batch payload handed to the prover: a little-endian `u32` count,
/// then the witness records in order.
pub open spec fn witness_payload_bytes(ws: Seq<TransferProof>) -> Seq<u8> {
    u32_le_seq(ws.len() as u32) + witness_list_bytes(ws)
}

/// A batch payload is well-shaped when its length matches the count prefix.
pub open spec fn valid_witness_payload(s: Seq<u8>) -> bool {
    &&& s.len() >= 4
    &&& s.len() == 4 + WITNESS_BYTES * (u32_of_le(s.subrange(0, 4)) as int)
}

/// Appending one witness appends its wire form.
pub proof fn lemma_witness_list_snoc(ws: Seq<TransferProof>, w: TransferProof)
    ensures
        witness_list_bytes(ws.push(w)) == witness_list_bytes(ws) + witness_bytes(w),
    decreases ws.len(),
{
    if ws.len() == 0 {
        assert(ws.push(w).subrange(1, 1) =~= Seq::<TransferProof>::empty());
        assert(witness_list_bytes(Seq::<TransferProof>::empty()) == Seq::<u8>::empty());
        assert(witness_list_bytes(ws.push(w)) =~= witness_bytes(w));
        assert(witness_list_bytes(ws) + witness_bytes(w) =~= witness_bytes(w));
    } else {
        assert(ws.push(w).subrange(1, ws.len() as int + 1) =~= ws.subrange(1, ws.len() as int).push(w));
        lemma_witness_list_snoc(ws.subrange(1, ws.len() as int), w);
        assert(witness_list_bytes(ws.push(w)) =~= witness_list_bytes(ws) + witness_bytes(w));
    }
}

/// The wire form of a witness list is `WITNESS_BYTES` bytes per witness.
pub proof fn lemma_witness_list_len(ws: Seq<TransferProof>)
    ensures
        witness_list_bytes(ws).len() == WITNESS_BYTES * ws.len(),
    decreases ws.len(),
{
    if ws.len() > 0 {
        lemma_witness_list_len(ws.subrange(1, ws.len() as int));
    }
}

/// Appends the wire form of one witness to `out`.
pub fn encode_witness(out: &mut Vec<u8>, w: &TransferProof)
    ensures
        final(out)@ == old(out)@ + witness_bytes(*w),
{
    out.extend_from_slice(w.from_addr.as_slice());
    out.extend_from_slice(w.to_addr.as_slice());
    push_i64_le(out, w.amount);
    push_i64_le(out, w.fee);
    push_i64_le(out, w.nonce);
    out.extend_from_slice(w.signature.as_slice());
    out.extend_from_slice(w.public_key.as_slice());
    proof {
        assert(out@ =~= old(out)@ + witness_bytes(*w));
    }
}

/// Encodes a whole batch of witnesses: count prefix, then the records.
pub fn encode_witnesses(ws: &Vec<TransferProof>) -> (r: Vec<u8>)
    requires
        ws@.len() <= u32::MAX,
    ensures
        r@ == witness_payload_bytes(ws@),
{
    let mut out: Vec<u8> = Vec::new();
    push_u32_le(&mut out, ws.len() as u32);
    let n: usize = ws.len();
    let mut i: usize = 0;
    proof {
        assert(ws@.subrange(0, 0) =~= Seq::<TransferProof>::empty());
        assert(out@ =~= u32_le_seq(ws@.len() as u32) + witness_list_bytes(ws@.subrange(0, 0)));
    }
    while i < n
        invariant
            i <= n,
            n == ws@.len(),
            ws@.len() <= u32::MAX,
            out@ == u32_le_seq(ws@.len() as u32) + witness_list_bytes(ws@.subrange(0, i as int)),
        decreases n - i,
    {
        encode_witness(&mut out, &ws[i]);
        proof {
            lemma_witness_list_snoc(ws@.subrange(0, i as int), ws@[i as int]);
            assert(ws@.subrange(0, i + 1) =~= ws@.subrange(0, i as int).push(ws@[i as int]));
        }
        i = i + 1;
    }
    proof {
        assert(ws@.subrange(0, n as int) =~= ws@);
    }
    out
}

/// Copies 32 bytes starting at `at` out of `b`.
pub fn read_bytes32(b: &[u8], at: usize) -> (r: [u8; 32])
    requires
        at + 32 <= b@.len(),
    ensures
        r@ == b@.subrange(at as int, at as int + 32),
{
    let blen: usize = b.len();
    let mut r: [u8; 32] = [0u8; 32];
    let mut i: usize = 0;
    while i < 32
        invariant
            i <= 32,
            at + 32 <= blen == b@.len(),
            forall|j: int| 0 <= j < i ==> r@[j] == b@[at + j],
        decreases 32 - i,
    {
        r[i] = b[at + i];
        i = i + 1;
    }
    proof {
        assert(r@ =~= b@.subrange(at as int, at as int + 32));
    }
    r
}

/// Copies 64 bytes starting at `at` out of `b`.
pub fn read_bytes64(b: &[u8], at: usize) -> (r: [u8; 64])
    requires
        at + 64 <= b@.len(),
    ensures
        r@ == b@.subrange(at as int, at as int + 64),
{
    let blen: usize = b.len();
    let mut r: [u8; 64] = [0u8; 64];
    let mut i: usize = 0;
    while i < 64
        invariant
            i <= 64,
            at + 64 <= blen == b@.len(),
            forall|j: int| 0 <= j < i ==> r@[j] == b@[at + j],
        decreases 64 - i,
    {
        r[i] = b[at + i];
        i = i + 1;
    }
    proof {
        assert(r@ =~= b@.subrange(at as int, at as int + 64));
    }
    r
}


/// Re-encoding the value held by 8 little-endian bytes gives the bytes back.
pub proof fn lemma_u64_le_inverse(s: Seq<u8>)
    requires
        s.len() == 8,
    ensures
        u64_le_seq(u64_of_le(s)) =~= s,
{
    let b0 = s[0] as u64;
    let b1 = s[1] as u64;
    let b2 = s[2] as u64;
    let b3 = s[3] as u64;
    let b4 = s[4] as u64;
    let b5 = s[5] as u64;
    let b6 = s[6] as u64;
    let b7 = s[7] as u64;
    let v = u64_of_le(s);
    assert(b0 < 256 && b1 < 256 && b2 < 256 && b3 < 256 && b4 < 256 && b5 < 256 && b6 < 256 && b7
        < 256 ==> {
        let w = b0 | (b1 << 8) | (b2 << 16) | (b3 << 24) | (b4 << 32) | (b5 << 40) | (b6 << 48) | (
        b7 << 56);
        (w & 0xff) == b0 && ((w >> 8) & 0xff) == b1 && ((w >> 16) & 0xff) == b2 && ((w >> 24)
            & 0xff) == b3 && ((w >> 32) & 0xff) == b4 && ((w >> 40) & 0xff) == b5 && ((w >> 48)
            & 0xff) == b6 && ((w >> 56) & 0xff) == b7
    }) by (bit_vector);
}

/// Re-encoding the value held by 4 little-endian bytes gives the bytes back.
pub proof fn lemma_u32_le_inverse(s: Seq<u8>)
    requires
        s.len() == 4,
    ensures
        u32_le_seq(u32_of_le(s)) =~= s,
{
    let b0 = s[0] as u32;
    let b1 = s[1] as u32;
    let b2 = s[2] as u32;
    let b3 = s[3] as u32;
    let v = u32_of_le(s);
    assert(b0 < 256 && b1 < 256 && b2 < 256 && b3 < 256 ==> {
        let w = b0 | (b1 << 8) | (b2 << 16) | (b3 << 24);
        (w & 0xff) == b0 && ((w >> 8) & 0xff) == b1 && ((w >> 16) & 0xff) == b2 && ((w >> 24)
            & 0xff) == b3
    }) by (bit_vector);
}

/// Re-encoding the signed value held by 8 little-endian bytes gives the
/// bytes back.
pub proof fn lemma_i64_le_inverse(s: Seq<u8>)
    requires
        s.len() == 8,
    ensures
        i64_le_seq(i64_of_le(s)) =~= s,
{
    lemma_u64_le_inverse(s);
    let u = u64_of_le(s);
    assert(u as i64 as u64 == u) by (bit_vector);
}

/// Reads the witness record stored at `at`.
pub fn decode_witness(b: &[u8], at: usize) -> (w: TransferProof)
    requires
        at + WITNESS_BYTES <= b@.len(),
    ensures
        witness_bytes(w) == b@.subrange(at as int, at as int + WITNESS_BYTES as int),
{
    let blen: usize = b.len();
    proof {
        assert(at + WITNESS_BYTES <= blen);
    }
    let w = TransferProof {
        from_addr: read_bytes32(b, at),
        to_addr: read_bytes32(b, at + 32),
        amount: read_i64_le(b, at + 64),
        fee: read_i64_le(b, at + 72),
        nonce: read_i64_le(b, at + 80),
        signature: read_bytes64(b, at + 88),
        public_key: read_bytes32(b, at + 152),
    };
    proof {
        lemma_i64_le_inverse(b@.subrange(at as int + 64, at as int + 72));
        lemma_i64_le_inverse(b@.subrange(at as int + 72, at as int + 80));
        lemma_i64_le_inverse(b@.subrange(at as int + 80, at as int + 88));
        assert(witness_bytes(w) =~= b@.subrange(at as int, at as int + WITNESS_BYTES as int));
    }
    w
}

/// Decodes a whole batch payload. Succeeds exactly on the byte strings whose
/// length matches their count prefix, and then returns the unique witness
/// list whose encoding is the input.
pub fn decode_witnesses(b: &[u8]) -> (r: Option<Vec<TransferProof>>)
    ensures
        r is Some <==> valid_witness_payload(b@),
        r matches Some(ws) ==> witness_payload_bytes(ws@) == b@,
{
    let blen: usize = b.len();
    if blen < 4 {
        return None;
    }
    let count: u32 = read_u32_le(b, 0);
    let need: u64 = (count as u64) * (WITNESS_BYTES as u64) + 4;
    if (blen as u64) != need {
        return None;
    }
    let mut ws: Vec<TransferProof> = Vec::new();
    let mut i: u32 = 0;
    proof {
        assert(ws@.subrange(0, 0) =~= Seq::<TransferProof>::empty());
    }
    while i < count
        invariant
            i <= count,
            blen == b@.len(),
            blen == 4 + WITNESS_BYTES * (count as int),
            ws@.len() == i as int,
            witness_list_bytes(ws@) == b@.subrange(4, 4 + WITNESS_BYTES * (i as int)),
        decreases count - i,
    {
        let off: usize = 4 + (i as usize) * WITNESS_BYTES;
        let w = decode_witness(b, off);
        proof {
            lemma_witness_list_snoc(ws@, w);
            assert(b@.subrange(4, 4 + WITNESS_BYTES * (i as int)) + b@.subrange(
                off as int,
                off as int + WITNESS_BYTES as int,
            ) =~= b@.subrange(4, 4 + WITNESS_BYTES * (i as int + 1)));
        }
        ws.push(w);
        i = i + 1;
    }
    proof {
        lemma_u32_le_inverse(b@.subrange(0, 4));
        assert(ws@.len() as u32 == count);
        assert(witness_payload_bytes(ws@) =~= b@);
    }
    Some(ws)
}

/// Witnesses with the same wire form are the same witness.
pub proof fn lemma_witness_bytes_injective(w1: TransferProof, w2: TransferProof)
    requires
        witness_bytes(w1) == witness_bytes(w2),
    ensures
        w1 == w2,
{
    let s1 = witness_bytes(w1);
    let s2 = witness_bytes(w2);
    assert(w1.from_addr@ =~= s1.subrange(0, 32));
    assert(w2.from_addr@ =~= s2.subrange(0, 32));
    assert(w1.to_addr@ =~= s1.subrange(32, 64));
    assert(w2.to_addr@ =~= s2.subrange(32, 64));
    assert(i64_le_seq(w1.amount) =~= s1.subrange(64, 72));
    assert(i64_le_seq(w2.amount) =~= s2.subrange(64, 72));
    assert(i64_le_seq(w1.fee) =~= s1.subrange(72, 80));
    assert(i64_le_seq(w2.fee) =~= s2.subrange(72, 80));
    assert(i64_le_seq(w1.nonce) =~= s1.subrange(80, 88));
    assert(i64_le_seq(w2.nonce) =~= s2.subrange(80, 88));
    assert(w1.signature@ =~= s1.subrange(88, 152));
    assert(w2.signature@ =~= s2.subrange(88, 152));
    assert(w1.public_key@ =~= s1.subrange(152, 184));
    assert(w2.public_key@ =~= s2.subrange(152, 184));
    lemma_i64_le_round_trip(w1.amount);
    lemma_i64_le_round_trip(w2.amount);
    lemma_i64_le_round_trip(w1.fee);
    lemma_i64_le_round_trip(w2.fee);
    lemma_i64_le_round_trip(w1.nonce);
    lemma_i64_le_round_trip(w2.nonce);
    assert(w1.from_addr =~= w2.from_addr);
    assert(w1.to_addr =~= w2.to_addr);
    assert(w1.signature =~= w2.signature);
    assert(w1.public_key =~= w2.public_key);
}

/// Witness lists with the same wire form are the same list.
pub proof fn lemma_witness_list_bytes_injective(a: Seq<TransferProof>, b: Seq<TransferProof>)
    requires
        witness_list_bytes(a) == witness_list_bytes(b),
    ensures
        a =~= b,
    decreases a.len(),
{
    lemma_witness_list_len(a);
    lemma_witness_list_len(b);
    assert(a.len() == b.len());
    if a.len() == 0 {
        assert(a =~= b);
    } else {
        let sa = witness_list_bytes(a);
        let sb = witness_list_bytes(b);
        assert(witness_bytes(a[0]) =~= sa.subrange(0, WITNESS_BYTES as int));
        assert(witness_bytes(b[0]) =~= sb.subrange(0, WITNESS_BYTES as int));
        lemma_witness_bytes_injective(a[0], b[0]);
        assert(witness_list_bytes(a.subrange(1, a.len() as int)) =~= sa.subrange(
            WITNESS_BYTES as int,
            sa.len() as int,
        ));
        assert(witness_list_bytes(b.subrange(1, b.len() as int)) =~= sb.subrange(
            WITNESS_BYTES as int,
            sb.len() as int,
        ));
        lemma_witness_list_bytes_injective(
            a.subrange(1, a.len() as int),
            b.subrange(1, b.len() as int),
        );
        assert forall|i: int| 0 <= i < a.len() implies a[i] == b[i] by {
            if i > 0 {
                assert(a[i] == a.subrange(1, a.len() as int)[i - 1]);
                assert(b[i] == b.subrange(1, b.len() as int)[i - 1]);
            }
        }
        assert(a =~= b);
    }
}

/// Round trip of the batch payload codec: the encoding is injective, so the
/// decoder - whose contract says it returns a list that encodes to its input
/// - gives back exactly the batch that was encoded.
pub proof fn lemma_witness_payload_round_trip(a: Seq<TransferProof>, b: Seq<TransferProof>)
    requires
        witness_payload_bytes(a) == witness_payload_bytes(b),
    ensures
        a =~= b,
{
    let sa = witness_payload_bytes(a);
    let sb = witness_payload_bytes(b);
    lemma_witness_list_len(a);
    lemma_witness_list_len(b);
    assert(witness_list_bytes(a) =~= sa.subrange(4, sa.len() as int));
    assert(witness_list_bytes(b) =~= sb.subrange(4, sb.len() as int));
    lemma_witness_list_bytes_injective(a, b);
}


/// Why a rollup batch is refused before submission or while decoding.
#[derive(Debug, Clone, Copy, PartialEq, Eq, Structural)]
pub enum BatchError {
    /// The sequence bounds are inverted.
    InvalidRange,
    /// The byte string is not a batch encoding.
    Malformed,
}

/// A batch as posted to the data-availability chain: the state roots it
/// connects, the sequence range it covers, and its payload bytes.
#[derive(Debug, Clone)]
pub struct RollupBatch {
    pub prev_state_root: [u8; 32],
    pub start_seq: u64,
    pub end_seq: u64,
    pub data: Vec<u8>,
    pub new_state_root: [u8; 32],
}

/// The wire form of a rollup batch: previous root, sequence bounds, a `u64`
/// payload length, the payload, then the new root.
pub open spec fn rollup_batch_bytes(b: RollupBatch) -> Seq<u8> {
    b.prev_state_root@ + u64_le_seq(b.start_seq) + u64_le_seq(b.end_seq) + u64_le_seq(
        b.data@.len() as u64,
    ) + b.data@ + b.new_state_root@
}

/// A byte string is a batch encoding when its length matches the embedded
/// payload length.
pub open spec fn valid_rollup_batch_bytes(s: Seq<u8>) -> bool {
    &&& s.len() >= 88
    &&& s.len() == 88 + u64_of_le(s.subrange(48, 56)) as int
}

impl RollupBatch {
    /// A batch is well-formed when its sequence bounds are ordered.
    pub open spec fn wf(self) -> bool {
        self.start_seq <= self.end_seq
    }

    /// Builds a batch from its parts.
    pub fn new(
        prev_state_root: [u8; 32],
        start_seq: u64,
        end_seq: u64,
        data: Vec<u8>,
        new_state_root: [u8; 32],
    ) -> (r: RollupBatch)
        ensures
            r.prev_state_root == prev_state_root,
            r.start_seq == start_seq,
            r.end_seq == end_seq,
            r.data == data,
            r.new_state_root == new_state_root,
    {
        RollupBatch { prev_state_root, start_seq, end_seq, data, new_state_root }
    }

    /// Accepts exactly the well-formed batches.
    pub fn verify(&self) -> (r: Result<(), BatchError>)
        ensures
            r is Ok <==> self.wf(),
            r is Err ==> r == Result::<(), BatchError>::Err(BatchError::InvalidRange),
    {
        if self.start_seq <= self.end_seq {
            Ok(())
        } else {
            Err(BatchError::InvalidRange)
        }
    }

    /// Encodes the batch for submission.
    pub fn encode(&self) -> (r: Vec<u8>)
        ensures
            r@ == rollup_batch_bytes(*self),
    {
        let mut out: Vec<u8> = Vec::new();
        out.extend_from_slice(self.prev_state_root.as_slice());
        push_u64_le(&mut out, self.start_seq);
        push_u64_le(&mut out, self.end_seq);
        push_u64_le(&mut out, self.data.len() as u64);
        out.extend_from_slice(self.data.as_slice());
        out.extend_from_slice(self.new_state_root.as_slice());
        proof {
            assert(out@ =~= rollup_batch_bytes(*self));
        }
        out
    }

    /// Decodes a submitted batch. Succeeds exactly on well-shaped byte
    /// strings, and then returns the unique batch whose encoding is the
    /// input.
    pub fn decode(b: &[u8]) -> (r: Result<RollupBatch, BatchError>)
        ensures
            r is Ok <==> valid_rollup_batch_bytes(b@),
            r matches Ok(bt) ==> rollup_batch_bytes(bt) == b@,
            r is Err ==> r == Result::<RollupBatch, BatchError>::Err(BatchError::Malformed),
    {
        let blen: usize = b.len();
        if blen < 88 {
            return Err(BatchError::Malformed);
        }
        let dlen: u64 = read_u64_le(b, 48);
        if (blen as u64) - 88 != dlen {
            return Err(BatchError::Malformed);
        }
        let dl: usize = blen - 88;
        let bt = RollupBatch {
            prev_state_root: read_bytes32(b, 0),
            start_seq: read_u64_le(b, 32),
            end_seq: read_u64_le(b, 40),
            data: read_bytes_vec(b, 56, dl),
            new_state_root: read_bytes32(b, 56 + dl),
        };
        proof {
            lemma_u64_le_inverse(b@.subrange(32, 40));
            lemma_u64_le_inverse(b@.subrange(40, 48));
            lemma_u64_le_inverse(b@.subrange(48, 56));
            assert(rollup_batch_bytes(bt) =~= b@);
        }
        Ok(bt)
    }
}

/// Batches with the same wire form hold the same content: together with the
/// decoder's contract, decoding an encoded batch gives the batch back, field
/// for field.
pub proof fn lemma_rollup_batch_round_trip(b1: RollupBatch, b2: RollupBatch)
    requires
        rollup_batch_bytes(b1) == rollup_batch_bytes(b2),
        b1.data@.len() <= u64::MAX,
        b2.data@.len() <= u64::MAX,
    ensures
        b1.prev_state_root == b2.prev_state_root,
        b1.start_seq == b2.start_seq,
        b1.end_seq == b2.end_seq,
        b1.data@ == b2.data@,
        b1.new_state_root == b2.new_state_root,
{
    let s1 = rollup_batch_bytes(b1);
    let s2 = rollup_batch_bytes(b2);
    assert(u64_le_seq(b1.data@.len() as u64) =~= s1.subrange(48, 56));
    assert(u64_le_seq(b2.data@.len() as u64) =~= s2.subrange(48, 56));
    lemma_u64_le_round_trip(b1.data@.len() as u64);
    lemma_u64_le_round_trip(b2.data@.len() as u64);
    assert(b1.data@.len() == b2.data@.len());
    let n = b1.data@.len() as int;
    assert(b1.prev_state_root@ =~= s1.subrange(0, 32));
    assert(b2.prev_state_root@ =~= s2.subrange(0, 32));
    assert(u64_le_seq(b1.start_seq) =~= s1.subrange(32, 40));
    assert(u64_le_seq(b2.start_seq) =~= s2.subrange(32, 40));
    assert(u64_le_seq(b1.end_seq) =~= s1.subrange(40, 48));
    assert(u64_le_seq(b2.end_seq) =~= s2.subrange(40, 48));
    lemma_u64_le_round_trip(b1.start_seq);
    lemma_u64_le_round_trip(b2.start_seq);
    lemma_u64_le_round_trip(b1.end_seq);
    lemma_u64_le_round_trip(b2.end_seq);
    assert(b1.data@ =~= s1.subrange(56, 56 + n));
    assert(b2.data@ =~= s2.subrange(56, 56 + n));
    assert(b1.new_state_root@ =~= s1.subrange(56 + n, 88 + n));
    assert(b2.new_state_root@ =~= s2.subrange(56 + n, 88 + n));
    assert(b1.prev_state_root =~= b2.prev_state_root);
    assert(b1.new_state_root =~= b2.new_state_root);
    assert(b1.data@ =~= b2.data@);
}

/// Copies `len` bytes starting at `at` out of `b`.
pub fn read_bytes_vec(b: &[u8], at: usize, len: usize) -> (r: Vec<u8>)
    requires
        at + len <= b@.len(),
    ensures
        r@ == b@.subrange(at as int, at as int + len as int),
{
    let blen: usize = b.len();
    let mut r: Vec<u8> = Vec::new();
    let mut i: usize = 0;
    while i < len
        invariant
            i <= len,
            at + len <= blen == b@.len(),
            r@.len() == i,
            forall|j: int| 0 <= j < i ==> r@[j] == b@[at + j],
        decreases len - i,
    {
        r.push(b[at + i]);
        i = i + 1;
    }
    proof {
        assert(r@ =~= b@.subrange(at as int, at as int + len as int));
    }
    r
}

} // verus!
