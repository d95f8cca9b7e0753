//! Message hashing, signature verification, and hex conversions.
//!
//! The canonical signing message of a transfer is the SHA-256 digest of its
//! fixed-width fields (addresses, little-endian integers, then the signer's
//! public key). The digest and the Ed25519 check are outside calls: their
//! results are named by uninterpreted spec functions, and everything the
//! library states about a signed transfer goes through those names. Hex
//! conversion is an outside call too, but with an exact contract.

use vstd::prelude::*;

use crate::codec::i64_le_seq;
use crate::codec::push_i64_le;
use crate::types::TransferProof;
use sha2::Digest;

verus! {

/// The SHA-256 digest of a byte string. Named only: the trusted wrapper
/// below states what the library assumes of it.
pub uninterp spec fn sha256_of(data: Seq<u8>) -> Seq<u8>;

/// Whether an Ed25519 signature verifies for a public key and message.
pub uninterp spec fn ed25519_verifies(public_key: Seq<u8>, message: Seq<u8>, signature: Seq<u8>) -> bool;

/// Relies on `sha2::Sha256::digest`: the SHA-256 digest of the input,
/// 32 bytes, a function of the input alone.
#[verifier::external_body]
pub fn sha256(data: &[u8]) -> (r: Vec<u8>)
    ensures
        r@ == sha256_of(data@),
        r@.len() == 32,
{
    sha2::Sha256::digest(data).to_vec()
}

/// Relies on `ed25519_dalek::VerifyingKey::{from_bytes, verify}` and
/// `ed25519_dalek::Signature::from_bytes`: whether the signature verifies,
/// a deterministic function of the three byte strings; bytes that are no
/// valid public key verify nothing.
#[verifier::external_body]
pub fn ed25519_verify(public_key: &[u8; 32], message: &[u8], signature: &[u8; 64]) -> (r: bool)
    ensures
        r == ed25519_verifies(public_key@, message@, signature@),
{
    match ed25519_dalek::VerifyingKey::from_bytes(public_key) {
        Ok(vk) => {
            let sig = ed25519_dalek::Signature::from_bytes(signature);
            ed25519_dalek::Verifier::verify(&vk, message, &sig).is_ok()
        },
        Err(_) => false,
    }
}

/// The lower-case hex digit for a value below 16.
pub open spec fn hex_digit(v: u8) -> char
    recommends
        v < 16,
{
    if v < 10 {
        (v + 48) as char  // '0'..='9'
    } else {
        (v + 87) as char  // 'a'..='f'
    }
}

/// The lower-case hex form of a byte string: two digits per byte, high
/// nibble first.
pub open spec fn hex_of(data: Seq<u8>) -> Seq<char> {
    Seq::new(
        data.len() * 2,
        |i: int| if i % 2 == 0 {
            hex_digit(data[i / 2] / 16)
        } else {
            hex_digit(data[i / 2] % 16)
        },
    )
}

/// Whether a character is a hex digit.
pub open spec fn is_hex_char(c: char) -> bool {
    ('0' <= c && c <= '9') || ('a' <= c && c <= 'f') || ('A' <= c && c <= 'F')
}

/// The value of one hex digit.
pub open spec fn hex_char_val(c: char) -> u8
    recommends
        is_hex_char(c),
{
    if '0' <= c && c <= '9' {
        ((c as int) - 48) as u8
    } else if 'a' <= c && c <= 'f' {
        ((c as int) - 87) as u8
    } else {
        ((c as int) - 55) as u8
    }
}

/// Whether a character string is well-formed hex: digits only, in pairs.
pub open spec fn is_hex_str(s: Seq<char>) -> bool {
    &&& s.len() % 2 == 0
    &&& forall|i: int| 0 <= i < s.len() ==> is_hex_char(#[trigger] s[i])
}

/// The bytes held by a well-formed hex string.
pub open spec fn bytes_of_hex(s: Seq<char>) -> Seq<u8>
    recommends
        is_hex_str(s),
{
    Seq::new(
        s.len() / 2,
        |i: int| (hex_char_val(s[2 * i]) * 16 + hex_char_val(s[2 * i + 1])) as u8,
    )
}

/// Relies on `hex::encode`: the lower-case hex form of the input, two
/// digits per byte, high nibble first.
#[verifier::external_body]
pub fn hex_encode(data: &[u8]) -> (r: String)
    ensures
        r@ == hex_of(data@),
{
    hex::encode(data)
}

/// Relies on `hex::decode`: succeeds exactly on strings of hex digits of
/// even length (upper or lower case), returning the bytes they spell.
#[verifier::external_body]
pub fn hex_decode(s: &str) -> (r: Option<Vec<u8>>)
    ensures
        r is Some <==> is_hex_str(s@),
        r matches Some(v) ==> v@ == bytes_of_hex(s@),
{
    match hex::decode(s) {
        Ok(v) => Some(v),
        Err(_) => None,
    }
}

/// The bytes hashed to form the canonical signing message of a transfer:
/// both addresses, the little-endian integers, then the signer's key.
pub open spec fn transfer_msg_input(
    from: Seq<u8>,
    to: Seq<u8>,
    amount: i64,
    fee: i64,
    nonce: i64,
    pk: Seq<u8>,
) -> Seq<u8> {
    from + to + i64_le_seq(amount) + i64_le_seq(fee) + i64_le_seq(nonce) + pk
}

/// The message input of a witness's fields.
pub open spec fn message_input(tx: TransferProof) -> Seq<u8> {
    transfer_msg_input(
        tx.from_addr@,
        tx.to_addr@,
        tx.amount,
        tx.fee,
        tx.nonce,
        tx.public_key@,
    )
}

/// The canonical signing message of a transfer: the SHA-256 digest of its
/// fixed-width fields.
pub open spec fn canonical_message(tx: TransferProof) -> Seq<u8> {
    sha256_of(message_input(tx))
}

/// Computes the message to be signed for a transfer.
pub fn compute_message(tx: &TransferProof) -> (r: Vec<u8>)
    ensures
        r@ == canonical_message(*tx),
        r@.len() == 32,
{
    let mut input: Vec<u8> = Vec::new();
    input.extend_from_slice(tx.from_addr.as_slice());
    input.extend_from_slice(tx.to_addr.as_slice());
    push_i64_le(&mut input, tx.amount);
    push_i64_le(&mut input, tx.fee);
    push_i64_le(&mut input, tx.nonce);
    input.extend_from_slice(tx.public_key.as_slice());
    proof {
        assert(input@ =~= message_input(*tx));
    }
    sha256(input.as_slice())
}

/// Whether a transfer's signature verifies over its canonical message with
/// its embedded public key.
pub open spec fn transfer_signature_ok(tx: TransferProof) -> bool {
    ed25519_verifies(tx.public_key@, canonical_message(tx), tx.signature@)
}

/// Checks a transfer's signature over its canonical message.
pub fn verify_transfer_signature(tx: &TransferProof) -> (r: bool)
    ensures
        r == transfer_signature_ok(*tx),
{
    let msg = compute_message(tx);
    ed25519_verify(&tx.public_key, msg.as_slice(), &tx.signature)
}


/// The ASCII byte of the lower-case hex digit for a value below 16.
pub open spec fn hex_digit_byte(v: u8) -> u8
    recommends
        v < 16,
{
    if v < 10 {
        (v + 48) as u8  // b'0'..=b'9'
    } else {
        (v + 87) as u8  // b'a'..=b'f'
    }
}

/// The lower-case hex form of a byte string, as ASCII bytes.
pub open spec fn hex_bytes_of(data: Seq<u8>) -> Seq<u8> {
    Seq::new(
        data.len() * 2,
        |i: int| if i % 2 == 0 {
            hex_digit_byte(data[i / 2] / 16)
        } else {
            hex_digit_byte(data[i / 2] % 16)
        },
    )
}

/// The canonical mint message: the receiver's address in lower-case hex,
/// then the amount in decimal, as UTF-8 bytes. Verified against the
/// configured issuer key, without an intermediate digest.
pub open spec fn mint_message_spec(to: Seq<u8>, amount: int) -> Seq<u8> {
    hex_bytes_of(to) + crate::decimal::udec_bytes(amount)
}

/// Builds the canonical mint message.
pub fn mint_message(to: &[u8; 32], amount: i64) -> (r: Vec<u8>)
    requires
        amount >= 0,
    ensures
        r@ == mint_message_spec(to@, amount as int),
{
    let mut out: Vec<u8> = Vec::new();
    let mut i: usize = 0;
    while i < 32
        invariant
            i <= 32,
            out@.len() == 2 * i,
            forall|j: int| 0 <= j < 2 * i ==> out@[j] == hex_bytes_of(to@)[j],
        decreases 32 - i,
    {
        let b: u8 = to[i];
        out.push(if b / 16 < 10 {
            b / 16 + 48
        } else {
            b / 16 + 87
        });
        out.push(if b % 16 < 10 {
            b % 16 + 48
        } else {
            b % 16 + 87
        });
        i = i + 1;
    }
    proof {
        assert(out@ =~= hex_bytes_of(to@));
    }
    let mut dec = crate::decimal::u64_dec_bytes(amount as u64);
    out.append(&mut dec);
    proof {
        assert(out@ =~= mint_message_spec(to@, amount as int));
    }
    out
}

/// Whether a mint of `amount` to `to` carries a valid issuer signature.
pub open spec fn mint_signature_ok(
    issuer: Seq<u8>,
    to: Seq<u8>,
    amount: int,
    signature: Seq<u8>,
) -> bool {
    ed25519_verifies(issuer, mint_message_spec(to, amount), signature)
}

/// Checks a mint's signature over the canonical mint message with the
/// issuer key.
pub fn verify_mint_signature(
    issuer: &[u8; 32],
    to: &[u8; 32],
    amount: i64,
    signature: &[u8; 64],
) -> (r: bool)
    requires
        amount >= 0,
    ensures
        r == mint_signature_ok(issuer@, to@, amount as int, signature@),
{
    let msg = mint_message(to, amount);
    ed25519_verify(issuer, msg.as_slice(), signature)
}

} // verus!
