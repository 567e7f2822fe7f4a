//! Signing and verifying.

use vstd::prelude::*;

use crate::canonical::{
    canonical_coordinate, is_canonical_coordinate, is_reduced_response,
    lemma_canonical_top_bit_clear, lemma_reduced_response_last_byte, reduced_response,
};
use crate::curve::{
    x25519_public, x25519_public_key, xed25519_sign, xed25519_verifies, xed25519_verify,
};
use crate::layout::{
    sign_bit, sign_bit_of, CURVE25519_PRIVATE_KEY_LENGTH, CURVE25519_PUBLIC_KEY_LENGTH,
    SIGN_BIT_MASK, SIGN_BYTE_INDEX, XEDDSA_SIGNATURE_LENGTH,
};

verus! {

/// When a signature is sound for a message and a public key, whatever the
/// encoding of the key.
///
/// The signer always works with the Edwards public key of sign 0 and says so
/// in the sign bit, so a signature with the sign bit set names a key that no
/// signer used and is never sound. The response must be reduced below the
/// group order. Then the Schnorr equation decides, checked against the
/// Edwards key of sign 0.
pub open spec fn signature_sound(
    public_key: Seq<u8>,
    message: Seq<u8>,
    signature: Seq<u8>,
) -> bool {
    &&& !sign_bit_of(signature)
    &&& reduced_response(signature)
    &&& xed25519_verifies(public_key, message, signature)
}

/// When a signature is accepted for a message under an X25519 public key: the
/// signature is sound for them, and the public key is the canonical encoding
/// of its coordinate, so that no second key of other bytes stands for the
/// same point.
pub open spec fn signature_accepted(
    public_key: Seq<u8>,
    message: Seq<u8>,
    signature: Seq<u8>,
) -> bool {
    canonical_coordinate(public_key) && signature_sound(public_key, message, signature)
}

/// The X25519 public key that belongs to a private key. It is canonical.
pub fn derive_public_key(private_key: &[u8; CURVE25519_PRIVATE_KEY_LENGTH]) -> (public_key: [u8;
    CURVE25519_PUBLIC_KEY_LENGTH])
    ensures
        public_key@ == x25519_public_key(private_key@),
        canonical_coordinate(public_key@),
        public_key@[31] < 0x80,
{
    let public_key = x25519_public(private_key);
    proof {
        lemma_canonical_top_bit_clear(public_key@);
    }
    public_key
}

/// Signs `message` with `private_key`, drawing the nonce from the operating
/// system's entropy.
///
/// Whatever the nonce, the signature is sound for the public key that
/// [`derive_public_key`] gives for `private_key`, which is canonical, so
/// [`xeddsa_verify`] accepts it under that key. Its response is reduced below
/// the group order, so its last byte is at most `0x10` and its sign bit is
/// clear.
///
/// Panics if the operating system hands out no entropy.
pub fn xeddsa_sign(
    private_key: &[u8; CURVE25519_PRIVATE_KEY_LENGTH],
    message: &[u8],
) -> (signature: [u8; XEDDSA_SIGNATURE_LENGTH])
    ensures
        signature_sound(x25519_public_key(private_key@), message@, signature@),
        signature@[63] <= 0x10,
{
    let signature = xed25519_sign(private_key, message);
    proof {
        lemma_reduced_response_last_byte(signature@);
    }
    signature
}

/// Signs for a caller whose signature buffer comes from an allocator that may
/// refuse.
///
/// With no buffer granted nothing is signed, no entropy is drawn, and the
/// result is `None`. With a buffer granted the result is the whole signature
/// to copy into it, as [`xeddsa_sign`] gives it.
///
/// Panics if a buffer was granted and the operating system hands out no
/// entropy.
pub fn sign_for_buffer(
    private_key: &[u8; CURVE25519_PRIVATE_KEY_LENGTH],
    message: &[u8],
    buffer_granted: bool,
) -> (signature: Option<[u8; XEDDSA_SIGNATURE_LENGTH]>)
    ensures
        signature is Some <==> buffer_granted,
        signature matches Some(bytes) ==> {
            &&& signature_sound(x25519_public_key(private_key@), message@, bytes@)
            &&& bytes@[63] <= 0x10
        },
{
    if !buffer_granted {
        return None;
    }
    Some(xeddsa_sign(private_key, message))
}

/// Checks `signature` on `message` against `public_key`. Every failure, of
/// whatever cause, is `false`.
///
/// A public key that is not canonical, a signature with the sign bit set and
/// a response that is not reduced are rejected here, before the curve
/// arithmetic is asked.
pub fn xeddsa_verify(
    public_key: &[u8; CURVE25519_PUBLIC_KEY_LENGTH],
    message: &[u8],
    signature: &[u8; XEDDSA_SIGNATURE_LENGTH],
) -> (valid: bool)
    ensures
        valid == signature_accepted(public_key@, message@, signature@),
        valid ==> public_key@[31] < 0x80 && signature@[63] <= 0x10,
{
    if !is_canonical_coordinate(public_key) {
        return false;
    }
    if sign_bit(signature) {
        return false;
    }
    if !is_reduced_response(signature) {
        return false;
    }
    proof {
        lemma_canonical_top_bit_clear(public_key@);
        lemma_reduced_response_last_byte(signature@);
    }
    xed25519_verify(public_key, message, signature).is_ok()
}

/// Flipping the sign bit of an accepted signature gives one that is rejected,
/// for the same key and message.
pub proof fn lemma_sign_bit_flip_rejected(public_key: Seq<u8>, message: Seq<u8>, signature: Seq<u8>)
    requires
        signature.len() == XEDDSA_SIGNATURE_LENGTH,
        signature_accepted(public_key, message, signature),
    ensures
        !signature_accepted(
            public_key,
            message,
            signature.update(
                SIGN_BYTE_INDEX as int,
                signature[SIGN_BYTE_INDEX as int] ^ SIGN_BIT_MASK,
            ),
        ),
{
    let last: u8 = signature[SIGN_BYTE_INDEX as int];
    assert(last < 0x80 ==> (last ^ 0x80) >= 0x80) by (bit_vector);
}

/// Flipping any of the three top bits of the last byte of an accepted
/// signature gives one that is rejected: its response is no longer reduced.
pub proof fn lemma_response_top_bits_flip_rejected(
    public_key: Seq<u8>,
    message: Seq<u8>,
    signature: Seq<u8>,
    bit: u8,
)
    requires
        signature.len() == XEDDSA_SIGNATURE_LENGTH,
        signature_accepted(public_key, message, signature),
        5 <= bit < 8,
    ensures
        !signature_accepted(
            public_key,
            message,
            signature.update(63, signature[63] ^ (1u8 << bit)),
        ),
{
    let last: u8 = signature[63];
    let flipped = signature.update(63, last ^ (1u8 << bit));
    lemma_reduced_response_last_byte(signature);
    assert(last <= 0x10 && 5 <= bit < 8 ==> (last ^ (1u8 << bit)) > 0x10) by (bit_vector);
    if reduced_response(flipped) {
        lemma_reduced_response_last_byte(flipped);
    }
}

/// Flipping the top bit of the public key of an accepted signature gives a
/// key under which the signature is rejected.
pub proof fn lemma_key_top_bit_flip_rejected(
    public_key: Seq<u8>,
    message: Seq<u8>,
    signature: Seq<u8>,
)
    requires
        public_key.len() == CURVE25519_PUBLIC_KEY_LENGTH,
        signature_accepted(public_key, message, signature),
    ensures
        !signature_accepted(public_key.update(31, public_key[31] ^ 0x80), message, signature),
{
    let last: u8 = public_key[31];
    let flipped = public_key.update(31, last ^ 0x80);
    lemma_canonical_top_bit_clear(public_key);
    assert(last < 0x80 ==> (last ^ 0x80) >= 0x80) by (bit_vector);
    if canonical_coordinate(flipped) {
        lemma_canonical_top_bit_clear(flipped);
    }
}

/// A public key with the top bit of its last byte set is never accepted, and
/// neither is a signature whose last byte is above `0x10`.
pub proof fn lemma_out_of_range_rejected(public_key: Seq<u8>, message: Seq<u8>, signature: Seq<u8>)
    requires
        public_key.len() == CURVE25519_PUBLIC_KEY_LENGTH,
        signature.len() == XEDDSA_SIGNATURE_LENGTH,
        public_key[31] >= 0x80 || signature[63] > 0x10,
    ensures
        !signature_accepted(public_key, message, signature),
{
    if canonical_coordinate(public_key) {
        lemma_canonical_top_bit_clear(public_key);
    }
    if reduced_response(signature) {
        lemma_reduced_response_last_byte(signature);
    }
}

} // verus!
