//! The byte layout of keys and signatures.

use vstd::prelude::*;

verus! {

/// Length in bytes of an X25519 private key.
pub const CURVE25519_PRIVATE_KEY_LENGTH: usize = 32;

/// Length in bytes of an X25519 public key.
pub const CURVE25519_PUBLIC_KEY_LENGTH: usize = 32;

/// Length in bytes of a signature: the commitment `R`, then the response `s`.
pub const XEDDSA_SIGNATURE_LENGTH: usize = 64;

/// Index of the byte of a signature whose top bit carries the sign of the
/// Edwards public key: the last byte.
pub const SIGN_BYTE_INDEX: usize = 63;

/// Mask of the sign bit within its byte: the top bit.
pub const SIGN_BIT_MASK: u8 = 0x80;

/// The sign of the Edwards public key that a signature names. It is the top
/// bit of the last byte, so it is set exactly when that byte is 128 or more.
pub open spec fn sign_bit_of(signature: Seq<u8>) -> bool {
    signature[SIGN_BYTE_INDEX as int] >= SIGN_BIT_MASK
}

/// Reads the sign bit of a signature.
pub fn sign_bit(signature: &[u8; XEDDSA_SIGNATURE_LENGTH]) -> (bit: bool)
    ensures
        bit == sign_bit_of(signature@),
{
    let last: u8 = signature[SIGN_BYTE_INDEX];
    assert((last & 0x80 != 0) == (last >= 0x80)) by (bit_vector);
    (last & SIGN_BIT_MASK) != 0
}

} // verus!
