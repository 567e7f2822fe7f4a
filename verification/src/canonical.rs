//! The ranges that a public key and a signature's response must lie in.

use vstd::prelude::*;
use vstd::slice::slice_subrange;

use crate::layout::{sign_bit_of, CURVE25519_PUBLIC_KEY_LENGTH, XEDDSA_SIGNATURE_LENGTH};
use crate::magnitude::{
    le_less, le_prefix_value, le_value, lemma_le_value_injective, lemma_run_of_full_bytes,
    lemma_run_of_zero_bytes, pow256,
};

verus! {

/// The prime 2^255 - 19 of the field that the curve's coordinates lie in,
/// with 2^255 written as 128 * 256^31.
pub open spec fn field_prime() -> nat {
    (128 * pow256(31) - 19) as nat
}

/// The order of the group that the base point generates:
/// 2^252 + 27742317777372353535851937790883648493, with 2^252 written as
/// 16 * 256^31.
pub open spec fn group_order() -> nat {
    16 * pow256(31) + 27742317777372353535851937790883648493
}

/// A public key is canonical when it is the one encoding of its
/// u-coordinate: the number it encodes is below the field's prime. Such a key
/// has a clear top bit, and no other 32 bytes stand for the same coordinate.
pub open spec fn canonical_coordinate(public_key: Seq<u8>) -> bool {
    le_value(public_key) < field_prime()
}

/// The response `s` of a signature, its last 32 bytes, is reduced when the
/// number it encodes is below the group order.
pub open spec fn reduced_response(signature: Seq<u8>) -> bool {
    le_value(signature.subrange(32, 64)) < group_order()
}

/// 256^31 is 2^248.
proof fn lemma_top_weight()
    ensures
        pow256(31) == 0x1_00000000_00000000_00000000_00000000_00000000_00000000_00000000_000000,
{
    reveal_with_fuel(pow256, 32);
}

/// A canonical public key has a clear top bit in its last byte.
pub proof fn lemma_canonical_top_bit_clear(public_key: Seq<u8>)
    requires
        public_key.len() == 32,
        canonical_coordinate(public_key),
    ensures
        public_key[31] < 0x80,
{
    let top = public_key[31] as nat;
    let weight = pow256(31);
    assert(le_prefix_value(public_key, 32) == le_prefix_value(public_key, 31) + top * weight);
    lemma_top_weight();
    if top >= 0x80 {
        assert(top * weight >= 0x80 * weight) by (nonlinear_arith)
            requires
                top >= 0x80,
        ;
    }
}

/// Two public keys of different bytes encode different numbers. Both being
/// canonical, the numbers are below the prime, so they are different
/// coordinates: no coordinate has two canonical keys.
pub proof fn lemma_canonical_keys_differ_in_coordinate(first: Seq<u8>, second: Seq<u8>)
    requires
        first.len() == 32,
        second.len() == 32,
        canonical_coordinate(first),
        canonical_coordinate(second),
        first != second,
    ensures
        le_value(first) != le_value(second),
        le_value(first) % field_prime() != le_value(second) % field_prime(),
{
    if le_value(first) == le_value(second) {
        lemma_le_value_injective(first, second);
    }
    lemma_top_weight();
    let p = field_prime();
    let x = le_value(first);
    let y = le_value(second);
    assert(x % p == x && y % p == y) by (nonlinear_arith)
        requires
            x < p,
            y < p,
    ;
}

/// A signature with a reduced response has a last byte of at most `0x10`, so
/// its three top bits, the sign bit among them, are clear.
pub proof fn lemma_reduced_response_last_byte(signature: Seq<u8>)
    requires
        signature.len() == 64,
        reduced_response(signature),
    ensures
        signature[63] <= 0x10,
        !sign_bit_of(signature),
{
    let response = signature.subrange(32, 64);
    let top = response[31] as nat;
    let weight = pow256(31);
    assert(response[31] == signature[63]);
    assert(le_prefix_value(response, 32) == le_prefix_value(response, 31) + top * weight);
    lemma_top_weight();
    if top >= 0x11 {
        assert(top * weight >= 0x11 * weight) by (nonlinear_arith)
            requires
                top >= 0x11,
        ;
    }
}

/// The bytes `ed ff .. ff 7f` encode the field's prime.
proof fn lemma_prime_encoding(bytes: Seq<u8>)
    requires
        bytes.len() == 32,
        bytes[0] == 0xed,
        forall|i: int| 1 <= i < 31 ==> bytes[i] == 0xff,
        bytes[31] == 0x7f,
    ensures
        le_value(bytes) == field_prime(),
{
    reveal_with_fuel(le_prefix_value, 2);
    reveal_with_fuel(pow256, 2);
    assert(le_prefix_value(bytes, 1) == 0xed);
    assert(pow256(1) == 256);
    lemma_run_of_full_bytes(bytes, 1, 31);
    assert(le_prefix_value(bytes, 32) == le_prefix_value(bytes, 31) + 0x7f * pow256(31));
}

/// The 32 bytes that begin with the sixteen low bytes of the group order and
/// end in fifteen zero bytes and `10` encode the group order.
proof fn lemma_order_encoding(bytes: Seq<u8>)
    requires
        bytes.len() == 32,
        bytes[0] == 0xed,
        bytes[1] == 0xd3,
        bytes[2] == 0xf5,
        bytes[3] == 0x5c,
        bytes[4] == 0x1a,
        bytes[5] == 0x63,
        bytes[6] == 0x12,
        bytes[7] == 0x58,
        bytes[8] == 0xd6,
        bytes[9] == 0x9c,
        bytes[10] == 0xf7,
        bytes[11] == 0xa2,
        bytes[12] == 0xde,
        bytes[13] == 0xf9,
        bytes[14] == 0xde,
        bytes[15] == 0x14,
        forall|i: int| 16 <= i < 31 ==> bytes[i] == 0,
        bytes[31] == 0x10,
    ensures
        le_value(bytes) == group_order(),
{
    assert(pow256(8) == 0x1_0000_0000_0000_0000) by {
        reveal_with_fuel(pow256, 9);
    }
    assert(le_prefix_value(bytes, 8) == 0x5812631a5cf5d3ed) by {
        reveal_with_fuel(le_prefix_value, 9);
        reveal_with_fuel(pow256, 9);
    }
    assert(le_prefix_value(bytes, 16) == le_prefix_value(bytes, 8) + 0x14def9dea2f79cd6 * pow256(
        8,
    )) by {
        reveal_with_fuel(le_prefix_value, 9);
        reveal_with_fuel(pow256, 9);
    }
    lemma_run_of_zero_bytes(bytes, 16, 31);
    assert(le_prefix_value(bytes, 32) == le_prefix_value(bytes, 31) + 0x10 * pow256(31));
}

/// Whether a public key is the canonical encoding of its coordinate.
pub fn is_canonical_coordinate(public_key: &[u8; CURVE25519_PUBLIC_KEY_LENGTH]) -> (canonical: bool)
    ensures
        canonical == canonical_coordinate(public_key@),
{
    let prime: [u8; 32] = [
        0xed, 0xff, 0xff, 0xff, 0xff, 0xff, 0xff, 0xff, 0xff, 0xff, 0xff, 0xff, 0xff, 0xff, 0xff,
        0xff, 0xff, 0xff, 0xff, 0xff, 0xff, 0xff, 0xff, 0xff, 0xff, 0xff, 0xff, 0xff, 0xff, 0xff,
        0xff, 0x7f,
    ];
    proof {
        lemma_prime_encoding(prime@);
    }
    le_less(public_key.as_slice(), prime.as_slice())
}

/// Whether the response of a signature is reduced below the group order.
pub fn is_reduced_response(signature: &[u8; XEDDSA_SIGNATURE_LENGTH]) -> (reduced: bool)
    ensures
        reduced == reduced_response(signature@),
{
    let order: [u8; 32] = [
        0xed, 0xd3, 0xf5, 0x5c, 0x1a, 0x63, 0x12, 0x58, 0xd6, 0x9c, 0xf7, 0xa2, 0xde, 0xf9, 0xde,
        0x14, 0x00, 0x00, 0x00, 0x00, 0x00, 0x00, 0x00, 0x00, 0x00, 0x00, 0x00, 0x00, 0x00, 0x00,
        0x00, 0x10,
    ];
    proof {
        lemma_order_encoding(order@);
    }
    let response = slice_subrange(signature.as_slice(), 32, 64);
    le_less(response, order.as_slice())
}

} // verus!
