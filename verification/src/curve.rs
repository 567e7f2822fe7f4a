//! The calls into the curve libraries, and what is taken on trust of them.
//!
//! Nothing in this file is proved. Each function below hands its arguments to
//! `xeddsa` or `x25519-dalek` unchanged, and its contract records what those
//! crates compute.

use vstd::prelude::*;
use xeddsa::{Sign, Verify};

use crate::canonical::{canonical_coordinate, reduced_response};
use crate::layout::{
    CURVE25519_PRIVATE_KEY_LENGTH, CURVE25519_PUBLIC_KEY_LENGTH, XEDDSA_SIGNATURE_LENGTH,
};

verus! {

/// The failure that `xeddsa` reports from verification. Its variants are not
/// looked into: every failure means that the signature is not accepted.
#[verifier::external_type_specification]
#[verifier::external_body]
pub struct ExVerifyError(xeddsa::Error);

/// The X25519 public key of a private key: the Montgomery u-coordinate of the
/// clamped scalar times the base point, as
/// `x25519_dalek::PublicKey::from(&StaticSecret)` computes it.
pub uninterp spec fn x25519_public_key(private_key: Seq<u8>) -> Seq<u8>;

/// Whether `xeddsa`'s XEd25519 `verify` returns `Ok` for this public key,
/// message and signature: the public key converts to an Edwards point of
/// sign 0, and the Schnorr equation holds for it.
pub uninterp spec fn xed25519_verifies(
    public_key: Seq<u8>,
    message: Seq<u8>,
    signature: Seq<u8>,
) -> bool;

/// Calls `x25519_dalek::PublicKey::from(&StaticSecret)` on the private key's
/// bytes. The result is a function of those bytes alone, named
/// [`x25519_public_key`]. It is claimed to be canonical: `curve25519-dalek`
/// serialises a field element as the one number below the prime.
#[verifier::external_body]
pub(crate) fn x25519_public(private_key: &[u8; CURVE25519_PRIVATE_KEY_LENGTH]) -> (public_key: [u8;
    CURVE25519_PUBLIC_KEY_LENGTH])
    ensures
        public_key@ == x25519_public_key(private_key@),
        canonical_coordinate(public_key@),
{
    let secret = x25519_dalek::StaticSecret::from(*private_key);
    x25519_dalek::PublicKey::from(&secret).to_bytes()
}

/// Calls `xeddsa`'s `Verify::verify` for XEd25519 on the public key's bytes.
/// The outcome is `Ok` exactly when [`xed25519_verifies`] holds of the three
/// arguments; which error comes otherwise is left open.
#[verifier::external_body]
pub(crate) fn xed25519_verify(
    public_key: &[u8; CURVE25519_PUBLIC_KEY_LENGTH],
    message: &[u8],
    signature: &[u8; XEDDSA_SIGNATURE_LENGTH],
) -> (outcome: Result<(), xeddsa::Error>)
    ensures
        outcome is Ok <==> xed25519_verifies(public_key@, message@, signature@),
{
    let montgomery = x25519_dalek::PublicKey::from(*public_key);
    xeddsa::xed25519::PublicKey::from(&montgomery).verify(message, signature)
}

/// Calls `xeddsa`'s `Sign::sign` for XEd25519 with `rand::rngs::OsRng` as the
/// source of the 64 nonce bytes, so two calls on one input may differ.
///
/// Claimed of every signature that comes back: `xeddsa`'s `verify` accepts it
/// under the X25519 public key of the same private key, and its response `s`
/// is reduced below the group order, because `curve25519-dalek` keeps every
/// scalar that arithmetic gives reduced.
///
/// `OsRng` panics if the operating system hands out no entropy.
#[verifier::external_body]
pub(crate) fn xed25519_sign(
    private_key: &[u8; CURVE25519_PRIVATE_KEY_LENGTH],
    message: &[u8],
) -> (signature: [u8; XEDDSA_SIGNATURE_LENGTH])
    ensures
        xed25519_verifies(x25519_public_key(private_key@), message@, signature@),
        reduced_response(signature@),
{
    xeddsa::xed25519::PrivateKey::from(private_key).sign(message, rand::rngs::OsRng)
}

} // verus!
