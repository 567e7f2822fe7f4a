//! XEdDSA signatures over Curve25519 keys, on fixed-size byte arrays.
//!
//! A 32-byte X25519 private key signs a message; the matching 32-byte X25519
//! public key verifies the 64-byte signature. The curve arithmetic is done by
//! the `xeddsa` and `x25519-dalek` crates; this crate states what their results
//! are to each other, and itself checks that a public key is canonical and
//! that a signature's sign bit and response are in range.

pub mod canonical;
pub mod curve;
pub mod layout;
pub mod magnitude;
pub mod scheme;

pub use canonical::{is_canonical_coordinate, is_reduced_response};
pub use layout::{
    sign_bit, CURVE25519_PRIVATE_KEY_LENGTH, CURVE25519_PUBLIC_KEY_LENGTH,
    XEDDSA_SIGNATURE_LENGTH,
};
pub use magnitude::le_less;
pub use scheme::{derive_public_key, sign_for_buffer, xeddsa_sign, xeddsa_verify};
