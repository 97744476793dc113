//! Key material as it travels: the SEC1 bytes of a P-256 public key and the DER bytes of an
//! ECDSA signature. The library carries these bytes and has the `p256` crate decide whether
//! they are well formed; it neither signs nor verifies.

use crate::error::Error;
use vstd::prelude::*;
use vstd::slice::slice_to_vec;

verus! {

/// The length of the longest SEC1 encoding of a P-256 point: a tag byte and two coordinates.
pub const MAX_SEC1_LEN: usize = 65;

/// The length of the longest DER encoding of a P-256 ECDSA signature that the parser has room
/// for.
pub const MAX_DER_LEN: usize = 73;

/// Whether `p256::PublicKey::from_sec1_bytes` accepts `bytes`.
pub uninterp spec fn sec1_public_key(bytes: Seq<u8>) -> bool;

/// Whether `p256::ecdsa::Signature::from_der` accepts `bytes`.
pub uninterp spec fn der_signature(bytes: Seq<u8>) -> bool;

/// Calls `p256::PublicKey::from_sec1_bytes` and tells whether it returned a key.
///
/// Trusted: that the outcome depends on the bytes alone, and that the parser accepts nothing
/// longer than a tag byte and two 32-byte coordinates. It compares the length of its input
/// with the length that the tag byte asks for before it does anything else.
#[verifier::external_body]
fn parses_as_public_key(bytes: &[u8]) -> (ok: bool)
    ensures
        ok == sec1_public_key(bytes@),
        ok ==> bytes@.len() <= MAX_SEC1_LEN,
{
    p256::PublicKey::from_sec1_bytes(bytes).is_ok()
}

/// Calls `p256::ecdsa::Signature::from_der` and tells whether it returned a signature.
///
/// Trusted: that the outcome depends on the bytes alone. The parser copies what it accepts
/// into a buffer of `MAX_DER_LEN` bytes, so it is not handed more.
#[verifier::external_body]
fn parses_as_signature(bytes: &[u8]) -> (ok: bool)
    requires
        bytes@.len() <= MAX_DER_LEN,
    ensures
        ok == der_signature(bytes@),
{
    p256::ecdsa::Signature::from_der(bytes).is_ok()
}

/// A P-256 public key, held as the SEC1 bytes that the parser accepted.
#[derive(Debug, PartialEq, Eq)]
pub struct PublicKey {
    sec1: Vec<u8>,
}

impl View for PublicKey {
    type V = Seq<u8>;

    closed spec fn view(&self) -> Seq<u8> {
        self.sec1@
    }
}

impl PublicKey {
    #[verifier::type_invariant]
    spec fn accepted(&self) -> bool {
        sec1_public_key(self.sec1@) && self.sec1@.len() <= MAX_SEC1_LEN
    }

    /// The key that `bytes` encode, compressed or uncompressed; `InvalidPublicKey` where the
    /// parser refuses them.
    pub fn from_sec1_bytes(bytes: &[u8]) -> (r: Result<PublicKey, Error>)
        ensures
            match r {
                Ok(key) => key@ == bytes@ && sec1_public_key(bytes@),
                Err(e) => e == Error::InvalidPublicKey && !sec1_public_key(bytes@),
            },
    {
        if parses_as_public_key(bytes) {
            Ok(PublicKey { sec1: slice_to_vec(bytes) })
        } else {
            Err(Error::InvalidPublicKey)
        }
    }

    /// A second copy of the key.
    pub fn duplicate(&self) -> (r: PublicKey)
        ensures
            r@ == self@,
    {
        proof {
            use_type_invariant(self);
        }
        PublicKey { sec1: slice_to_vec(self.sec1.as_slice()) }
    }

    /// The SEC1 bytes of the key.
    pub fn to_sec1_bytes(&self) -> (bytes: Vec<u8>)
        ensures
            bytes@ == self@,
            sec1_public_key(bytes@),
            bytes@.len() <= MAX_SEC1_LEN,
    {
        proof {
            use_type_invariant(self);
        }
        slice_to_vec(self.sec1.as_slice())
    }
}

/// A P-256 ECDSA signature, held as the DER bytes that the parser accepted.
#[derive(Debug, PartialEq, Eq)]
pub struct Signature {
    der: Vec<u8>,
}

impl View for Signature {
    type V = Seq<u8>;

    closed spec fn view(&self) -> Seq<u8> {
        self.der@
    }
}

impl Signature {
    #[verifier::type_invariant]
    spec fn accepted(&self) -> bool {
        der_signature(self.der@) && self.der@.len() <= MAX_DER_LEN
    }

    /// The signature that `bytes` encode; `InvalidSignature` where they are longer than
    /// `MAX_DER_LEN` or the parser refuses them.
    pub fn from_der(bytes: &[u8]) -> (r: Result<Signature, Error>)
        ensures
            match r {
                Ok(signature) => signature@ == bytes@ && bytes@.len() <= MAX_DER_LEN
                    && der_signature(bytes@),
                Err(e) => e == Error::InvalidSignature && !(bytes@.len() <= MAX_DER_LEN
                    && der_signature(bytes@)),
            },
    {
        if bytes.len() <= MAX_DER_LEN && parses_as_signature(bytes) {
            Ok(Signature { der: slice_to_vec(bytes) })
        } else {
            Err(Error::InvalidSignature)
        }
    }

    /// A second copy of the signature.
    pub fn duplicate(&self) -> (r: Signature)
        ensures
            r@ == self@,
    {
        proof {
            use_type_invariant(self);
        }
        Signature { der: slice_to_vec(self.der.as_slice()) }
    }

    /// The DER bytes of the signature.
    pub fn to_der(&self) -> (bytes: Vec<u8>)
        ensures
            bytes@ == self@,
            der_signature(bytes@),
            bytes@.len() <= MAX_DER_LEN,
    {
        proof {
            use_type_invariant(self);
        }
        slice_to_vec(self.der.as_slice())
    }
}

} // verus!
