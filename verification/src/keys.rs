//! Ed25519 keys and signatures, as the `ed25519-dalek` crate computes them.
use vstd::prelude::*;

use ed25519_dalek::{Signer as _, Verifier as _};

verus! {

#[verifier::external_type_specification]
#[verifier::external_body]
pub struct ExVerifyingKey(ed25519_dalek::VerifyingKey);

#[verifier::external_type_specification]
#[verifier::external_body]
pub struct ExSigningKey(ed25519_dalek::SigningKey);

#[verifier::external_type_specification]
#[verifier::external_body]
pub struct ExSignature(ed25519_dalek::Signature);

/// The 32 bytes encode a point that `VerifyingKey::from_bytes` accepts.
pub uninterp spec fn ed25519_public_key_valid(bytes: Seq<u8>) -> bool;

/// `VerifyingKey::verify` accepts `signature` over `message` for the public key `public_key`.
pub uninterp spec fn ed25519_signature_valid(
    public_key: Seq<u8>,
    message: Seq<u8>,
    signature: Seq<u8>,
) -> bool;

/// The 64 signature bytes `SigningKey::sign` makes over `message` with the secret key `secret`.
pub uninterp spec fn ed25519_signature_of(secret: Seq<u8>, message: Seq<u8>) -> Seq<u8>;

/// The 32-byte public key (`SigningKey::verifying_key`) of the secret key `secret`.
pub uninterp spec fn ed25519_public_of(secret: Seq<u8>) -> Seq<u8>;

/// An Ed25519 public key together with the 32 bytes it was read from.
pub struct Ed25519PublicKey {
    bytes: Vec<u8>,
    key: ed25519_dalek::VerifyingKey,
}

impl Ed25519PublicKey {
    /// The encoded key.
    pub closed spec fn encoded(&self) -> Seq<u8> {
        self.bytes@
    }
}

/// An Ed25519 secret key together with the 32 bytes it was read from.
pub struct Ed25519SecretKey {
    bytes: Vec<u8>,
    key: ed25519_dalek::SigningKey,
}

impl Ed25519SecretKey {
    /// The encoded secret key.
    pub closed spec fn encoded(&self) -> Seq<u8> {
        self.bytes@
    }
}

/// An Ed25519 signature together with the 64 bytes it was read from.
pub struct Ed25519Signature {
    bytes: Vec<u8>,
    signature: ed25519_dalek::Signature,
}

impl Ed25519Signature {
    /// The encoded signature.
    pub closed spec fn encoded(&self) -> Seq<u8> {
        self.bytes@
    }
}

/// `<VerifyingKey as TryFrom<&[u8]>>::try_from`: accepts 32 bytes that encode a
/// curve point ([`ed25519_public_key_valid`]).
#[verifier::external_body]
pub(crate) fn ed25519_public_key(bytes: &[u8]) -> (r: Option<Ed25519PublicKey>)
    ensures
        r is Some <==> (bytes@.len() == 32 && ed25519_public_key_valid(bytes@)),
        r matches Some(k) ==> k.encoded() == bytes@,
{
    match ed25519_dalek::VerifyingKey::try_from(bytes) {
        Ok(key) => Some(Ed25519PublicKey { bytes: bytes.to_vec(), key }),
        Err(_) => None,
    }
}

/// `<SigningKey as TryFrom<&[u8]>>::try_from`: accepts any 32 bytes.
#[verifier::external_body]
pub(crate) fn ed25519_secret_key(bytes: &[u8]) -> (r: Option<Ed25519SecretKey>)
    ensures
        r is Some <==> bytes@.len() == 32,
        r matches Some(k) ==> k.encoded() == bytes@,
{
    match ed25519_dalek::SigningKey::try_from(bytes) {
        Ok(key) => Some(Ed25519SecretKey { bytes: bytes.to_vec(), key }),
        Err(_) => None,
    }
}

/// `Signature::from_slice`: accepts exactly 64 bytes.
#[verifier::external_body]
pub(crate) fn ed25519_signature(bytes: &[u8]) -> (r: Option<Ed25519Signature>)
    ensures
        r is Some <==> bytes@.len() == 64,
        r matches Some(s) ==> s.encoded() == bytes@,
{
    match ed25519_dalek::Signature::from_slice(bytes) {
        Ok(signature) => Some(Ed25519Signature { bytes: bytes.to_vec(), signature }),
        Err(_) => None,
    }
}

/// `VerifyingKey::verify`; whether it accepts is named [`ed25519_signature_valid`].
#[verifier::external_body]
pub(crate) fn ed25519_verify(key: &Ed25519PublicKey, message: &[u8], signature: &Ed25519Signature) -> (r:
    bool)
    ensures
        r == ed25519_signature_valid(key.encoded(), message@, signature.encoded()),
{
    key.key.verify(message, &signature.signature).is_ok()
}

/// `SigningKey::sign`, as its 64 bytes (`Signature::to_bytes`); the signature is
/// named [`ed25519_signature_of`] of the secret key and the message.
#[verifier::external_body]
pub(crate) fn ed25519_sign(key: &Ed25519SecretKey, message: &[u8]) -> (r: Vec<u8>)
    ensures
        r@ == ed25519_signature_of(key.encoded(), message@),
        r@.len() == 64,
{
    key.key.sign(message).to_bytes().to_vec()
}

/// `SigningKey::verifying_key`, as its 32 bytes (`VerifyingKey::to_bytes`); the key
/// is named [`ed25519_public_of`] of the secret key. As the crate documents, it is a
/// valid public key and accepts every signature the secret key makes.
#[verifier::external_body]
pub(crate) fn ed25519_public_key_of(key: &Ed25519SecretKey) -> (r: Vec<u8>)
    ensures
        r@ == ed25519_public_of(key.encoded()),
        r@.len() == 32,
        ed25519_public_key_valid(r@),
        forall|m: Seq<u8>|
            #[trigger] ed25519_signature_valid(r@, m, ed25519_signature_of(key.encoded(), m)),
{
    key.key.verifying_key().to_bytes().to_vec()
}

} // verus!
