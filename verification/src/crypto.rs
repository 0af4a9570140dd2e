//! Ed25519 keys and signatures over byte messages.
use vstd::prelude::*;
use ed25519_dalek::{Signer, SigningKey, VerifyingKey};
use crate::address::Address;
use crate::bytes::{compare_bytes, Cmp};

verus! {

/// The 32 secret bytes an Ed25519 signing key is made from.
pub struct SecretKey(pub [u8; 32]);

impl SecretKey {
    pub fn new(bytes: [u8; 32]) -> (r: Self)
        ensures
            r.0 == bytes,
    {
        Self(bytes)
    }

    pub fn as_bytes(&self) -> (r: &[u8; 32])
        ensures
            *r == self.0,
    {
        &self.0
    }
}

/// The 64 bytes of an Ed25519 signature.
#[derive(Debug, Clone, Copy, PartialEq, Eq, Hash)]
pub struct Signature(pub [u8; 64]);

impl View for Signature {
    type V = Seq<u8>;

    open spec fn view(&self) -> Seq<u8> {
        self.0@
    }
}

impl Signature {
    pub fn new(bytes: [u8; 64]) -> (r: Self)
        ensures
            r.0 == bytes,
    {
        Self(bytes)
    }

    pub fn as_bytes(&self) -> (r: &[u8; 64])
        ensures
            *r == self.0,
    {
        &self.0
    }
}

/// Why a signature was not accepted.
#[derive(Debug, Clone, Copy, PartialEq, Eq)]
pub enum VerificationError {
    InvalidVerifyingKey,
    FailedToVerify,
}

/// Another name for [`VerificationError`].
pub type VerifyError = VerificationError;

/// `ed25519_dalek::SignatureError`, the error of decoding a key or verifying a
/// signature; it is only carried through, never looked into.
#[verifier::external_type_specification]
#[verifier::external_body]
pub struct ExSignatureError(ed25519_dalek::SignatureError);

/// The compressed verifying key that Ed25519 derives from a secret key.
pub uninterp spec fn ed25519_public_key(secret: Seq<u8>) -> Seq<u8>;

/// The deterministic Ed25519 signature of `message` under the key made from `secret`.
pub uninterp spec fn ed25519_signature(secret: Seq<u8>, message: Seq<u8>) -> Seq<u8>;

/// Whether 32 bytes decompress to a curve point, so that they can serve as a verifying key.
pub uninterp spec fn ed25519_key_decodes(public: Seq<u8>) -> bool;

/// Whether strict Ed25519 verification accepts `signature` on `message` under `public`.
pub uninterp spec fn ed25519_verify_strict(public: Seq<u8>, message: Seq<u8>, signature: Seq<u8>) -> bool;

/// `ed25519_dalek::SigningKey::from_bytes`, then `verifying_key().to_bytes()`:
/// the compressed verifying key of the secret, which is a function of the secret alone.
#[verifier::external_body]
fn derive_verifying_key(secret: &[u8; 32]) -> (r: [u8; 32])
    ensures
        r@ == ed25519_public_key(secret@),
{
    SigningKey::from_bytes(secret).verifying_key().to_bytes()
}

/// `ed25519_dalek::SigningKey::from_bytes`, then `Signer::sign` and `to_bytes`:
/// Ed25519 signing is deterministic, so the signature is a function of the secret
/// and the message.
#[verifier::external_body]
fn ed25519_sign(secret: &[u8; 32], message: &[u8]) -> (r: [u8; 64])
    ensures
        r@ == ed25519_signature(secret@, message@),
{
    SigningKey::from_bytes(secret).sign(message).to_bytes()
}

/// `ed25519_dalek::VerifyingKey::from_bytes` on `public`, and, when that succeeds,
/// `VerifyingKey::verify_strict` of `signature` on `message`. The outer result is the
/// outcome of decoding the key, the inner one that of verification; both depend on the
/// bytes handed over alone.
#[verifier::external_body]
fn ed25519_verify(public: &[u8; 32], message: &[u8], signature: &[u8; 64]) -> (r: Result<
    Result<(), ed25519_dalek::SignatureError>,
    ed25519_dalek::SignatureError,
>)
    ensures
        r is Ok <==> ed25519_key_decodes(public@),
        r matches Ok(inner) ==> (inner is Ok <==> ed25519_verify_strict(
            public@,
            message@,
            signature@,
        )),
{
    match VerifyingKey::from_bytes(public) {
        Ok(key) => Ok(key.verify_strict(message, &ed25519_dalek::Signature::from_bytes(signature))),
        Err(err) => Err(err),
    }
}

/// What [`verify`] answers for an address, a signature and a message.
pub open spec fn verify_outcome(address: Seq<u8>, signature: Seq<u8>, message: Seq<u8>) -> Result<
    (),
    VerificationError,
> {
    if !ed25519_key_decodes(address) {
        Err(VerificationError::InvalidVerifyingKey)
    } else if !ed25519_verify_strict(address, message, signature) {
        Err(VerificationError::FailedToVerify)
    } else {
        Ok(())
    }
}

/// Signs `message` with `secret_key`.
pub fn sign(secret_key: &SecretKey, message: &[u8]) -> (r: Signature)
    ensures
        r@ == ed25519_signature(secret_key.0@, message@),
{
    Signature::new(ed25519_sign(secret_key.as_bytes(), message))
}

/// Checks that `signature` is a strict Ed25519 signature of `message` by the key
/// whose bytes are `address`.
pub fn verify(address: &Address, signature: &Signature, message: &[u8]) -> (r: Result<
    (),
    VerificationError,
>)
    ensures
        r == verify_outcome(address@, signature@, message@),
{
    match ed25519_verify(address.as_bytes(), message, signature.as_bytes()) {
        Err(_) => Err(VerificationError::InvalidVerifyingKey),
        Ok(Err(_)) => Err(VerificationError::FailedToVerify),
        Ok(Ok(())) => Ok(()),
    }
}

/// The address that signatures by `secret_key` verify against.
pub fn address_from_secret_key(secret_key: &SecretKey) -> (r: Address)
    ensures
        r@ == ed25519_public_key(secret_key.0@),
{
    Address::new(derive_verifying_key(secret_key.as_bytes()))
}

/// Two signatures with the same bytes are the same signature.
pub proof fn lemma_signature_view_injective(a: Signature, b: Signature)
    requires
        a@ == b@,
    ensures
        a == b,
{
    broadcast use vstd::array::group_array_axioms;

    assert(a.0 =~= b.0) by {
        assert forall|i: int| 0 <= i < 64 implies a.0[i] == b.0[i] by {
            assert(a.0@[i] == b.0@[i]);
        }
    }
}

/// Whether two signatures are the same.
pub fn same_signature(a: &Signature, b: &Signature) -> (r: bool)
    ensures
        r <==> a == b,
{
    let c = compare_bytes(a.0.as_slice(), b.0.as_slice());
    proof {
        if a@ == b@ {
            lemma_signature_view_injective(*a, *b);
        }
    }
    match c {
        Cmp::Equal => true,
        _ => false,
    }
}

} // verus!
