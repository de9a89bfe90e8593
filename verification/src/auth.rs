//! Room password admission control.
//!
//! This layer is not encryption: the transport already encrypts every connection and
//! checks the other side's identity by its public key. The password only says "not
//! everyone who gets hold of this code may come in".
//!
//! The password never travels: the coordinator sends a random nonce and the client
//! answers with `Argon2id(password, nonce)`. A fresh nonce per connection means a
//! captured proof cannot be replayed.
use vstd::prelude::*;
use vstd::utf8::encode_utf8;

use argon2::Argon2;
use rand::rngs::OsRng;
use rand::TryRngCore;
use subtle::ConstantTimeEq;

verus! {

pub type Nonce = [u8; 16];

pub type Proof = [u8; 32];

#[verifier::external_type_specification]
#[verifier::external_body]
pub struct ExArgon2Error(argon2::Error);

/// Why no proof could be derived.
#[derive(Debug, Clone, Copy, PartialEq, Eq)]
pub enum AuthError {
    /// The key derivation refused its input: a password over `u32::MAX` bytes.
    KeyDerivation,
}

/// The 32 bytes that Argon2id, with argon2's default parameters (19 MiB, two passes,
/// one lane, version 0x13), derives from a password and a salt.
pub uninterp spec fn argon2id_default(password: Seq<u8>, salt: Seq<u8>) -> Seq<u8>;

/// `Argon2::default().hash_password_into` into a 32-byte buffer.
///
/// Claimed of argon2 0.5.3: with the default parameters a 32-byte output and a 16-byte
/// salt are always within bounds, so the call fails exactly when the password is longer
/// than `u32::MAX` bytes; otherwise the buffer holds the derivation named
/// `argon2id_default`.
#[verifier::external_body]
fn argon2id_32(password: &[u8], salt: &[u8; 16]) -> (r: Result<[u8; 32], argon2::Error>)
    ensures
        r is Ok <==> password@.len() <= u32::MAX,
        r matches Ok(key) ==> key@ == argon2id_default(password@, salt@),
{
    let mut out = [0u8; 32];
    match Argon2::default().hash_password_into(password, salt, &mut out) {
        Ok(()) => Ok(out),
        Err(e) => Err(e),
    }
}

/// subtle's `ConstantTimeEq::ct_eq` on two 32-byte arrays, as a `bool`.
///
/// Claimed of subtle 2.6.1: the slice comparison yields 1 exactly when the lengths and
/// every byte agree, and `bool::from` turns 1 into `true`.
#[verifier::external_body]
fn equal_in_constant_time(a: &[u8; 32], b: &[u8; 32]) -> (r: bool)
    ensures
        r == (a@ == b@),
{
    a.ct_eq(b).into()
}

/// rand's `OsRng::try_fill_bytes` on sixteen bytes: the operating system's generator,
/// asked directly. `None` where the operating system refuses. Nothing is claimed of the
/// bytes, nor of when the operating system refuses.
#[verifier::external_body]
fn sixteen_random_bytes() -> Option<[u8; 16]> {
    let mut bytes = [0u8; 16];
    match OsRng.try_fill_bytes(&mut bytes) {
        Ok(()) => Some(bytes),
        Err(_) => None,
    }
}

/// A nonce for one handshake, or `None` where the operating system gives no random
/// bytes.
pub fn random_nonce() -> Option<Nonce> {
    sixteen_random_bytes()
}

/// The proof a password gives for a nonce: Argon2id over the password's UTF-8 bytes,
/// salted with the nonce. None where the derivation refuses the password.
pub open spec fn proof_for(password: Seq<char>, nonce: Seq<u8>) -> Option<Seq<u8>> {
    if encode_utf8(password).len() <= u32::MAX {
        Some(argon2id_default(encode_utf8(password), nonce))
    } else {
        None
    }
}

/// Whether a presented proof is the one the password gives for the nonce.
pub open spec fn accepts(password: Seq<char>, nonce: Seq<u8>, presented: Seq<u8>) -> bool {
    proof_for(password, nonce) == Some(presented)
}

/// Derives a proof from a password and a nonce.
///
/// Passwordless rooms use the empty string, so there is a single path through the
/// handshake and no "is there a password" branch leaks into the protocol.
pub fn password_proof(password: &str, nonce: &Nonce) -> (r: Result<Proof, AuthError>)
    ensures
        match proof_for(password@, nonce@) {
            Some(expected) => r matches Ok(p) && p@ == expected,
            None => r == Err::<Proof, AuthError>(AuthError::KeyDerivation),
        },
{
    match argon2id_32(password.as_bytes(), nonce) {
        Ok(out) => Ok(out),
        Err(_) => Err(AuthError::KeyDerivation),
    }
}

/// Checks a proof, comparing in constant time so that no timing leaks.
pub fn verify(password: &str, nonce: &Nonce, presented: &Proof) -> (r: bool)
    ensures
        r == accepts(password@, nonce@, presented@),
{
    match password_proof(password, nonce) {
        Ok(expected) => equal_in_constant_time(&expected, presented),
        Err(_) => false,
    }
}

/// The proof a password derives for a nonce is accepted for that password and nonce.
pub proof fn lemma_own_proof_is_accepted(password: Seq<char>, nonce: Seq<u8>, derived: Seq<u8>)
    requires
        proof_for(password, nonce) == Some(derived),
    ensures
        accepts(password, nonce, derived),
{
}

/// A password and a nonce always derive the same proof.
pub proof fn lemma_derivation_is_deterministic(password: Seq<char>, nonce: Seq<u8>, first: Seq<u8>, second: Seq<u8>)
    requires
        proof_for(password, nonce) == Some(first),
        proof_for(password, nonce) == Some(second),
    ensures
        first == second,
{
}

/// A passwordless room goes through the same derivation, and it never fails.
pub proof fn lemma_empty_password_derives(nonce: Seq<u8>)
    ensures
        proof_for(Seq::<char>::empty(), nonce) is Some,
{
    assert(encode_utf8(Seq::<char>::empty()) =~= Seq::<u8>::empty());
}

} // verus!
