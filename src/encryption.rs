use vstd::prelude::*;
use vstd::utf8::encode_utf8;

use aes_gcm::aead::{AeadCore, AeadInPlace, KeyInit};
use aes_gcm::Aes256Gcm;
use rand_core::{OsRng, RngCore};

use crate::secrets::{AesKeyValue, PasswordValue};

verus! {

/// Length of a nonce and of a key derivation salt.
pub const NONCE_SIZE_BYTES: usize = 12;

/// Length of an authentication tag.
pub const TAG_SIZE_BYTES: usize = 16;

/// Longest plaintext that AES-GCM seals, in bytes.
pub const PLAINTEXT_MAX: u64 = 0x10_0000_0000;

/// Longest associated data that AES-GCM authenticates, in bytes.
pub const ASSOCIATED_DATA_MAX: u64 = 0x10_0000_0000;

/// Longest password that Argon2 accepts, in bytes.
pub const PASSWORD_MAX: usize = 0xFFFF_FFFF;

/// The 32-byte Argon2id key for a password and a salt.
pub uninterp spec fn argon2id_key(password: Seq<u8>, salt: Seq<u8>) -> Seq<u8>;

/// What AES-256-GCM makes of a plaintext: the ciphertext and the tag.
pub uninterp spec fn aes_gcm_sealed(key: Seq<u8>, nonce: Seq<u8>, ad: Seq<u8>, plaintext: Seq<u8>) -> (Seq<u8>, Seq<u8>);

/// The plaintext that AES-256-GCM recovers from a ciphertext and a tag, if
/// the tag verifies.
pub uninterp spec fn aes_gcm_opened(key: Seq<u8>, nonce: Seq<u8>, ad: Seq<u8>, ciphertext: Seq<u8>, tag: Seq<u8>) -> Option<Seq<u8>>;

#[verifier::external_type_specification]
#[verifier::external_body]
pub struct ExAeadError(aes_gcm::Error);

#[verifier::external_type_specification]
#[verifier::external_body]
pub struct ExArgon2Error(argon2::Error);

/// Why a cryptographic operation failed.
#[derive(Debug)]
pub enum EncryptionError {
    KeyGeneration(String),
    Encryption(String),
    Decryption(String),
}

/// Relies on rand_core's `OsRng::fill_bytes`: the bytes come from the
/// operating system's generator (which panics if that generator fails).
#[verifier::external_body]
fn os_random_bytes(buf: &mut [u8; 12]) {
    OsRng.fill_bytes(buf)
}

/// Relies on aes_gcm's `AeadCore::generate_nonce` over `OsRng`: a random
/// 96-bit nonce (it panics if the operating system's generator fails).
#[verifier::external_body]
pub(crate) fn random_nonce() -> [u8; 12] {
    Aes256Gcm::generate_nonce(OsRng).into()
}

/// Relies on argon2's `Argon2::default().hash_password_into` (Argon2id,
/// version 0x13, default costs): the output depends on the password and the
/// salt alone, and with a 12-byte salt and a 32-byte output it fails only on
/// a password longer than 0xFFFFFFFF bytes.
#[verifier::external_body]
fn argon2id_hash(password: &[u8], salt: &[u8; 12], out: &mut [u8; 32]) -> (r: Result<(), argon2::Error>)
    ensures
        r is Ok <==> (password@.len() <= PASSWORD_MAX),
        r is Ok ==> final(out)@ == argon2id_key(password@, salt@),
{
    argon2::Argon2::default().hash_password_into(password, salt, out)
}

/// Relies on aes_gcm's `Aes256Gcm::encrypt_in_place_detached`: it refuses a
/// plaintext or associated data longer than 2^36 bytes and then leaves the
/// buffer as it was; otherwise the buffer becomes the ciphertext and the tag
/// is returned.
#[verifier::external_body]
pub(crate) fn aes_gcm_seal(key: &[u8; 32], nonce: &[u8; 12], ad: &[u8], buffer: &mut [u8]) -> (r: Result<[u8; 16], aes_gcm::Error>)
    ensures
        final(buffer)@.len() == old(buffer)@.len(),
        r is Ok <==> (final(buffer)@.len() <= PLAINTEXT_MAX && ad@.len() <= ASSOCIATED_DATA_MAX),
        r is Ok ==> final(buffer)@ == aes_gcm_sealed(key@, nonce@, ad@, old(buffer)@).0,
        r is Ok ==> r->Ok_0@ == aes_gcm_sealed(key@, nonce@, ad@, old(buffer)@).1,
        r is Err ==> final(buffer)@ == old(buffer)@,
{
    let cipher = Aes256Gcm::new(key.into());
    cipher.encrypt_in_place_detached(nonce.into(), ad, buffer).map(|tag| tag.into())
}

/// Relies on aes_gcm's `Aes256Gcm::decrypt_in_place_detached`: the buffer
/// becomes the plaintext when the tag verifies and is left as it was
/// otherwise. Opening recomputes the tag over the associated data and the
/// ciphertext exactly as sealing computed it, and applies the same
/// nonce-derived keystream, so a ciphertext and tag that sealing gave open to
/// the plaintext they were sealed from.
#[verifier::external_body]
fn aes_gcm_open(key: &[u8; 32], nonce: &[u8; 12], ad: &[u8], buffer: &mut [u8], tag: &[u8; 16]) -> (r: Result<(), aes_gcm::Error>)
    ensures
        r is Ok <==> aes_gcm_opened(key@, nonce@, ad@, old(buffer)@, tag@) is Some,
        r is Ok ==> aes_gcm_opened(key@, nonce@, ad@, old(buffer)@, tag@) == Some(final(buffer)@),
        r is Err ==> final(buffer)@ == old(buffer)@,
        forall|p: Seq<u8>|
            #![trigger aes_gcm_sealed(key@, nonce@, ad@, p)]
            p.len() <= PLAINTEXT_MAX && ad@.len() <= ASSOCIATED_DATA_MAX
                && aes_gcm_sealed(key@, nonce@, ad@, p) == (old(buffer)@, tag@) ==> r is Ok
                && final(buffer)@ == p,
{
    let cipher = Aes256Gcm::new(key.into());
    cipher.decrypt_in_place_detached(nonce.into(), ad, buffer, tag.into())
}

/// Seals `buffer` in place under `key` with a fresh random nonce, binding
/// `associated_data` to it; returns the tag and the nonce.
pub fn encrypt_in_place(key: &AesKeyValue, associated_data: &[u8], buffer: &mut [u8]) -> (r: Result<([u8; 16], [u8; 12]), EncryptionError>)
    ensures
        final(buffer)@.len() == old(buffer)@.len(),
        r is Ok <==> (old(buffer)@.len() <= PLAINTEXT_MAX && associated_data@.len() <= ASSOCIATED_DATA_MAX),
        r matches Ok((tag, nonce)) ==> aes_gcm_sealed(key.value@, nonce@, associated_data@, old(buffer)@) == (final(buffer)@, tag@),
        r matches Err(e) ==> e is Encryption && final(buffer)@ == old(buffer)@,
{
    let nonce = random_nonce();
    match aes_gcm_seal(&key.value, &nonce, associated_data, buffer) {
        Ok(tag) => Ok((tag, nonce)),
        Err(e) => Err(EncryptionError::Encryption(e.to_string())),
    }
}

/// Opens `buffer` in place: succeeds only when `tag` verifies the ciphertext
/// and `associated_data` under `key` and `nonce`.
pub fn decrypt_in_place(key: &AesKeyValue, nonce: &[u8; 12], associated_data: &[u8], buffer: &mut [u8], tag: &[u8; 16]) -> (r: Result<(), EncryptionError>)
    ensures
        r is Ok <==> aes_gcm_opened(key.value@, nonce@, associated_data@, old(buffer)@, tag@) is Some,
        r is Ok ==> aes_gcm_opened(key.value@, nonce@, associated_data@, old(buffer)@, tag@) == Some(final(buffer)@),
        r matches Err(e) ==> e is Decryption && final(buffer)@ == old(buffer)@,
        forall|p: Seq<u8>|
            #![trigger aes_gcm_sealed(key.value@, nonce@, associated_data@, p)]
            p.len() <= PLAINTEXT_MAX && associated_data@.len() <= ASSOCIATED_DATA_MAX
                && aes_gcm_sealed(key.value@, nonce@, associated_data@, p) == (old(buffer)@, tag@) ==> r is Ok
                && final(buffer)@ == p,
{
    match aes_gcm_open(&key.value, nonce, associated_data, buffer, tag) {
        Ok(()) => Ok(()),
        Err(e) => Err(EncryptionError::Decryption(e.to_string())),
    }
}

/// Deriving a key is deterministic: the same passphrase and salt give the
/// same key.
pub proof fn lemma_derived_key_is_stable(pass_a: Seq<char>, salt_a: Seq<u8>, pass_b: Seq<char>, salt_b: Seq<u8>)
    requires
        pass_a == pass_b,
        salt_a == salt_b,
    ensures
        argon2id_key(encode_utf8(pass_a), salt_a) == argon2id_key(encode_utf8(pass_b), salt_b),
{
}

/// A fresh random salt for a new store.
pub fn generate_new_salt() -> [u8; 12] {
    let mut salt = [0u8; 12];
    os_random_bytes(&mut salt);
    salt
}

/// Derives the key of a store from a passphrase and the store's salt.
pub fn generate_key(password: &PasswordValue, key_derivation_salt: &[u8; 12]) -> (r: Result<AesKeyValue, EncryptionError>)
    ensures
        r is Ok <==> (encode_utf8(password.value@).len() <= PASSWORD_MAX),
        r matches Ok(k) ==> k.value@ == argon2id_key(encode_utf8(password.value@), key_derivation_salt@),
        r matches Err(e) ==> e is KeyGeneration,
{
    let mut key = AesKeyValue::default();
    match argon2id_hash(password.value.as_str().as_bytes(), key_derivation_salt, &mut key.value) {
        Ok(()) => Ok(key),
        Err(e) => Err(EncryptionError::KeyGeneration(e.to_string())),
    }
}

} // verus!
