//! The cipher that secrets are stored under, and the random bytes it needs.
use chacha20poly1305::aead::{Aead, KeyInit};
use chacha20poly1305::{ChaCha20Poly1305, Key, Nonce};
use rand::rngs::OsRng;
use rand::RngCore;
use vstd::prelude::*;

verus! {

/// The bytes of a key.
pub const KEY_LEN: usize = 32;

/// The bytes of a nonce.
pub const NONCE_LEN: usize = 12;

/// What ChaCha20-Poly1305 encrypts `plaintext` to: the encrypted bytes, then the tag.
pub uninterp spec fn sealed(key: Seq<u8>, nonce: Seq<u8>, plaintext: Seq<u8>) -> Seq<u8>;

/// What ChaCha20-Poly1305 decrypts `ciphertext` to, or nothing where its tag does not fit.
pub uninterp spec fn opened(key: Seq<u8>, nonce: Seq<u8>, ciphertext: Seq<u8>) -> Option<Seq<u8>>;

/// Whether `n` bytes are more than the cipher takes.
pub open spec fn too_long(n: int) -> bool {
    n / 64 >= u32::MAX
}

/// Whether `n` bytes pass the cipher's check of the length and yet run out of its key stream.
pub open spec fn outruns_key_stream(n: int) -> bool {
    64 * (u32::MAX - 1) < n && !too_long(n)
}

/// `chacha20poly1305::aead::Error`, which says nothing but that there was an error.
#[verifier::external_type_specification]
#[verifier::external_body]
pub struct ExCipherError(chacha20poly1305::aead::Error);

/// `Aead::encrypt` of `ChaCha20Poly1305` with no associated data. It is a function of its three
/// arguments; it fails exactly on messages that are too long; what it returns is as long as the
/// message and a tag of 16 bytes, and decrypts to the message.
#[verifier::external_body]
pub(crate) fn encrypt(key: &Vec<u8>, nonce: &Vec<u8>, plaintext: &Vec<u8>) -> (r: Result<
    Vec<u8>,
    chacha20poly1305::aead::Error,
>)
    requires
        key@.len() == KEY_LEN,
        nonce@.len() == NONCE_LEN,
        !outruns_key_stream(plaintext@.len() as int),
        plaintext@.len() + 16 <= isize::MAX,
    ensures
        match r {
            Ok(ciphertext) => {
                &&& !too_long(plaintext@.len() as int)
                &&& ciphertext@ == sealed(key@, nonce@, plaintext@)
                &&& ciphertext@.len() == plaintext@.len() + 16
                &&& opened(key@, nonce@, ciphertext@) == Some(plaintext@)
            },
            Err(_) => too_long(plaintext@.len() as int),
        },
{
    ChaCha20Poly1305::new(Key::from_slice(key)).encrypt(Nonce::from_slice(nonce), plaintext.as_slice())
}

/// `Aead::decrypt` of `ChaCha20Poly1305` with no associated data: a function of its three
/// arguments.
#[verifier::external_body]
pub(crate) fn decrypt(key: &Vec<u8>, nonce: &Vec<u8>, ciphertext: &Vec<u8>) -> (r: Result<
    Vec<u8>,
    chacha20poly1305::aead::Error,
>)
    requires
        key@.len() == KEY_LEN,
        nonce@.len() == NONCE_LEN,
        !outruns_key_stream(ciphertext@.len() - 16),
    ensures
        match r {
            Ok(plaintext) => opened(key@, nonce@, ciphertext@) == Some(plaintext@),
            Err(_) => opened(key@, nonce@, ciphertext@) is None,
        },
{
    ChaCha20Poly1305::new(Key::from_slice(key)).decrypt(Nonce::from_slice(nonce), ciphertext.as_slice())
}

/// `RngCore::fill_bytes` of `OsRng` on a buffer of `n` zeros: every byte of it is replaced by one
/// from the operating system. No more is promised of the bytes than how many there are; a system
/// that has no random bytes to give stops the program.
#[verifier::external_body]
pub fn random_bytes(n: usize) -> (r: Vec<u8>)
    requires
        n <= isize::MAX,
    ensures
        r@.len() == n,
{
    let mut bytes = vec![0u8; n];
    OsRng.fill_bytes(bytes.as_mut_slice());
    bytes
}

} // verus!
