//! Authenticated encryption of byte strings with AES-256-GCM.
//!
//! A sealed blob is a fresh 12-byte nonce followed by the ciphertext and
//! the 16-byte authentication tag.
use vstd::prelude::*;

use aes_gcm::aead::{Aead, KeyInit};
use aes_gcm::{Aes256Gcm, Key, Nonce};
use rand::Rng;

verus! {

/// Length of the key in bytes.
pub const KEY_LEN: usize = 32;

/// Length of the nonce that prefixes every sealed blob.
pub const NONCE_LEN: usize = 12;

/// Length of the authentication tag that ends every sealed blob.
pub const TAG_LEN: usize = 16;

/// Largest plaintext that AES-GCM accepts, in bytes.
pub const MAX_PLAINTEXT_LEN: u64 = 68719476736;

/// What AES-256-GCM decryption yields for a key, a nonce and a ciphertext
/// with its tag: the plaintext when the tag authenticates, else nothing.
pub uninterp spec fn gcm_open(key: Seq<u8>, nonce: Seq<u8>, ciphertext: Seq<u8>) -> Option<
    Seq<u8>,
>;

/// Why a blob could not be opened. Carries nothing that would tell which
/// byte failed.
#[derive(Debug, Clone, Copy, PartialEq, Eq, Structural)]
pub enum CryptoError {
    /// The plaintext is longer than AES-GCM accepts.
    TooLong,
    /// The blob is shorter than a nonce and a tag, or does not authenticate.
    Rejected,
}

/// What opening `blob` under `key` yields: the blob must hold a nonce and a
/// tag, and the rest must authenticate.
pub open spec fn open_blob(key: Seq<u8>, blob: Seq<u8>) -> Option<Seq<u8>> {
    if blob.len() < NONCE_LEN + TAG_LEN {
        None
    } else {
        gcm_open(key, blob.take(NONCE_LEN as int), blob.skip(NONCE_LEN as int))
    }
}

/// `blob` is a sealing of `plaintext` under `key`.
pub open spec fn sealed(key: Seq<u8>, plaintext: Seq<u8>, blob: Seq<u8>) -> bool {
    &&& blob.len() == NONCE_LEN + plaintext.len() + TAG_LEN
    &&& open_blob(key, blob) == Some(plaintext)
}

/// Relies on rand's thread-local generator (`Rng::random`) for twelve
/// bytes from a cryptographically secure source.
#[verifier::external_body]
fn fresh_nonce() -> (r: Vec<u8>)
    ensures
        r@.len() == NONCE_LEN,
{
    let nonce: [u8; 12] = rand::rng().random();
    nonce.to_vec()
}

/// Relies on `Aes256Gcm::encrypt`: it fails exactly for a plaintext longer
/// than P_MAX, and its output is the ciphertext, of the plaintext's length,
/// followed by a 16-byte tag, which decrypts back to the plaintext under the
/// same key and nonce.
#[verifier::external_body]
fn gcm_seal(key: &[u8], nonce: &[u8], plaintext: &[u8]) -> (r: Option<Vec<u8>>)
    requires
        key@.len() == KEY_LEN,
        nonce@.len() == NONCE_LEN,
    ensures
        plaintext@.len() <= MAX_PLAINTEXT_LEN <==> r is Some,
        r matches Some(c) ==> c@.len() == plaintext@.len() + TAG_LEN && gcm_open(
            key@,
            nonce@,
            c@,
        ) == Some(plaintext@),
{
    let cipher = Aes256Gcm::new(Key::<Aes256Gcm>::from_slice(key));
    cipher.encrypt(Nonce::from_slice(nonce), plaintext).ok()
}

/// Relies on `Aes256Gcm::decrypt`: it returns the plaintext exactly when
/// the tag authenticates the ciphertext under the key and nonce.
#[verifier::external_body]
fn gcm_decrypt(key: &[u8], nonce: &[u8], ciphertext: &[u8]) -> (r: Option<Vec<u8>>)
    requires
        key@.len() == KEY_LEN,
        nonce@.len() == NONCE_LEN,
    ensures
        r matches Some(p) ==> gcm_open(key@, nonce@, ciphertext@) == Some(p@),
        r is None ==> gcm_open(key@, nonce@, ciphertext@) is None,
{
    let cipher = Aes256Gcm::new(Key::<Aes256Gcm>::from_slice(key));
    cipher.decrypt(Nonce::from_slice(nonce), ciphertext).ok()
}

/// Seals `data` under `key` with a fresh random nonce: the result is the
/// nonce followed by the ciphertext and its tag.
pub fn encrypt(data: &[u8], key: &[u8]) -> (r: Result<Vec<u8>, CryptoError>)
    requires
        key@.len() == KEY_LEN,
    ensures
        data@.len() <= MAX_PLAINTEXT_LEN <==> r is Ok,
        r matches Ok(blob) ==> sealed(key@, data@, blob@),
        r matches Err(e) ==> e == CryptoError::TooLong,
{
    let nonce = fresh_nonce();
    match gcm_seal(key, nonce.as_slice(), data) {
        Some(body) => {
            let mut out = nonce.clone();
            let mut i: usize = 0;
            while i < body.len()
                invariant
                    i <= body@.len(),
                    out@ == nonce@ + body@.take(i as int),
                decreases body@.len() - i,
            {
                out.push(body[i]);
                i = i + 1;
                proof {
                    assert(body@.take(i as int) == body@.take(i - 1).push(body@[i - 1]));
                }
            }
            proof {
                assert(body@.take(body@.len() as int) == body@);
                assert(out@.take(NONCE_LEN as int) == nonce@);
                assert(out@.skip(NONCE_LEN as int) == body@);
            }
            Ok(out)
        },
        None => Err(CryptoError::TooLong),
    }
}

/// Opens a blob made by `encrypt`. A blob shorter than a nonce and a tag,
/// or one that does not authenticate under `key`, is rejected.
pub fn decrypt(data: &[u8], key: &[u8]) -> (r: Result<Vec<u8>, CryptoError>)
    requires
        key@.len() == KEY_LEN,
    ensures
        r matches Ok(p) ==> open_blob(key@, data@) == Some(p@),
        r is Err ==> open_blob(key@, data@) is None && r == Err::<Vec<u8>, CryptoError>(
            CryptoError::Rejected,
        ),
{
    if data.len() < NONCE_LEN + TAG_LEN {
        return Err(CryptoError::Rejected);
    }
    let mut nonce: Vec<u8> = Vec::new();
    let mut rest: Vec<u8> = Vec::new();
    let mut i: usize = 0;
    while i < data.len()
        invariant
            i <= data@.len(),
            data@.len() >= NONCE_LEN + TAG_LEN,
            i <= NONCE_LEN ==> nonce@ == data@.take(i as int) && rest@.len() == 0,
            i > NONCE_LEN ==> nonce@ == data@.take(NONCE_LEN as int) && rest@ == data@.subrange(
                NONCE_LEN as int,
                i as int,
            ),
        decreases data@.len() - i,
    {
        if i < NONCE_LEN {
            nonce.push(data[i]);
            proof {
                assert(data@.take(i + 1) == data@.take(i as int).push(data@[i as int]));
            }
        } else {
            rest.push(data[i]);
            proof {
                assert(data@.subrange(NONCE_LEN as int, i + 1) == data@.subrange(
                    NONCE_LEN as int,
                    i as int,
                ).push(data@[i as int]));
            }
        }
        i = i + 1;
    }
    proof {
        assert(rest@ == data@.skip(NONCE_LEN as int));
    }
    match gcm_decrypt(key, nonce.as_slice(), rest.as_slice()) {
        Some(p) => Ok(p),
        None => Err(CryptoError::Rejected),
    }
}

/// Decrypting what `encrypt` sealed under the same key gives back the
/// plaintext.
pub proof fn lemma_decrypt_inverts_encrypt(key: Seq<u8>, plaintext: Seq<u8>, blob: Seq<u8>)
    requires
        sealed(key, plaintext, blob),
    ensures
        open_blob(key, blob) == Some(plaintext),
{
}

} // verus!
