//! The locker: deriving the master key from the passphrase with Argon2,
//! and checking the passphrase against the stored verifier first. Reading
//! and writing the `salt` and `hash` files is the caller's part.
use vstd::prelude::*;

use argon2::password_hash::rand_core::OsRng;
use argon2::password_hash::{PasswordHash, PasswordHasher, PasswordVerifier, SaltString};
use argon2::Argon2;
use zeroize::Zeroize;

use crate::crypto::KEY_LEN;
use crate::error::VaultError;
use vstd::utf8::encode_utf8;

verus! {

/// Length of the raw salt in bytes.
pub const SALT_LEN: usize = 16;

/// Longest passphrase, in bytes, that Argon2 accepts.
pub const MAX_PASSPHRASE_LEN: usize = 0xFFFFFFFF;

/// The raw salt that a base64 salt string decodes to, in a 16-byte buffer,
/// or nothing when the string is not a valid salt of at most 16 bytes.
pub uninterp spec fn decoded_salt(salt_b64: Seq<char>) -> Option<Seq<u8>>;

/// The PHC string that Argon2 with default parameters makes of a password
/// and a base64 salt, or nothing when the salt is not valid.
pub uninterp spec fn phc_of(password: Seq<u8>, salt_b64: Seq<char>) -> Option<Seq<char>>;

/// Whether a PHC string accepts a password: nothing when the string is not
/// a valid PHC string.
pub uninterp spec fn phc_verdict(phc: Seq<char>, password: Seq<u8>) -> Option<bool>;

/// The 32-byte key that Argon2 with default parameters derives from a
/// password and a raw salt.
pub uninterp spec fn argon2_key(password: Seq<u8>, salt: Seq<u8>) -> Seq<u8>;

/// Relies on `SaltString::generate` with the operating system's generator:
/// a fresh random salt of 16 bytes in base64, which decodes, and with which
/// Argon2 hashes every password of at most 2^32 - 1 bytes.
#[verifier::external_body]
fn fresh_salt() -> (r: String)
    ensures
        decoded_salt(r@) is Some,
        forall|p: Seq<u8>| p.len() <= MAX_PASSPHRASE_LEN ==> #[trigger] phc_of(p, r@) is Some,
{
    SaltString::generate(&mut OsRng).as_str().to_string()
}

/// Relies on `SaltString::from_b64` and `SaltString::decode_b64` into a
/// 16-byte buffer.
#[verifier::external_body]
fn salt_bytes(salt_b64: &str) -> (r: Option<Vec<u8>>)
    ensures
        r is Some <==> decoded_salt(salt_b64@) is Some,
        r matches Some(b) ==> b@ == decoded_salt(salt_b64@)->Some_0 && b@.len() == SALT_LEN,
{
    let salt = SaltString::from_b64(salt_b64).ok()?;
    let mut buf = [0u8; 16];
    salt.decode_b64(&mut buf).ok()?;
    Some(buf.to_vec())
}

/// Relies on `PasswordHasher::hash_password` of `Argon2::default()`: a PHC
/// string that embeds the salt and the parameters, and that accepts the
/// password it was made from.
#[verifier::external_body]
fn phc_hash(password: &[u8], salt_b64: &str) -> (r: Option<String>)
    ensures
        r is Some <==> phc_of(password@, salt_b64@) is Some,
        r matches Some(h) ==> h@ == phc_of(password@, salt_b64@)->Some_0 && phc_verdict(
            h@,
            password@,
        ) == Some(true),
{
    let salt = SaltString::from_b64(salt_b64).ok()?;
    match Argon2::default().hash_password(password, &salt) {
        Ok(h) => Some(h.to_string()),
        Err(_) => None,
    }
}

/// Relies on `PasswordHash::new` and `PasswordVerifier::verify_password`:
/// parses the PHC string and checks the password against it in constant
/// time.
#[verifier::external_body]
fn phc_check(password: &[u8], phc: &str) -> (r: Option<bool>)
    ensures
        r == phc_verdict(phc@, password@),
{
    let hash = PasswordHash::new(phc).ok()?;
    Some(Argon2::default().verify_password(password, &hash).is_ok())
}

/// Relies on `Argon2::hash_password_into` with default parameters: it
/// fails only for a password longer than 2^32 - 1 bytes or a salt shorter
/// than 8 bytes, and fills the 32-byte output with the derived key.
#[verifier::external_body]
fn derive_key(password: &[u8], salt: &[u8]) -> (r: Option<Vec<u8>>)
    requires
        salt@.len() == SALT_LEN,
    ensures
        r is Some <==> password@.len() <= MAX_PASSPHRASE_LEN,
        r matches Some(k) ==> k@ == argon2_key(password@, salt@) && k@.len() == KEY_LEN,
{
    let mut key = [0u8; 32];
    Argon2::default().hash_password_into(password, salt, &mut key).ok()?;
    Some(key.to_vec())
}

/// Relies on `Zeroize` for `Vec<u8>`: the bytes are overwritten with zeros
/// and the vector is left empty.
#[verifier::external_body]
pub(crate) fn scrub(v: &mut Vec<u8>)
    ensures
        final(v)@.len() == 0,
    opens_invariants none
    no_unwind
{
    v.zeroize();
}

/// What opening a locker yields for a passphrase (as UTF-8 bytes), the
/// salt file and the verifier file: the verifier is consulted before any
/// key is derived, and a rejected passphrase is reported as such.
pub open spec fn open_outcome(password: Seq<u8>, salt_b64: Seq<char>, phc: Seq<char>) -> Result<
    Seq<u8>,
    VaultError,
> {
    match decoded_salt(salt_b64) {
        None => Err(VaultError::CorruptStore),
        Some(salt) => match phc_verdict(phc, password) {
            None => Err(VaultError::CorruptStore),
            Some(false) => Err(VaultError::InvalidPassphrase),
            Some(true) => if password.len() <= MAX_PASSPHRASE_LEN {
                Ok(argon2_key(password, salt))
            } else {
                Err(VaultError::BadArgument)
            },
        },
    }
}

/// A locker directory and, once opened, the master key.
pub struct Locker {
    base_dir: String,
    key: Option<Vec<u8>>,
}

impl Locker {
    /// The directory of the locker.
    pub closed spec fn dir(&self) -> Seq<char> {
        self.base_dir@
    }

    /// The master key, if the locker holds one.
    pub closed spec fn master_key(&self) -> Option<Seq<u8>> {
        match self.key {
            Some(k) => Some(k@),
            None => None,
        }
    }

    /// Opens the locker at `base_dir` from the contents of its `salt` and
    /// `hash` files. A wrong passphrase fails with `InvalidPassphrase`
    /// before any key is derived or any secret is read.
    pub fn unlock(base_dir: String, passphrase: &str, salt_text: &str, hash_text: &str) -> (r:
        Result<Locker, VaultError>)
        ensures
            match open_outcome(encode_utf8(passphrase@), salt_text@, hash_text@) {
                Ok(k) => r matches Ok(l) && l.master_key() == Some(k) && l.dir() == base_dir@
                    && k.len() == KEY_LEN,
                Err(e) => r matches Err(x) && x == e,
            },
    {
        let password = passphrase.as_bytes();
        let salt = match salt_bytes(salt_text) {
            Some(s) => s,
            None => {
                return Err(VaultError::CorruptStore);
            },
        };
        match phc_check(password, hash_text) {
            None => {
                return Err(VaultError::CorruptStore);
            },
            Some(false) => {
                return Err(VaultError::InvalidPassphrase);
            },
            Some(true) => {},
        }
        match derive_key(password, salt.as_slice()) {
            Some(k) => Ok(Locker { base_dir, key: Some(k) }),
            None => Err(VaultError::BadArgument),
        }
    }

    /// Creates a locker at `base_dir` with the base64 salt `salt_b64`.
    /// Returns the locker, holding the derived key, and the verifier to
    /// store in its `hash` file, which accepts this passphrase.
    pub fn create_with_salt(base_dir: String, passphrase: &str, salt_b64: &str) -> (r: Result<
        (Locker, String),
        VaultError,
    >)
        ensures
            r matches Ok((l, h)) ==> {
                &&& h@ == phc_of(encode_utf8(passphrase@), salt_b64@)->Some_0
                &&& phc_verdict(h@, encode_utf8(passphrase@)) == Some(true)
                &&& decoded_salt(salt_b64@) is Some
                &&& l.master_key() == Some(
                    argon2_key(encode_utf8(passphrase@), decoded_salt(salt_b64@)->Some_0),
                )
                &&& l.master_key() matches Some(k) && k.len() == KEY_LEN
                &&& l.dir() == base_dir@
            },
            phc_of(encode_utf8(passphrase@), salt_b64@) is None || decoded_salt(salt_b64@) is None
                ==> r == Err::<(Locker, String), VaultError>(VaultError::CorruptStore),
            phc_of(encode_utf8(passphrase@), salt_b64@) is Some && decoded_salt(salt_b64@) is Some
                ==> (r is Ok <==> encode_utf8(passphrase@).len() <= MAX_PASSPHRASE_LEN),
    {
        let password = passphrase.as_bytes();
        let hash = match phc_hash(password, salt_b64) {
            Some(h) => h,
            None => {
                return Err(VaultError::CorruptStore);
            },
        };
        let salt = match salt_bytes(salt_b64) {
            Some(s) => s,
            None => {
                return Err(VaultError::CorruptStore);
            },
        };
        match derive_key(password, salt.as_slice()) {
            Some(k) => Ok((Locker { base_dir, key: Some(k) }, hash)),
            None => Err(VaultError::BadArgument),
        }
    }

    /// Creates a locker at `base_dir` with a fresh random salt. Returns the
    /// locker, the salt to store in its `salt` file and the verifier to
    /// store in its `hash` file.
    pub fn create(base_dir: String, passphrase: &str) -> (r: Result<(Locker, String, String), VaultError>)
        ensures
            r matches Ok((l, salt, h)) ==> {
                &&& phc_verdict(h@, encode_utf8(passphrase@)) == Some(true)
                &&& decoded_salt(salt@) is Some
                &&& l.master_key() == Some(
                    argon2_key(encode_utf8(passphrase@), decoded_salt(salt@)->Some_0),
                )
                &&& l.master_key() matches Some(k) && k.len() == KEY_LEN
                &&& l.dir() == base_dir@
            },
            encode_utf8(passphrase@).len() <= MAX_PASSPHRASE_LEN ==> r is Ok,
    {
        let salt = fresh_salt();
        match Self::create_with_salt(base_dir, passphrase, salt.as_str()) {
            Ok((l, h)) => Ok((l, salt, h)),
            Err(e) => Err(e),
        }
    }

    /// The path of `filename` inside the locker.
    pub fn get_path(&self, filename: &str) -> (r: String)
        ensures
            r@ == self.dir() + "/"@ + filename@,
    {
        self.base_dir.clone().concat("/").concat(filename)
    }

    /// The master key, for use during one operation.
    pub fn get_key(&self) -> (r: Option<&[u8]>)
        ensures
            match self.master_key() {
                Some(k) => r matches Some(x) && x@ == k,
                None => r is None,
            },
    {
        match &self.key {
            Some(k) => Some(k.as_slice()),
            None => None,
        }
    }

    /// The locker directory.
    pub fn base_dir(&self) -> (r: &String)
        ensures
            r@ == self.dir(),
    {
        &self.base_dir
    }

    /// Scrubs the master key from memory; the locker holds no key after.
    pub fn lock(&mut self)
        ensures
            final(self).master_key() is None,
            final(self).dir() == old(self).dir(),
        opens_invariants none
        no_unwind
    {
        match &mut self.key {
            Some(k) => scrub(k),
            None => {},
        }
        self.key = None;
    }
}

impl Drop for Locker {
    /// The master key is scrubbed when the locker goes away.
    fn drop(&mut self)
        opens_invariants none
        no_unwind
    {
        self.lock();
    }
}

/// A locker opens with the passphrase it was created with, and yields the
/// key that creation derived.
pub proof fn lemma_open_after_create(password: Seq<u8>, salt_b64: Seq<char>, phc: Seq<char>)
    requires
        phc_verdict(phc, password) == Some(true),
        decoded_salt(salt_b64) is Some,
        password.len() <= MAX_PASSPHRASE_LEN,
    ensures
        open_outcome(password, salt_b64, phc) == Ok::<Seq<u8>, VaultError>(
            argon2_key(password, decoded_salt(salt_b64)->Some_0),
        ),
{
}

/// A passphrase that the verifier rejects never yields a key.
pub proof fn lemma_wrong_passphrase_rejected(password: Seq<u8>, salt_b64: Seq<char>, phc: Seq<char>)
    requires
        decoded_salt(salt_b64) is Some,
        phc_verdict(phc, password) == Some(false),
    ensures
        open_outcome(password, salt_b64, phc) == Err::<Seq<u8>, VaultError>(
            VaultError::InvalidPassphrase,
        ),
{
}

} // verus!
