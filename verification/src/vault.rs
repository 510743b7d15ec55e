//! The secret-vault flow: salt lifecycle and key derivation.
//!
//! On first run a random 32-byte salt is drawn, hex-encoded and written to
//! a dedicated file; on every later run the file's content is used as it
//! stands and the file is never rewritten.  Unlocking derives a 32-byte
//! key from the user's password and the salt with a deliberately slow,
//! memory-hard function; the key is recomputed on every unlock and never
//! persisted.  The application does the file reads and writes and hands
//! this module plain values.

use vstd::prelude::*;
use crate::encoding::{bytes_to_hex, hex_bytes};

verus! {

/// Why the vault could not be prepared.  Either failure is fatal at
/// startup: the application cannot proceed without a working vault.
#[derive(Clone, Copy, Debug, PartialEq, Eq, Structural)]
pub enum VaultError {
    /// The operating system's random source failed.
    RandomSource,
    /// The key-derivation function refused its input.
    Derivation,
}

impl VaultError {
    /// The message reported when startup aborts on this error.
    pub open spec fn spec_message(self) -> Seq<char> {
        match self {
            VaultError::RandomSource => "failed to generate random salt"@,
            VaultError::Derivation => "failed to hash password"@,
        }
    }

    /// Renders the startup failure message.
    pub fn message(&self) -> (r: String)
        ensures
            r@ == self.spec_message(),
    {
        match self {
            VaultError::RandomSource => "failed to generate random salt".to_owned(),
            VaultError::Derivation => "failed to hash password".to_owned(),
        }
    }
}

/// The key that the memory-hard derivation returns for a password and a
/// salt.  It is a function of the two inputs alone: the same pair always
/// yields the same 32 bytes, in every process and on every machine.
pub uninterp spec fn derived_key_of(password: Seq<u8>, salt: Seq<u8>) -> Seq<u8>;

/// Relies on argon2: `Argon2::hash_password_into` with the Argon2id
/// algorithm, version 0x13 and fixed cost parameters (memory 10000 KiB,
/// 10 passes, parallelism 4) fills a 32-byte output from the password and
/// salt alone, and succeeds for every password of at most 2^32 - 1 bytes
/// and every salt of 8 to 2^32 - 1 bytes.
#[verifier::external_body]
fn argon2id_derive(password: &[u8], salt: &[u8]) -> (r: Result<Vec<u8>, VaultError>)
    requires
        password@.len() <= 0xFFFFFFFF,
        8 <= salt@.len() <= 0xFFFFFFFF,
    ensures
        r is Ok,
        r matches Ok(k) ==> k@ == derived_key_of(password@, salt@) && k@.len() == 32,
{
    let params = match argon2::Params::new(10_000, 10, 4, None) {
        Ok(p) => p,
        Err(_) => return Err(VaultError::Derivation),
    };
    let argon = argon2::Argon2::new(argon2::Algorithm::Argon2id, argon2::Version::V0x13, params);
    let mut key = [0u8; 32];
    match argon.hash_password_into(password, salt, &mut key) {
        Ok(()) => Ok(key.to_vec()),
        Err(_) => Err(VaultError::Derivation),
    }
}

/// Relies on getrandom: `fill` fills the buffer from the operating
/// system's random source or reports an error; nothing is promised of the
/// bytes themselves.
#[verifier::external_body]
fn os_random_32() -> (r: Result<Vec<u8>, VaultError>)
    ensures
        r matches Ok(b) ==> b@.len() == 32,
        r is Err ==> r->Err_0 == VaultError::RandomSource,
{
    let mut buf = [0u8; 32];
    match getrandom::fill(&mut buf) {
        Ok(()) => Ok(buf.to_vec()),
        Err(_) => Err(VaultError::RandomSource),
    }
}

/// Derives the 32-byte vault key from a password and the salt file's
/// bytes.  Inputs the derivation function would refuse are refused here,
/// before it runs; every accepted pair yields `derived_key_of` exactly.
pub fn derive_vault_key(password: &[u8], salt: &[u8]) -> (r: Result<Vec<u8>, VaultError>)
    ensures
        password@.len() <= 0xFFFFFFFF && 8 <= salt@.len() <= 0xFFFFFFFF ==> {
            &&& r is Ok
            &&& r->Ok_0@ == derived_key_of(password@, salt@)
            &&& r->Ok_0@.len() == 32
        },
        !(password@.len() <= 0xFFFFFFFF && 8 <= salt@.len() <= 0xFFFFFFFF) ==> r == Err::<
            Vec<u8>,
            VaultError,
        >(VaultError::Derivation),
{
    if (password.len() as u64) > 0xFFFFFFFFu64 {
        return Err(VaultError::Derivation);
    }
    if salt.len() < 8 || (salt.len() as u64) > 0xFFFFFFFFu64 {
        return Err(VaultError::Derivation);
    }
    argon2id_derive(password, salt)
}

/// Key derivation is deterministic: the same password and the same salt
/// always derive the same key bytes.
pub proof fn lemma_key_derivation_deterministic(
    p1: Seq<u8>,
    s1: Seq<u8>,
    p2: Seq<u8>,
    s2: Seq<u8>,
)
    requires
        p1 == p2,
        s1 == s2,
    ensures
        derived_key_of(p1, s1) == derived_key_of(p2, s2),
{
}

/// The text written to the salt file: the 32 salt bytes hex-encoded in
/// byte order, two lowercase digits per byte — 64 characters in all.
pub open spec fn salt_encoding(b: Seq<u8>) -> Seq<char> {
    hex_bytes(b)
}

/// Renders 32 fresh salt bytes as the text written to the salt file.
pub fn encode_salt(bytes: &[u8]) -> (r: String)
    requires
        bytes@.len() == 32,
    ensures
        r@ == salt_encoding(bytes@),
        r@.len() == 64,
{
    bytes_to_hex(bytes)
}

/// What startup should do about the salt file.
pub struct SaltPlan {
    /// The salt to use for this run.
    pub salt: String,
    /// Whether a new salt file must be written (atomically, before use).
    pub write_new_file: bool,
}

/// Decides the salt for this run.  A salt file that exists is used
/// exactly as it stands and is never rewritten; only when none exists is
/// a fresh salt drawn, encoded, and marked to be written.
pub fn load_or_create_salt(existing: Option<String>) -> (r: Result<SaltPlan, VaultError>)
    ensures
        existing matches Some(s) ==> {
            &&& r is Ok
            &&& r->Ok_0.salt@ == s@
            &&& !r->Ok_0.write_new_file
        },
        existing is None && r is Ok ==> {
            &&& r->Ok_0.write_new_file
            &&& exists|b: Seq<u8>| b.len() == 32 && r->Ok_0.salt@ == salt_encoding(b)
            &&& r->Ok_0.salt@.len() == 64
        },
        existing is None && r is Err ==> r->Err_0 == VaultError::RandomSource,
{
    match existing {
        Some(s) => Ok(SaltPlan { salt: s, write_new_file: false }),
        None => {
            let bytes = match os_random_32() {
                Ok(b) => b,
                Err(e) => {
                    return Err(e);
                },
            };
            let salt = encode_salt(bytes.as_slice());
            proof {
                assert(salt@ == salt_encoding(bytes@));
            }
            Ok(SaltPlan { salt, write_new_file: true })
        },
    }
}

} // verus!
