use vstd::prelude::*;
use crate::errors::{fails_with, AppError, ErrorKind};
use argon2::{Config, Variant, Version};
use rand::TryRngCore;

verus! {

/// Cost parameters of the Argon2id key derivation.
#[derive(Clone, Copy, Debug, PartialEq, Eq, Structural)]
pub struct KdfParams {
    /// Number of passes.
    pub time_cost: u32,
    /// Memory in KiB.
    pub mem_cost: u32,
    /// Degree of parallelism.
    pub lanes: u32,
    /// Length of the digest in bytes.
    pub hash_length: u32,
}

/// Length in bytes of the salt drawn for each new hash.
pub const SALT_LEN: usize = 32;

impl KdfParams {
    /// Parameters under which the derivation runs: at least one lane and
    /// one pass, eight blocks of memory per lane, a digest of four bytes
    /// or more, and memory bounded by 2 GiB.
    pub open spec fn accepted(self) -> bool {
        &&& 1 <= self.lanes <= 0x00FF_FFFF
        &&& 8 * self.lanes <= self.mem_cost <= 0x20_0000
        &&& 1 <= self.time_cost
        &&& 4 <= self.hash_length
    }

    /// The recommended defaults: 4 passes, 4096 KiB, one lane, 32 bytes.
    pub open spec fn spec_recommended() -> KdfParams {
        KdfParams { time_cost: 4, mem_cost: 4096, lanes: 1, hash_length: 32 }
    }

    pub fn recommended() -> (p: KdfParams)
        ensures
            p == KdfParams::spec_recommended(),
            p.accepted(),
    {
        KdfParams { time_cost: 4, mem_cost: 4096, lanes: 1, hash_length: 32 }
    }

    pub fn is_accepted(&self) -> (r: bool)
        ensures
            r == self.accepted(),
    {
        1 <= self.lanes && self.lanes <= 0x00FF_FFFF && 8 * self.lanes <= self.mem_cost
            && self.mem_cost <= 0x20_0000 && 1 <= self.time_cost && 4 <= self.hash_length
    }
}

/// A salt that the derivation accepts: 8 bytes up to `u32::MAX` bytes.
pub open spec fn salt_accepted(salt: Seq<u8>) -> bool {
    8 <= salt.len() <= u32::MAX
}

/// The self-describing encoded string of an Argon2id (version 0x13) hash of
/// `password` with `salt` under `params`.
pub uninterp spec fn argon2id_encoding(password: Seq<u8>, salt: Seq<u8>, params: KdfParams) -> Seq<char>;

/// What verifying `password` against an encoded hash yields: `Some(b)` when
/// the string decodes to parameters the derivation runs with, `b` telling
/// whether the digests match; `None` otherwise.
pub uninterp spec fn argon2_verdict(encoded: Seq<char>, password: Seq<u8>) -> Option<bool>;

/// `encoded` is an encoding that the derivation produced for `password`.
pub open spec fn is_hash_of(encoded: Seq<char>, password: Seq<u8>) -> bool {
    exists|salt: Seq<u8>, params: KdfParams|
        #![trigger argon2id_encoding(password, salt, params)]
        params.accepted() && salt_accepted(salt) && password.len() <= u32::MAX
            && encoded == argon2id_encoding(password, salt, params)
}

/// The bytes of a text, as the derivation reads them.
pub open spec fn text_bytes(s: Seq<char>) -> Seq<u8> {
    vstd::utf8::encode_utf8(s)
}

/// A text takes at most four bytes per character.
pub proof fn lemma_text_bytes_len(s: Seq<char>)
    ensures
        text_bytes(s).len() <= 4 * s.len(),
    decreases s.len(),
{
    if s.len() > 0 {
        lemma_text_bytes_len(s.drop_first());
    }
}

/// Relies on argon2::hash_encoded with variant Argon2id and version 0x13:
/// it succeeds when the parameters, salt and password lengths are in its
/// ranges, and returns the encoded string.
#[verifier::external_body]
fn argon2id_hash_encoded(pwd: &[u8], salt: &[u8], params: KdfParams) -> (r: String)
    requires
        params.accepted(),
        salt_accepted(salt@),
        pwd@.len() <= u32::MAX,
    ensures
        r@ == argon2id_encoding(pwd@, salt@, params),
{
    let config = Config {
        ad: &[],
        hash_length: params.hash_length,
        lanes: params.lanes,
        mem_cost: params.mem_cost,
        secret: &[],
        time_cost: params.time_cost,
        variant: Variant::Argon2id,
        version: Version::Version13,
    };
    argon2::hash_encoded(pwd, salt, &config).unwrap()
}

/// Relies on argon2::verify_encoded: it decodes variant, version, costs,
/// salt and digest from the string, derives again over `pwd` and compares.
/// A string that hash_encoded produced for `pwd` decodes to the same
/// parameters, so the digests match.
#[verifier::external_body]
fn argon2_verify_encoded(encoded: &str, pwd: &[u8]) -> (r: Option<bool>)
    requires
        pwd@.len() <= u32::MAX,
    ensures
        r == argon2_verdict(encoded@, pwd@),
        is_hash_of(encoded@, pwd@) ==> r == Some(true),
{
    argon2::verify_encoded(encoded, pwd).ok()
}

/// Relies on rand's `OsRng::try_fill_bytes`, which fills the whole buffer
/// from the operating system's generator or reports a failure.
#[verifier::external_body]
fn os_random_bytes(len: usize) -> (r: Option<Vec<u8>>)
    ensures
        r matches Some(b) ==> b@.len() == len,
{
    let mut bytes = vec![0u8; len];
    match rand::rngs::OsRng.try_fill_bytes(&mut bytes) {
        Ok(()) => Some(bytes),
        Err(_) => None,
    }
}

/// Hashes `password` with the given salt and parameters. Fails, as an
/// internal fault, only when the parameters, salt or password length are
/// outside what the derivation accepts.
pub fn hash_with_salt(password: &str, salt: &[u8], params: KdfParams) -> (r: Result<String, AppError>)
    ensures
        r is Ok <==> (params.accepted() && salt_accepted(salt@) && text_bytes(password@).len() <= u32::MAX),
        r matches Ok(s) ==> s@ == argon2id_encoding(text_bytes(password@), salt@, params),
        r matches Err(e) ==> e.kind == ErrorKind::Internal,
{
    let pwd = password.as_bytes();
    if !params.is_accepted() {
        return Err(AppError::from_err());
    }
    if salt.len() < 8 || salt.len() > 0xFFFF_FFFF {
        return Err(AppError::from_err());
    }
    if pwd.len() > 0xFFFF_FFFF {
        return Err(AppError::from_err());
    }
    Ok(argon2id_hash_encoded(pwd, salt, params))
}

/// Hashes `password` with a fresh random salt and the recommended
/// parameters. Fails only when the random source fails or the password is
/// longer than the derivation accepts.
pub fn hash(password: &String) -> (r: Result<String, AppError>)
    ensures
        r matches Ok(s) ==> exists|salt: Seq<u8>|
            salt.len() == SALT_LEN && s@ == argon2id_encoding(text_bytes(password@), salt, KdfParams::spec_recommended()),
        r matches Ok(s) ==> is_hash_of(s@, text_bytes(password@)),
        r matches Err(e) ==> e.kind == ErrorKind::Internal,
        text_bytes(password@).len() > u32::MAX ==> r is Err,
{
    let salt = match os_random_bytes(SALT_LEN) {
        Some(b) => b,
        None => return Err(AppError::from_err()),
    };
    let params = KdfParams::recommended();
    let r = hash_with_salt(password.as_str(), salt.as_slice(), params);
    if let Ok(s) = &r {
        assert(salt_accepted(salt@));
        assert(is_hash_of(s@, text_bytes(password@)));
    }
    r
}

/// Checks `password` against an encoded hash. A mismatch is `Ok(false)`;
/// an undecodable hash or an over-long password is an internal failure.
pub fn verify(hash: &String, password: &String) -> (r: Result<bool, AppError>)
    ensures
        text_bytes(password@).len() <= u32::MAX ==> match argon2_verdict(hash@, text_bytes(password@)) {
            Some(b) => r is Ok && r->Ok_0 == b,
            None => fails_with(r, ErrorKind::Internal),
        },
        text_bytes(password@).len() > u32::MAX ==> fails_with(r, ErrorKind::Internal),
        is_hash_of(hash@, text_bytes(password@)) ==> r matches Ok(true),
{
    let pwd = password.as_str().as_bytes();
    if pwd.len() > 0xFFFF_FFFF {
        return Err(AppError::from_err());
    }
    match argon2_verify_encoded(hash.as_str(), pwd) {
        Some(b) => Ok(b),
        None => Err(AppError::from_err()),
    }
}

} // verus!
