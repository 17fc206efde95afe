//! Trusted wrappers around the cryptographic primitives the handshake
//! uses: SHA-256 and HMAC-SHA256 from `ring`, Ed25519 signatures and
//! Curve25519 key agreement from `dryoc`, and the base32 account-key text
//! decoding from `data-encoding`.
//!
//! Each deterministic primitive's result is named by an uninterpreted spec
//! function; the wrappers' contracts tie the executable calls to those
//! names, and everything downstream is verified against them.

use vstd::prelude::*;

verus! {

/// The SHA-256 digest of `data`: 32 bytes, a function of the data alone.
pub uninterp spec fn sha256_of(data: Seq<u8>) -> Seq<u8>;

/// The HMAC-SHA256 tag over `data` under `key`: 32 bytes, a function of
/// key and data alone.
pub uninterp spec fn hmac_sha256_of(key: Seq<u8>, data: Seq<u8>) -> Seq<u8>;

/// The Ed25519 public key derived from a 32-byte seed.
pub uninterp spec fn ed25519_pk_of_seed(seed: Seq<u8>) -> Seq<u8>;

/// The detached Ed25519 signature of `message` under a 64-byte expanded
/// secret key; Ed25519 signing is deterministic.
pub uninterp spec fn ed25519_sign_of(secret_key: Seq<u8>, message: Seq<u8>) -> Seq<u8>;

/// Whether `signature` is a valid Ed25519 signature of `message` under
/// `public_key`.
pub uninterp spec fn ed25519_verifies(
    signature: Seq<u8>,
    message: Seq<u8>,
    public_key: Seq<u8>,
) -> bool;

/// The Curve25519 shared point of a 32-byte secret and a 32-byte public
/// key.
pub uninterp spec fn x25519_of(secret: Seq<u8>, public: Seq<u8>) -> Seq<u8>;

/// The Curve25519 public key of a 32-byte secret.
pub uninterp spec fn x25519_base_of(secret: Seq<u8>) -> Seq<u8>;

/// The RFC 4648 base32 decoding of `text`, or nothing where `text` is not
/// valid base32.
pub uninterp spec fn base32_decoded(text: Seq<u8>) -> Option<Seq<u8>>;

/// The largest input length the SHA-256 primitives accept.
pub const MAX_HASH_INPUT_LEN: u64 = 0x1000_0000_0000_0000;

/// Relies on ring's `digest::digest` with SHA-256: a 32-byte digest
/// computed from the data alone.
#[verifier::external_body]
pub fn create_sha256(data: &[u8]) -> (r: Vec<u8>)
    requires
        data@.len() < MAX_HASH_INPUT_LEN,
    ensures
        r@ == sha256_of(data@),
        r@.len() == 32,
{
    ring::digest::digest(&ring::digest::SHA256, data).as_ref().to_vec()
}

/// Relies on ring's `hmac::sign` with HMAC-SHA256: a 32-byte tag computed
/// from the key and the data alone.
#[verifier::external_body]
pub fn create_sha256_hmac(data: &[u8], mac_key: &[u8]) -> (r: Vec<u8>)
    requires
        data@.len() < MAX_HASH_INPUT_LEN,
    ensures
        r@ == hmac_sha256_of(mac_key@, data@),
        r@.len() == 32,
{
    let key = ring::hmac::Key::new(ring::hmac::HMAC_SHA256, mac_key);
    ring::hmac::sign(&key, data).as_ref().to_vec()
}

/// Relies on ring's `hmac::verify`: it recomputes the tag over `data`
/// under `mac_key` and accepts exactly when `mac` equals it.
#[verifier::external_body]
pub fn verify_sha256_hmac(mac: &[u8], mac_key: &[u8], data: &[u8]) -> (r: bool)
    requires
        data@.len() < MAX_HASH_INPUT_LEN,
    ensures
        r == (mac@ == hmac_sha256_of(mac_key@, data@)),
{
    let key = ring::hmac::Key::new(ring::hmac::HMAC_SHA256, mac_key);
    ring::hmac::verify(&key, data, mac).is_ok()
}

/// Relies on dryoc's `crypto_sign_seed_keypair`: the 32-byte Ed25519
/// public key is derived from the seed alone.
#[verifier::external_body]
pub fn ed25519_public_key_from_seed(seed: &[u8]) -> (r: Vec<u8>)
    requires
        seed@.len() == 32,
    ensures
        r@ == ed25519_pk_of_seed(seed@),
        r@.len() == 32,
{
    let mut seed_array = [0u8; 32];
    seed_array.copy_from_slice(seed);
    let (public_key, _secret_key) = dryoc::classic::crypto_sign::crypto_sign_seed_keypair(
        &seed_array,
    );
    public_key.to_vec()
}

/// Relies on dryoc's `crypto_sign_detached`: a 64-byte deterministic
/// Ed25519 signature computed from the expanded secret key and the
/// message alone.
#[verifier::external_body]
pub fn ed25519_sign(signing_key: &[u8], message: &[u8]) -> (r: Vec<u8>)
    requires
        signing_key@.len() == 64,
    ensures
        r@ == ed25519_sign_of(signing_key@, message@),
        r@.len() == 64,
{
    let mut key_array = [0u8; 64];
    key_array.copy_from_slice(signing_key);
    let mut signature = [0u8; 64];
    let _ = dryoc::classic::crypto_sign::crypto_sign_detached(
        &mut signature,
        message,
        &key_array,
    );
    signature.to_vec()
}

/// Relies on dryoc's `crypto_sign_verify_detached`: acceptance depends on
/// the signature, the message and the public key alone.
#[verifier::external_body]
pub fn ed25519_verify(signature: &[u8], message: &[u8], public_key: &[u8]) -> (r: bool)
    requires
        signature@.len() == 64,
        public_key@.len() == 32,
    ensures
        r == ed25519_verifies(signature@, message@, public_key@),
{
    let mut sig_array = [0u8; 64];
    sig_array.copy_from_slice(signature);
    let mut key_array = [0u8; 32];
    key_array.copy_from_slice(public_key);
    dryoc::classic::crypto_sign::crypto_sign_verify_detached(
        &sig_array,
        message,
        &key_array,
    ).is_ok()
}

/// Relies on dryoc's `crypto_scalarmult`: the 32-byte shared point is
/// computed from the two keys alone (its low-order check only reports,
/// after the point is already written).
#[verifier::external_body]
pub fn x25519_scalarmult(secret: &[u8], public: &[u8]) -> (r: Vec<u8>)
    requires
        secret@.len() == 32,
        public@.len() == 32,
    ensures
        r@ == x25519_of(secret@, public@),
        r@.len() == 32,
{
    let mut secret_array = [0u8; 32];
    secret_array.copy_from_slice(secret);
    let mut public_array = [0u8; 32];
    public_array.copy_from_slice(public);
    let mut shared = [0u8; 32];
    let _ = dryoc::classic::crypto_core::crypto_scalarmult(
        &mut shared,
        &secret_array,
        &public_array,
    );
    shared.to_vec()
}

/// Relies on dryoc's `crypto_scalarmult_base`: the 32-byte public key is
/// computed from the secret alone.
#[verifier::external_body]
pub fn x25519_public_key(secret: &[u8]) -> (r: Vec<u8>)
    requires
        secret@.len() == 32,
    ensures
        r@ == x25519_base_of(secret@),
        r@.len() == 32,
{
    let mut secret_array = [0u8; 32];
    secret_array.copy_from_slice(secret);
    let mut public_array = [0u8; 32];
    dryoc::classic::crypto_core::crypto_scalarmult_base(&mut public_array, &secret_array);
    public_array.to_vec()
}

/// Relies on dryoc's `randombytes_buf`: `len` bytes from the OS random
/// source; nothing is promised of their values.
#[verifier::external_body]
pub fn random_bytes(len: usize) -> (r: Vec<u8>)
    ensures
        r@.len() == len,
{
    dryoc::rng::randombytes_buf(len)
}

/// Relies on data-encoding's `BASE32.decode`: the decoding depends on the
/// text alone, and fails exactly where the text is not valid base32.
#[verifier::external_body]
pub fn base32_decode(text: &[u8]) -> (r: Option<Vec<u8>>)
    ensures
        (match r {
            Some(v) => base32_decoded(text@) == Some(v@),
            None => base32_decoded(text@) is None,
        }),
{
    data_encoding::BASE32.decode(text).ok()
}

} // verus!
