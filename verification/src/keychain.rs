//! The long-term identity: an Ed25519 signing keypair derived from a
//! 32-byte seed, used only to sign auth certificates.

use vstd::prelude::*;
use vstd::string::StringSliceAdditionalSpecFns;
use crate::crypto::{
    base32_decode, base32_decoded, ed25519_pk_of_seed, ed25519_public_key_from_seed, ed25519_sign,
    ed25519_sign_of,
};
use crate::misc::generate_secret_key;
use crate::types::PublicKey;

verus! {

/// Construction from encoded key text failed.
#[derive(Debug, Clone, Copy, PartialEq, Eq, Structural)]
pub enum KeychainError {
    /// The decoded seed does not have seed length.
    WrongLength { expected: u32, actual: u32 },
}

/// A long-term Ed25519 signing keypair: the public key, and the expanded
/// 64-byte secret (seed followed by public key).
#[derive(Debug, Clone)]
pub struct Keychain {
    persistent_public_key: PublicKey,
    signing_key: Vec<u8>,
}

impl Keychain {
    /// The public key bytes.
    pub closed spec fn public_key_bytes(&self) -> Seq<u8> {
        self.persistent_public_key.key_bytes()
    }

    /// The expanded secret key bytes.
    pub closed spec fn signing_key_bytes(&self) -> Seq<u8> {
        self.signing_key@
    }

    /// The seed the keypair was derived from.
    pub open spec fn seed_bytes(&self) -> Seq<u8> {
        self.signing_key_bytes().subrange(0, 32)
    }

    /// The expanded secret is the seed followed by the derived public key.
    pub open spec fn wf(&self) -> bool {
        &&& self.signing_key_bytes().len() == 64
        &&& self.public_key_bytes().len() == 32
        &&& self.public_key_bytes() == ed25519_pk_of_seed(self.seed_bytes())
        &&& self.signing_key_bytes().subrange(32, 64) == self.public_key_bytes()
    }

    /// Derives the keypair a 32-byte seed determines.
    pub fn from_seed(seed: &[u8]) -> (r: Keychain)
        requires
            seed@.len() == 32,
        ensures
            r.wf(),
            r.seed_bytes() == seed@,
            r.public_key_bytes() == ed25519_pk_of_seed(seed@),
    {
        let public_key = ed25519_public_key_from_seed(seed);
        let mut signing_key = vstd::slice::slice_to_vec(seed);
        signing_key.extend_from_slice(public_key.as_slice());
        proof {
            assert(signing_key@.subrange(0, 32) =~= seed@);
            assert(signing_key@.subrange(32, 64) =~= public_key@);
        }
        Keychain {
            persistent_public_key: PublicKey::PublicKeyTypeEd25519(public_key),
            signing_key,
        }
    }

    /// Derives a keypair from a fresh random seed.
    pub fn from_random_seed() -> (r: Keychain)
        ensures
            r.wf(),
    {
        let seed = generate_secret_key();
        Keychain::from_seed(seed.as_slice())
    }

    /// Reads a base32-encoded seed string: one version byte, the 32 seed
    /// bytes, and a 2-byte checksum tail.  Text that decodes to any other
    /// shape is rejected with the length found.
    pub fn from_encoded_seed(key: &str) -> (r: Result<Keychain, KeychainError>)
        ensures
            (match base32_decoded(key.spec_bytes()) {
                Some(d) => if d.len() == 35 {
                    r matches Ok(k) && k.wf() && k.seed_bytes() == d.subrange(1, 33)
                } else if d.len() < 3 {
                    r == Err::<Keychain, KeychainError>(
                        KeychainError::WrongLength { expected: 32, actual: 0 },
                    )
                } else {
                    r == Err::<Keychain, KeychainError>(
                        KeychainError::WrongLength {
                            expected: 32,
                            actual: (d.len() - 3) as u32,
                        },
                    )
                },
                None => r == Err::<Keychain, KeychainError>(
                    KeychainError::WrongLength { expected: 32, actual: 0 },
                ),
            }),
    {
        let decoded = match base32_decode(key.as_bytes()) {
            Some(d) => d,
            None => {
                return Err(KeychainError::WrongLength { expected: 32, actual: 0 });
            },
        };
        if decoded.len() < 3 {
            return Err(KeychainError::WrongLength { expected: 32, actual: 0 });
        }
        let data_len = decoded.len() - 3;
        if data_len != 32 {
            return Err(
                KeychainError::WrongLength {
                    expected: 32,
                    actual: #[verifier::truncate] (data_len as u32),
                },
            );
        }
        let data = vstd::slice::slice_subrange(decoded.as_slice(), 1, 33);
        Ok(Keychain::from_seed(data))
    }

    /// Signs an arbitrary byte string with the long-term key.
    pub fn sign(&self, message: &[u8]) -> (r: Vec<u8>)
        requires
            self.wf(),
        ensures
            r@ == ed25519_sign_of(self.signing_key_bytes(), message@),
            r@.len() == 64,
    {
        ed25519_sign(self.signing_key.as_slice(), message)
    }

    /// The public key bytes.
    pub fn persistent_public_key(&self) -> (r: &Vec<u8>)
        ensures
            r@ == self.public_key_bytes(),
    {
        self.persistent_public_key.as_binary()
    }

    /// The public key as the wire type.
    pub fn public_key(&self) -> (r: &PublicKey)
        ensures
            r.key_bytes() == self.public_key_bytes(),
    {
        &self.persistent_public_key
    }
}

} // verus!
