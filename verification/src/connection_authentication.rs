//! The per-connection cryptographic context: the long-term identity, the
//! hashed network identifier, an ephemeral Curve25519 keypair, the cache
//! of derived shared secrets, and the short-lived self-signed auth
//! certificate.

use vstd::prelude::*;
use crate::codec::{WriteStream, spec_enc_fixed, spec_u32_be, spec_u64_be, zero_bytes};
use crate::crypto::{
    MAX_HASH_INPUT_LEN, create_sha256, create_sha256_hmac, ed25519_sign_of, ed25519_verifies,
    ed25519_verify, hmac_sha256_of, sha256_of, x25519_base_of, x25519_of, x25519_public_key,
    x25519_scalarmult,
};
use crate::compound_types::LimitedString;
use crate::keychain::Keychain;
use crate::misc::bytes_eq;
use crate::types::{AuthCert, AuthCertView, Curve25519Public, Curve25519Secret, EnvelopeType};

verus! {

broadcast use vstd::seq::Seq::add_empty_left;

/// How long an issued auth certificate stays valid, in milliseconds.
pub const AUTH_EXPIRATION_LIMIT: u64 = 3600000;

/// Certificate verification failed; fatal to the handshake.
#[derive(Debug, Clone, Copy, PartialEq, Eq, Structural)]
pub enum AuthenticationError {
    /// The certificate's expiration lies before the given time.
    VerificationCertExpired,
    /// The certificate's signature does not verify under the peer's key.
    VerificationSignature,
}

/// The bytes an auth certificate's signature covers, before hashing: the
/// network identifier, the auth envelope tag, the expiration, and the
/// ephemeral public key.
pub open spec fn spec_cert_signature_data(
    network_id: Seq<u8>,
    expiration: u64,
    ecdh_public: Seq<u8>,
) -> Seq<u8> {
    network_id + spec_u32_be(3) + spec_u64_be(expiration) + ecdh_public
}

/// The shared key derived for a remote ephemeral public key: the raw
/// Curve25519 point, run through HMAC-SHA256 under an all-zero key
/// together with both public keys.
pub open spec fn spec_shared_key(
    secret: Seq<u8>,
    local_public: Seq<u8>,
    remote_public: Seq<u8>,
) -> Seq<u8> {
    hmac_sha256_of(zero_bytes(32), x25519_of(secret, remote_public) + local_public + remote_public)
}

/// The bytes a per-direction MAC key's HMAC covers: a direction byte,
/// the two nonces in direction-dependent order, and a trailing one.
pub open spec fn spec_mac_message(
    local_nonce: Seq<u8>,
    remote_nonce: Seq<u8>,
    we_called_remote: bool,
) -> Seq<u8> {
    if we_called_remote {
        seq![0u8] + local_nonce + remote_nonce + seq![1u8]
    } else {
        seq![1u8] + remote_nonce + local_nonce + seq![1u8]
    }
}

/// The per-direction MAC key: HMAC-SHA256 of the direction message under
/// the derived shared key.
pub open spec fn spec_mac_key(
    secret: Seq<u8>,
    local_public: Seq<u8>,
    remote_ecdh_public: Seq<u8>,
    local_nonce: Seq<u8>,
    remote_nonce: Seq<u8>,
    we_called_remote: bool,
) -> Seq<u8> {
    hmac_sha256_of(
        spec_shared_key(secret, local_public, remote_ecdh_public),
        spec_mac_message(local_nonce, remote_nonce, we_called_remote),
    )
}

/// The two directions never feed the same bytes to the MAC-key HMAC: the
/// direction byte differs.
pub proof fn lemma_mac_direction_messages_differ(local_nonce: Seq<u8>, remote_nonce: Seq<u8>)
    ensures
        spec_mac_message(local_nonce, remote_nonce, true) != spec_mac_message(
            local_nonce,
            remote_nonce,
            false,
        ),
{
    assert(spec_mac_message(local_nonce, remote_nonce, true)[0] == 0u8);
    assert(spec_mac_message(local_nonce, remote_nonce, false)[0] == 1u8);
}

/// With the two roles swapped, both directions order the nonces the same
/// way: the direction messages agree past the direction byte.
pub proof fn lemma_mac_message_swapped_roles(nonce_a: Seq<u8>, nonce_b: Seq<u8>)
    ensures
        spec_mac_message(nonce_a, nonce_b, true).skip(1) == spec_mac_message(
            nonce_b,
            nonce_a,
            false,
        ).skip(1),
{
    assert(spec_mac_message(nonce_a, nonce_b, true).skip(1) =~= spec_mac_message(
        nonce_b,
        nonce_a,
        false,
    ).skip(1));
}

/// The per-connection cryptographic context.
#[derive(Debug)]
pub struct ConnectionAuthentication {
    keychain: Keychain,
    network_id: Vec<u8>,
    per_connection_seckey: Curve25519Secret,
    per_connection_pubkey: Curve25519Public,
    we_called_remote_keys: Vec<(Vec<u8>, Vec<u8>)>,
    us_called_remote_keys: Vec<(Vec<u8>, Vec<u8>)>,
    auth_cert: Option<AuthCert>,
    auth_cert_expiration: u64,
}

impl ConnectionAuthentication {
    /// The long-term identity.
    pub closed spec fn keychain_spec(&self) -> Keychain {
        self.keychain
    }

    /// The hashed network identifier.
    pub closed spec fn network_id_bytes(&self) -> Seq<u8> {
        self.network_id@
    }

    /// The ephemeral Curve25519 secret key.
    pub closed spec fn secret_bytes(&self) -> Seq<u8> {
        self.per_connection_seckey.key@
    }

    /// The ephemeral Curve25519 public key.
    pub closed spec fn public_bytes(&self) -> Seq<u8> {
        self.per_connection_pubkey.key@
    }

    /// The cached certificate, if one was issued.
    pub closed spec fn cert_state(&self) -> Option<AuthCert> {
        self.auth_cert
    }

    /// The cached certificate's expiration.
    pub closed spec fn cert_expiration(&self) -> u64 {
        self.auth_cert_expiration
    }

    /// The certificate this context signs for a given expiration.
    pub open spec fn spec_cert_view(&self, expiration: u64) -> AuthCertView {
        AuthCertView {
            pubkey: self.public_bytes(),
            expiration,
            sig: ed25519_sign_of(
                self.keychain_spec().signing_key_bytes(),
                sha256_of(
                    spec_cert_signature_data(
                        self.network_id_bytes(),
                        expiration,
                        self.public_bytes(),
                    ),
                ),
            ),
        }
    }

    /// One shared-secret cache is sound: every entry holds the key derived
    /// for its remote public key.
    pub closed spec fn cache_wf(&self, cache: Seq<(Vec<u8>, Vec<u8>)>) -> bool {
        forall|i: int|
            0 <= i < cache.len() ==> (#[trigger] cache[i]).0@.len() == 32 && cache[i].1@.len()
                == 32 && cache[i].1@ == spec_shared_key(
                self.secret_bytes(),
                self.public_bytes(),
                cache[i].0@,
            )
    }

    pub closed spec fn wf(&self) -> bool {
        &&& self.keychain.wf()
        &&& self.network_id@.len() == 32
        &&& self.per_connection_seckey.wf()
        &&& self.per_connection_pubkey.wf()
        &&& self.public_bytes() == x25519_base_of(self.secret_bytes())
        &&& self.cache_wf(self.we_called_remote_keys@)
        &&& self.cache_wf(self.us_called_remote_keys@)
        &&& (match self.auth_cert {
            Some(c) => c.wf() && c.view_spec() == self.spec_cert_view(self.auth_cert_expiration),
            None => true,
        })
    }

    /// What well-formedness guarantees of the context's parts.
    pub broadcast proof fn lemma_wf_facts(&self)
        requires
            #[trigger] self.wf(),
        ensures
            self.keychain_spec().wf(),
            self.network_id_bytes().len() == 32,
            self.secret_bytes().len() == 32,
            self.public_bytes().len() == 32,
            self.public_bytes() == x25519_base_of(self.secret_bytes()),
            (match self.cert_state() {
                Some(c) => c.wf() && c.view_spec() == self.spec_cert_view(self.cert_expiration()),
                None => true,
            }),
    {
    }

    /// Both contexts hold the same identity, network and ephemeral keys.
    pub open spec fn same_identity(&self, other: &Self) -> bool {
        &&& self.keychain_spec() == other.keychain_spec()
        &&& self.network_id_bytes() == other.network_id_bytes()
        &&& self.secret_bytes() == other.secret_bytes()
        &&& self.public_bytes() == other.public_bytes()
    }

    /// Builds a context from the identity, the human-readable network
    /// name, and a fresh ephemeral secret.
    pub fn new(
        keypair: Keychain,
        network_id: &[u8],
        per_connection_secret_key: Vec<u8>,
    ) -> (r: ConnectionAuthentication)
        requires
            keypair.wf(),
            network_id@.len() < MAX_HASH_INPUT_LEN,
            per_connection_secret_key@.len() == 32,
        ensures
            r.wf(),
            r.keychain_spec() == keypair,
            r.network_id_bytes() == sha256_of(network_id@),
            r.secret_bytes() == per_connection_secret_key@,
            r.public_bytes() == x25519_base_of(per_connection_secret_key@),
            r.cert_state() is None,
    {
        let hashed_network_id = create_sha256(network_id);
        let public_key_ecdh = x25519_public_key(per_connection_secret_key.as_slice());
        ConnectionAuthentication {
            we_called_remote_keys: Vec::new(),
            us_called_remote_keys: Vec::new(),
            keychain: keypair,
            network_id: hashed_network_id,
            per_connection_pubkey: Curve25519Public { key: public_key_ecdh },
            per_connection_seckey: Curve25519Secret { key: per_connection_secret_key },
            auth_cert: None,
            auth_cert_expiration: 0,
        }
    }

    /// Issues and caches a fresh certificate expiring the expiration
    /// window after `milisec`.
    pub fn create_auth_cert_from_milisec(&mut self, milisec: u64) -> (r: AuthCert)
        requires
            old(self).wf(),
            milisec + AUTH_EXPIRATION_LIMIT <= u64::MAX,
        ensures
            final(self).wf(),
            final(self).same_identity(old(self)),
            final(self).cert_expiration() == milisec + AUTH_EXPIRATION_LIMIT,
            final(self).cert_state() matches Some(c) && c.view_spec() == final(self).spec_cert_view(
                (milisec + AUTH_EXPIRATION_LIMIT) as u64,
            ),
            r.wf(),
            r.view_spec() == final(self).spec_cert_view((milisec + AUTH_EXPIRATION_LIMIT) as u64),
    {
        self.auth_cert_expiration = milisec + AUTH_EXPIRATION_LIMIT;
        let mut write_stream = WriteStream::new();
        write_stream.write_binary_data(self.network_id.as_slice());
        EnvelopeType::EnvelopeTypeAuth.encode(&mut write_stream);
        write_stream.write_u64(self.auth_cert_expiration);
        write_stream.write_binary_data(self.per_connection_pubkey.key.as_slice());
        let signature_data = write_stream.result();
        proof {
            assert(spec_enc_fixed(self.network_id@) =~= self.network_id@);
            assert(spec_enc_fixed(self.per_connection_pubkey.key@)
                =~= self.per_connection_pubkey.key@);
            assert(signature_data@ =~= spec_cert_signature_data(
                self.network_id@,
                self.auth_cert_expiration,
                self.per_connection_pubkey.key@,
            ));
        }
        let hashed_signature_data = create_sha256(signature_data.as_slice());
        let signed = self.keychain.sign(hashed_signature_data.as_slice());
        let sig = match LimitedString::new(signed) {
            Ok(s) => s,
            Err(_) => {
                proof {
                    assert(false);
                }
                LimitedString::empty()
            },
        };
        let cert = AuthCert {
            pubkey: self.per_connection_pubkey.duplicate(),
            expiration: self.auth_cert_expiration,
            sig,
        };
        self.auth_cert = Some(cert.duplicate());
        cert
    }

    /// Returns the cached certificate while it is still valid as of
    /// `milisec`, and issues a replacement otherwise.  A reused
    /// certificate comes back bit-identical; a replacement issued after
    /// expiry carries a strictly later expiration.
    pub fn auth_cert(&mut self, milisec: u64) -> (r: AuthCert)
        requires
            old(self).wf(),
            milisec + AUTH_EXPIRATION_LIMIT <= u64::MAX,
        ensures
            final(self).wf(),
            final(self).same_identity(old(self)),
            (match old(self).cert_state() {
                Some(c) => if old(self).cert_expiration() >= milisec {
                    r.view_spec() == c.view_spec() && final(self).cert_state() == old(
                        self,
                    ).cert_state() && final(self).cert_expiration() == old(self).cert_expiration()
                } else {
                    final(self).cert_expiration() == milisec + AUTH_EXPIRATION_LIMIT && r.view_spec()
                        == final(self).spec_cert_view((milisec + AUTH_EXPIRATION_LIMIT) as u64)
                        && final(self).cert_expiration() > old(self).cert_expiration()
                },
                None => final(self).cert_expiration() == milisec + AUTH_EXPIRATION_LIMIT
                    && r.view_spec() == final(self).spec_cert_view(
                    (milisec + AUTH_EXPIRATION_LIMIT) as u64,
                ),
            }),
            r.wf(),
            r.view_spec() == final(self).spec_cert_view(final(self).cert_expiration()),
            final(self).cert_state() matches Some(c2) && c2.view_spec() == r.view_spec(),
    {
        let reusable = if self.auth_cert.is_some() {
            self.auth_cert_expiration >= milisec
        } else {
            false
        };
        if reusable {
            let cert = match &self.auth_cert {
                Some(c) => c.duplicate(),
                None => {
                    proof {
                        assert(false);
                    }
                    return self.create_auth_cert_from_milisec(milisec);
                },
            };
            proof {
                assert(old(self).cert_expiration() >= milisec);
            }
            return cert;
        }
        self.create_auth_cert_from_milisec(milisec)
    }

    /// Verifies a peer's certificate as of `time` (milliseconds): expired
    /// certificates are rejected outright, and the signature must verify
    /// under the peer's long-term key over the same digest this context
    /// signs.
    pub fn verify_cert(
        &self,
        time: u64,
        remote_public_key: &Vec<u8>,
        cert: &AuthCert,
    ) -> (r: Result<(), AuthenticationError>)
        requires
            self.wf(),
            remote_public_key@.len() == 32,
            cert.wf(),
        ensures
            (if cert.expiration < time {
                r == Err::<(), AuthenticationError>(AuthenticationError::VerificationCertExpired)
            } else if cert.sig.bytes().len() != 64 {
                r == Err::<(), AuthenticationError>(AuthenticationError::VerificationSignature)
            } else if ed25519_verifies(
                cert.sig.bytes(),
                sha256_of(
                    spec_cert_signature_data(
                        self.network_id_bytes(),
                        cert.expiration,
                        cert.pubkey.key@,
                    ),
                ),
                remote_public_key@,
            ) {
                r == Ok::<(), AuthenticationError>(())
            } else {
                r == Err::<(), AuthenticationError>(AuthenticationError::VerificationSignature)
            }),
    {
        let expiration = cert.expiration;
        if expiration < time {
            return Err(AuthenticationError::VerificationCertExpired);
        }
        let mut write_stream = WriteStream::new();
        write_stream.write_binary_data(self.network_id.as_slice());
        EnvelopeType::EnvelopeTypeAuth.encode(&mut write_stream);
        write_stream.write_u64(cert.expiration);
        write_stream.write_binary_data(cert.pubkey.key.as_slice());
        let signature_data = write_stream.result();
        proof {
            assert(spec_enc_fixed(self.network_id@) =~= self.network_id@);
            assert(spec_enc_fixed(cert.pubkey.key@) =~= cert.pubkey.key@);
            assert(signature_data@ =~= spec_cert_signature_data(
                self.network_id@,
                cert.expiration,
                cert.pubkey.key@,
            ));
        }
        let hashed = create_sha256(signature_data.as_slice());
        let sig = cert.sig.get_vec();
        if sig.len() != 64 {
            return Err(AuthenticationError::VerificationSignature);
        }
        if ed25519_verify(sig.as_slice(), hashed.as_slice(), remote_public_key.as_slice()) {
            Ok(())
        } else {
            Err(AuthenticationError::VerificationSignature)
        }
    }

    /// Derives the MAC key for one direction of the connection, from the
    /// two nonces and the peer's ephemeral public key.
    pub fn mac_key(
        &mut self,
        local_nonce: &Vec<u8>,
        remote_nonce: &Vec<u8>,
        remote_public_key_ecdh: &Vec<u8>,
        we_called_remote: bool,
    ) -> (r: Vec<u8>)
        requires
            old(self).wf(),
            local_nonce@.len() == 32,
            remote_nonce@.len() == 32,
            remote_public_key_ecdh@.len() == 32,
        ensures
            final(self).wf(),
            final(self).same_identity(old(self)),
            final(self).cert_state() == old(self).cert_state(),
            final(self).cert_expiration() == old(self).cert_expiration(),
            r@ == spec_mac_key(
                old(self).secret_bytes(),
                old(self).public_bytes(),
                remote_public_key_ecdh@,
                local_nonce@,
                remote_nonce@,
                we_called_remote,
            ),
            r@.len() == 32,
    {
        let mut message: Vec<u8> = Vec::new();
        if we_called_remote {
            message.push(0);
            message.extend_from_slice(local_nonce.as_slice());
            message.extend_from_slice(remote_nonce.as_slice());
            message.push(1);
        } else {
            message.push(1);
            message.extend_from_slice(remote_nonce.as_slice());
            message.extend_from_slice(local_nonce.as_slice());
            message.push(1);
        }
        proof {
            assert(message@ =~= spec_mac_message(local_nonce@, remote_nonce@, we_called_remote));
        }
        let shared_key = self.shared_key(remote_public_key_ecdh, we_called_remote);
        create_sha256_hmac(message.as_slice(), shared_key.as_slice())
    }

    /// Looks the shared key for a remote ephemeral public key up in the
    /// per-direction cache, deriving and caching it on a miss.
    fn shared_key(&mut self, remote_public_key: &Vec<u8>, we_called_remote: bool) -> (r: Vec<u8>)
        requires
            old(self).wf(),
            remote_public_key@.len() == 32,
        ensures
            final(self).wf(),
            final(self).same_identity(old(self)),
            final(self).cert_state() == old(self).cert_state(),
            final(self).cert_expiration() == old(self).cert_expiration(),
            r@ == spec_shared_key(
                old(self).secret_bytes(),
                old(self).public_bytes(),
                remote_public_key@,
            ),
            r@.len() == 32,
    {
        let cached = if we_called_remote {
            cache_get(&self.we_called_remote_keys, remote_public_key)
        } else {
            cache_get(&self.us_called_remote_keys, remote_public_key)
        };
        if let Some(shared_key) = cached {
            return shared_key;
        }
        let shared_secret_key = x25519_scalarmult(
            self.per_connection_seckey.key.as_slice(),
            remote_public_key.as_slice(),
        );
        let mut message_to_sign: Vec<u8> = Vec::new();
        message_to_sign.extend_from_slice(shared_secret_key.as_slice());
        message_to_sign.extend_from_slice(self.per_connection_pubkey.key.as_slice());
        message_to_sign.extend_from_slice(remote_public_key.as_slice());
        let zero_salt: Vec<u8> = vec![0u8; 32];
        proof {
            assert(zero_salt@ =~= zero_bytes(32));
            assert(message_to_sign@ =~= x25519_of(self.secret_bytes(), remote_public_key@)
                + self.public_bytes() + remote_public_key@);
        }
        let hmac = create_sha256_hmac(message_to_sign.as_slice(), zero_salt.as_slice());
        let key_copy = remote_public_key.clone();
        let hmac_copy = hmac.clone();
        proof {
            assert(key_copy@ =~= remote_public_key@);
            assert(hmac_copy@ =~= hmac@);
        }
        let ghost before_we = self.we_called_remote_keys@;
        let ghost before_us = self.us_called_remote_keys@;
        if we_called_remote {
            self.we_called_remote_keys.push((key_copy, hmac_copy));
            proof {
                assert forall|i: int| 0 <= i < self.we_called_remote_keys@.len() implies (
                #[trigger] self.we_called_remote_keys@[i]).0@.len() == 32
                    && self.we_called_remote_keys@[i].1@ == spec_shared_key(
                    self.secret_bytes(),
                    self.public_bytes(),
                    self.we_called_remote_keys@[i].0@,
                ) by {
                    if i < before_we.len() {
                        assert(self.we_called_remote_keys@[i] == before_we[i]);
                    }
                }
            }
        } else {
            self.us_called_remote_keys.push((key_copy, hmac_copy));
            proof {
                assert forall|i: int| 0 <= i < self.us_called_remote_keys@.len() implies (
                #[trigger] self.us_called_remote_keys@[i]).0@.len() == 32
                    && self.us_called_remote_keys@[i].1@ == spec_shared_key(
                    self.secret_bytes(),
                    self.public_bytes(),
                    self.us_called_remote_keys@[i].0@,
                ) by {
                    if i < before_us.len() {
                        assert(self.us_called_remote_keys@[i] == before_us[i]);
                    }
                }
            }
        }
        hmac
    }

    /// The long-term identity.
    pub fn keychain(&self) -> (r: &Keychain)
        ensures
            *r == self.keychain_spec(),
    {
        &self.keychain
    }

    /// The hashed network identifier.
    pub fn network_id(&self) -> (r: Vec<u8>)
        ensures
            r@ == self.network_id_bytes(),
    {
        let copy = self.network_id.clone();
        proof {
            assert(copy@ =~= self.network_id@);
        }
        copy
    }

    /// The ephemeral Curve25519 public key.
    pub fn public_key_ecdh(&self) -> (r: &Curve25519Public)
        ensures
            r.key@ == self.public_bytes(),
    {
        &self.per_connection_pubkey
    }
}

/// Finds the cached value stored under `key`, if any.
fn cache_get(cache: &Vec<(Vec<u8>, Vec<u8>)>, key: &Vec<u8>) -> (r: Option<Vec<u8>>)
    ensures
        (match r {
            Some(v) => exists|i: int|
                0 <= i < cache@.len() && (#[trigger] cache@[i]).0@ == key@ && cache@[i].1@ == v@,
            None => true,
        }),
{
    let n = cache.len();
    let mut i: usize = 0;
    while i < n
        invariant
            0 <= i <= n,
            n == cache@.len(),
        decreases n - i,
    {
        let entry = &cache[i];
        if bytes_eq(entry.0.as_slice(), key.as_slice()) {
            let value = entry.1.clone();
            proof {
                assert(value@ =~= cache@[i as int].1@);
            }
            return Some(value);
        }
        i = i + 1;
    }
    None
}

} // verus!
