//! The handshake state machine: message construction, MAC computation and
//! verification, and sequence-number bookkeeping.

use vstd::prelude::*;
use crate::codec::{spec_u32_be, spec_u64_from_be, zero_bytes};
use crate::connection_authentication::{
    AuthenticationError, ConnectionAuthentication, spec_cert_signature_data, spec_mac_key,
};
use crate::crypto::{
    MAX_HASH_INPUT_LEN, create_sha256_hmac, ed25519_verifies, hmac_sha256_of, sha256_of,
    verify_sha256_hmac,
};
use crate::errors::{StellarError, VerificationError};
use crate::frame::XdrArchive;
use crate::messages::{
    Auth, AuthenticatedMessage, AuthenticatedMessageV0, AuthenticatedMessageV0View, Hello,
    StellarMessage, StellarMessageView,
};
use crate::misc::{increase_buffer_by_one, spec_inc_be};
use crate::node_config::NodeConfig;
use crate::remote_node_info::RemoteNodeInfo;
use crate::types::{HmacSha256Mac, PublicKey};

verus! {

broadcast use crate::connection_authentication::ConnectionAuthentication::lemma_wf_facts;

/// What a handled message turned out to be.
#[derive(Debug, Clone, Copy, PartialEq, Eq, Structural)]
pub enum HandshakeMessageExtract {
    Hello,
    Auth,
}

/// The per-connection handshake state: the local nonce, the two sequence
/// counters as raw 8-byte big-endian buffers, and the derived
/// per-direction MAC keys once the peer's identity announcement has been
/// accepted.
#[derive(Debug)]
pub struct StellarProtocol {
    node_config: NodeConfig,
    authentication: ConnectionAuthentication,
    local_nonce: Vec<u8>,
    local_sequence: Vec<u8>,
    remote_sequence: Vec<u8>,
    sending_mac_key: Option<Vec<u8>>,
    receiving_mac_key: Option<Vec<u8>>,
}

impl StellarProtocol {
    /// The node's configuration.
    pub closed spec fn config_spec(&self) -> NodeConfig {
        self.node_config
    }

    /// The connection's cryptographic context.
    pub closed spec fn auth_spec(&self) -> ConnectionAuthentication {
        self.authentication
    }

    /// The local connection nonce.
    pub closed spec fn local_nonce_bytes(&self) -> Seq<u8> {
        self.local_nonce@
    }

    /// The raw local sequence counter.
    pub closed spec fn local_seq_bytes(&self) -> Seq<u8> {
        self.local_sequence@
    }

    /// The raw remote sequence counter.
    pub closed spec fn remote_seq_bytes(&self) -> Seq<u8> {
        self.remote_sequence@
    }

    /// The sending-direction MAC key, once derived.
    pub closed spec fn sending_key_bytes(&self) -> Option<Seq<u8>> {
        match self.sending_mac_key {
            Some(k) => Some(k@),
            None => None,
        }
    }

    /// The receiving-direction MAC key, once derived.
    pub closed spec fn receiving_key_bytes(&self) -> Option<Seq<u8>> {
        match self.receiving_mac_key {
            Some(k) => Some(k@),
            None => None,
        }
    }

    pub closed spec fn wf(&self) -> bool {
        &&& self.authentication.wf()
        &&& self.node_config.wf()
        &&& self.local_nonce@.len() == 32
        &&& self.local_sequence@.len() == 8
        &&& self.remote_sequence@.len() == 8
        &&& (self.sending_mac_key matches Some(k) ==> k@.len() == 32)
        &&& (self.receiving_mac_key matches Some(k) ==> k@.len() == 32)
    }

    /// The identity announcement this node sends, given the certificate it
    /// carries.
    pub open spec fn spec_hello_view(&self, cert: crate::types::AuthCertView)
        -> crate::messages::HelloView {
        crate::messages::HelloView {
            ledger_version: self.config_spec().node_info.ledger_version,
            overlay_version: self.config_spec().node_info.overlay_version,
            overlay_min_version: self.config_spec().node_info.overlay_min_version,
            network_id: self.auth_spec().network_id_bytes(),
            version_str: self.config_spec().node_info.version_string.bytes(),
            listening_port: self.config_spec().listening_port,
            peer_id: self.auth_spec().keychain_spec().public_key_bytes(),
            cert,
            nonce: self.local_nonce_bytes(),
        }
    }

    /// Both states carry the same nonce, counters, keys, configuration and
    /// identity.
    pub open spec fn spec_same_session(a: &StellarProtocol, b: &StellarProtocol) -> bool {
        &&& a.local_nonce_bytes() == b.local_nonce_bytes()
        &&& a.local_seq_bytes() == b.local_seq_bytes()
        &&& a.remote_seq_bytes() == b.remote_seq_bytes()
        &&& a.sending_key_bytes() == b.sending_key_bytes()
        &&& a.receiving_key_bytes() == b.receiving_key_bytes()
        &&& a.config_spec() == b.config_spec()
        &&& a.auth_spec().same_identity(&b.auth_spec())
    }

    /// Builds the state for a fresh connection: counters at zero, no MAC
    /// keys yet.
    pub fn new(
        node_config: NodeConfig,
        local_nonce: Vec<u8>,
        authentication: ConnectionAuthentication,
    ) -> (r: StellarProtocol)
        requires
            node_config.wf(),
            authentication.wf(),
            local_nonce@.len() == 32,
        ensures
            r.wf(),
            r.config_spec() == node_config,
            r.auth_spec() == authentication,
            r.local_nonce_bytes() == local_nonce@,
            r.local_seq_bytes() == zero_bytes(8),
            r.remote_seq_bytes() == zero_bytes(8),
            r.sending_key_bytes() is None,
            r.receiving_key_bytes() is None,
    {
        StellarProtocol {
            node_config,
            authentication,
            local_nonce,
            sending_mac_key: None,
            local_sequence: zero_counter(),
            remote_sequence: zero_counter(),
            receiving_mac_key: None,
        }
    }

    /// Computes a message's MAC under the sending key over the raw local
    /// sequence bytes followed by the message's encoding; before any key
    /// is derived the MAC is all zeros.
    pub fn mac_for_authenticated_message(&self, message: &StellarMessage) -> (r: HmacSha256Mac)
        requires
            self.wf(),
            message.wf(),
        ensures
            r.wf(),
            (match self.sending_key_bytes() {
                Some(k) => r.mac@ == hmac_sha256_of(
                    k,
                    self.local_seq_bytes() + message.spec_enc(),
                ),
                None => r.mac@ == zero_bytes(32),
            }),
    {
        if let Some(sending_mac_key) = &self.sending_mac_key {
            proof {
                message.lemma_enc_len_bound();
            }
            let mut data: Vec<u8> = Vec::new();
            data.extend_from_slice(self.local_sequence.as_slice());
            let encoded = message.to_xdr();
            data.extend_from_slice(encoded.as_slice());
            proof {
                assert(data@ =~= self.local_seq_bytes() + message.spec_enc());
            }
            let mac = create_sha256_hmac(data.as_slice(), sending_mac_key.as_slice());
            HmacSha256Mac { mac }
        } else {
            let mac: Vec<u8> = vec![0u8; 32];
            proof {
                assert(mac@ =~= zero_bytes(32));
            }
            HmacSha256Mac { mac }
        }
    }

    /// Steps the local sequence counter by one.
    pub fn inc_loc_seq(&mut self)
        requires
            old(self).wf(),
        ensures
            final(self).wf(),
            final(self).local_seq_bytes() == spec_inc_be(old(self).local_seq_bytes()),
            final(self).remote_seq_bytes() == old(self).remote_seq_bytes(),
            final(self).sending_key_bytes() == old(self).sending_key_bytes(),
            final(self).receiving_key_bytes() == old(self).receiving_key_bytes(),
            final(self).local_nonce_bytes() == old(self).local_nonce_bytes(),
            final(self).config_spec() == old(self).config_spec(),
            final(self).auth_spec() == old(self).auth_spec(),
    {
        increase_buffer_by_one(&mut self.local_sequence);
    }

    /// Steps the remote sequence counter by one.
    pub fn inc_rem_seq(&mut self)
        requires
            old(self).wf(),
        ensures
            final(self).wf(),
            final(self).remote_seq_bytes() == spec_inc_be(old(self).remote_seq_bytes()),
            final(self).local_seq_bytes() == old(self).local_seq_bytes(),
            final(self).sending_key_bytes() == old(self).sending_key_bytes(),
            final(self).receiving_key_bytes() == old(self).receiving_key_bytes(),
            final(self).local_nonce_bytes() == old(self).local_nonce_bytes(),
            final(self).config_spec() == old(self).config_spec(),
            final(self).auth_spec() == old(self).auth_spec(),
    {
        increase_buffer_by_one(&mut self.remote_sequence);
    }

    /// Checks an authenticated message against the tracked remote sequence
    /// and the receiving MAC key: a sequence mismatch is rejected before
    /// the MAC is considered, and without a receiving key nothing
    /// verifies.
    pub fn verify_v0_message(&self, message: &AuthenticatedMessageV0, body: &[u8]) -> (r: Result<
        (),
        VerificationError,
    >)
        requires
            self.wf(),
            body@.len() < MAX_HASH_INPUT_LEN,
        ensures
            (if message.sequence != spec_u64_from_be(self.remote_seq_bytes()) {
                r == Err::<(), VerificationError>(VerificationError::SequenceMismatch)
            } else {
                match self.receiving_key_bytes() {
                    Some(k) => if message.mac.mac@ == hmac_sha256_of(k, body@) {
                        r == Ok::<(), VerificationError>(())
                    } else {
                        r == Err::<(), VerificationError>(VerificationError::MacKey)
                    },
                    None => r == Err::<(), VerificationError>(VerificationError::MacKey),
                }
            }),
    {
        let tracked_sequence = u64_from_be_counter(&self.remote_sequence);
        if message.sequence != tracked_sequence {
            return Err(VerificationError::SequenceMismatch);
        }
        if let Some(key) = &self.receiving_mac_key {
            if verify_sha256_hmac(message.mac.mac.as_slice(), key.as_slice(), body) {
                Ok(())
            } else {
                Err(VerificationError::MacKey)
            }
        } else {
            Err(VerificationError::MacKey)
        }
    }

    /// Builds the identity announcement: the node's version claims, the
    /// current auth certificate (reissued if stale as of `now_ms`), the
    /// local nonce, the current local sequence, and a zero MAC — the first
    /// message is unauthenticated by construction.
    pub fn create_hello_message(&mut self, now_ms: u64) -> (r: XdrArchive)
        requires
            old(self).wf(),
            now_ms + crate::connection_authentication::AUTH_EXPIRATION_LIMIT <= u64::MAX,
        ensures
            final(self).wf(),
            final(self).local_seq_bytes() == old(self).local_seq_bytes(),
            final(self).remote_seq_bytes() == old(self).remote_seq_bytes(),
            final(self).sending_key_bytes() == old(self).sending_key_bytes(),
            final(self).receiving_key_bytes() == old(self).receiving_key_bytes(),
            final(self).local_nonce_bytes() == old(self).local_nonce_bytes(),
            final(self).config_spec() == old(self).config_spec(),
            final(self).auth_spec().same_identity(&old(self).auth_spec()),
            r.wf(),
            (match final(self).auth_spec().cert_state() {
                Some(c) => r.views() == seq![
                    AuthenticatedMessageV0View {
                        sequence: spec_u64_from_be(old(self).local_seq_bytes()),
                        message: StellarMessageView::Hello(
                            old(self).spec_hello_view(c.view_spec()),
                        ),
                        mac: zero_bytes(32),
                    },
                ],
                None => false,
            }),
    {
        let cert = self.authentication.auth_cert(now_ms);
        let peer_key = self.authentication.keychain().persistent_public_key().clone();
        let nonce = self.local_nonce.clone();
        proof {
            assert(peer_key@ =~= self.auth_spec().keychain_spec().public_key_bytes());
            assert(nonce@ =~= self.local_nonce@);
        }
        let hello = Hello {
            ledger_version: self.node_config.node_info.ledger_version,
            overlay_version: self.node_config.node_info.overlay_version,
            overlay_min_version: self.node_config.node_info.overlay_min_version,
            network_id: self.authentication.network_id(),
            version_str: self.node_config.node_info.version_string.duplicate(),
            listening_port: self.node_config.listening_port,
            peer_id: PublicKey::PublicKeyTypeEd25519(peer_key),
            cert,
            nonce,
        };
        let mac: Vec<u8> = vec![0u8; 32];
        proof {
            assert(mac@ =~= zero_bytes(32));
        }
        let sequence = u64_from_be_counter(&self.local_sequence);
        let message = AuthenticatedMessage::V0(
            AuthenticatedMessageV0 {
                message: StellarMessage::Hello(hello),
                mac: HmacSha256Mac { mac },
                sequence,
            },
        );
        proof {
            assert(message.wf());
        }
        let archive = XdrArchive::new(vec![message]);
        proof {
            assert(archive.items().len() == 1);
            assert(archive.items()[0].wf());
            assert(archive.wf());
            assert(archive.views() =~= archive.items().map_values(
                |m: AuthenticatedMessage| m.view_spec(),
            ));
        }
        archive
    }

    /// Builds the authentication confirmation: a fixed payload, the
    /// current local sequence, and its MAC under the sending key; the
    /// local sequence then steps by one.
    pub fn create_auth_message(&mut self) -> (r: XdrArchive)
        requires
            old(self).wf(),
        ensures
            final(self).wf(),
            final(self).local_seq_bytes() == spec_inc_be(old(self).local_seq_bytes()),
            final(self).remote_seq_bytes() == old(self).remote_seq_bytes(),
            final(self).sending_key_bytes() == old(self).sending_key_bytes(),
            final(self).receiving_key_bytes() == old(self).receiving_key_bytes(),
            final(self).local_nonce_bytes() == old(self).local_nonce_bytes(),
            final(self).config_spec() == old(self).config_spec(),
            final(self).auth_spec() == old(self).auth_spec(),
            r.wf(),
            r.views() == seq![
                AuthenticatedMessageV0View {
                    sequence: spec_u64_from_be(old(self).local_seq_bytes()),
                    message: StellarMessageView::Auth(Auth { flags: 100 }),
                    mac: (match old(self).sending_key_bytes() {
                        Some(k) => hmac_sha256_of(
                            k,
                            old(self).local_seq_bytes() + spec_u32_be(2) + spec_u32_be(100),
                        ),
                        None => zero_bytes(32),
                    }),
                },
            ],
    {
        let message = StellarMessage::Auth(Auth { flags: 100 });
        let mac = self.mac_for_authenticated_message(&message);
        let sequence = u64_from_be_counter(&self.local_sequence);
        proof {
            assert(message.spec_enc() =~= spec_u32_be(2) + spec_u32_be(100));
            assert(old(self).local_seq_bytes() + message.spec_enc() =~= old(self).local_seq_bytes() + spec_u32_be(2) + spec_u32_be(100));
        }
        let archive = XdrArchive::new(
            vec![AuthenticatedMessage::V0(AuthenticatedMessageV0 { message, sequence, mac })],
        );
        proof {
            assert(archive.items().len() == 1);
            assert(archive.views() =~= archive.items().map_values(
                |m: AuthenticatedMessage| m.view_spec(),
            ));
        }
        self.inc_loc_seq();
        archive
    }

    /// Drives the state machine on a received message.  An identity
    /// announcement has its certificate verified as of `now_ms`; on
    /// success both counters reset to zero and the two MAC keys are
    /// derived from the nonces and the peer's ephemeral key.  Any other
    /// message must carry the tracked remote sequence and a MAC over
    /// `raw`'s bytes past the version prefix and before the trailing MAC,
    /// under the receiving key; on success the remote sequence steps by
    /// one.  Every failure leaves the state unchanged.
    pub fn handle_message(
        &mut self,
        message: &XdrArchive,
        raw: &Vec<u8>,
        now_ms: u64,
    ) -> (r: Result<HandshakeMessageExtract, StellarError>)
        requires
            old(self).wf(),
            message.wf(),
            message.items().len() >= 1,
            36 <= raw@.len() < MAX_HASH_INPUT_LEN,
        ensures
            final(self).wf(),
            final(self).local_nonce_bytes() == old(self).local_nonce_bytes(),
            final(self).config_spec() == old(self).config_spec(),
            final(self).auth_spec().same_identity(&old(self).auth_spec()),
            ({
                let v0 = message.views()[0];
                match v0.message {
                    StellarMessageView::Hello(h) => if h.cert.expiration < now_ms {
                        r == Err::<HandshakeMessageExtract, StellarError>(
                            StellarError::AuthenticationError(
                                AuthenticationError::VerificationCertExpired,
                            ),
                        ) && Self::spec_same_session(final(self), old(self))
                    } else if h.cert.sig.len() != 64 {
                        r == Err::<HandshakeMessageExtract, StellarError>(
                            StellarError::AuthenticationError(
                                AuthenticationError::VerificationSignature,
                            ),
                        ) && Self::spec_same_session(final(self), old(self))
                    } else if ed25519_verifies(
                        h.cert.sig,
                        sha256_of(
                            spec_cert_signature_data(
                                old(self).auth_spec().network_id_bytes(),
                                h.cert.expiration,
                                h.cert.pubkey,
                            ),
                        ),
                        h.peer_id,
                    ) {
                        r == Ok::<HandshakeMessageExtract, StellarError>(
                            HandshakeMessageExtract::Hello,
                        ) && final(self).local_seq_bytes() == zero_bytes(8) && final(self).remote_seq_bytes() == zero_bytes(8) && final(self).sending_key_bytes()
                            == Some(
                            spec_mac_key(
                                old(self).auth_spec().secret_bytes(),
                                old(self).auth_spec().public_bytes(),
                                h.cert.pubkey,
                                old(self).local_nonce_bytes(),
                                h.nonce,
                                true,
                            ),
                        ) && final(self).receiving_key_bytes() == Some(
                            spec_mac_key(
                                old(self).auth_spec().secret_bytes(),
                                old(self).auth_spec().public_bytes(),
                                h.cert.pubkey,
                                old(self).local_nonce_bytes(),
                                h.nonce,
                                false,
                            ),
                        )
                    } else {
                        r == Err::<HandshakeMessageExtract, StellarError>(
                            StellarError::AuthenticationError(
                                AuthenticationError::VerificationSignature,
                            ),
                        ) && Self::spec_same_session(final(self), old(self))
                    },
                    StellarMessageView::Auth(_a) => if v0.sequence != spec_u64_from_be(
                        old(self).remote_seq_bytes(),
                    ) {
                        r == Err::<HandshakeMessageExtract, StellarError>(
                            StellarError::Verification(VerificationError::SequenceMismatch),
                        ) && Self::spec_same_session(final(self), old(self))
                    } else {
                        match old(self).receiving_key_bytes() {
                            Some(k) => if v0.mac == hmac_sha256_of(
                                k,
                                raw@.subrange(4, raw@.len() - 32),
                            ) {
                                r == Ok::<HandshakeMessageExtract, StellarError>(
                                    HandshakeMessageExtract::Auth,
                                ) && final(self).remote_seq_bytes() == spec_inc_be(
                                    old(self).remote_seq_bytes(),
                                ) && final(self).local_seq_bytes() == old(self).local_seq_bytes()
                                    && final(self).sending_key_bytes() == old(self).sending_key_bytes() && final(self).receiving_key_bytes() == old(self).receiving_key_bytes()
                            } else {
                                r == Err::<HandshakeMessageExtract, StellarError>(
                                    StellarError::Verification(VerificationError::MacKey),
                                ) && Self::spec_same_session(final(self), old(self))
                            },
                            None => r == Err::<HandshakeMessageExtract, StellarError>(
                                StellarError::Verification(VerificationError::MacKey),
                            ) && Self::spec_same_session(final(self), old(self)),
                        }
                    },
                }
            }),
    {
        let binding = message.get_vec();
        let first = &binding[0];
        proof {
            assert(message.views()[0] == message.items()[0].view_spec());
            assert(first.wf());
        }
        match first {
            AuthenticatedMessage::V0(v0) => {
                if let StellarMessage::Hello(hello) = &v0.message {
                    if let Err(e) = self.authentication.verify_cert(
                        now_ms,
                        hello.peer_id.as_binary(),
                        &hello.cert,
                    ) {
                        return Err(StellarError::AuthenticationError(e));
                    }
                    self.local_sequence = zero_counter();
                    self.remote_sequence = zero_counter();
                    let remote_node_info = RemoteNodeInfo::from_hello(hello);
                    let sending = self.authentication.mac_key(
                        &self.local_nonce,
                        &remote_node_info.nonce,
                        &remote_node_info.public_key.key,
                        true,
                    );
                    let receiving = self.authentication.mac_key(
                        &self.local_nonce,
                        &remote_node_info.nonce,
                        &remote_node_info.public_key.key,
                        false,
                    );
                    self.sending_mac_key = Some(sending);
                    self.receiving_mac_key = Some(receiving);
                    Ok(HandshakeMessageExtract::Hello)
                } else {
                    let body = vstd::slice::slice_subrange(raw.as_slice(), 4, raw.len() - 32);
                    if let Err(e) = self.verify_v0_message(v0, body) {
                        return Err(StellarError::Verification(e));
                    }
                    self.inc_rem_seq();
                    Ok(HandshakeMessageExtract::Auth)
                }
            },
        }
    }

    /// The sending-direction MAC key, once the peer's announcement has
    /// been accepted.
    pub fn sending_mac_key(&self) -> (r: &Option<Vec<u8>>)
        ensures
            (match self.sending_key_bytes() {
                Some(k) => r matches Some(v) && v@ == k,
                None => r is None,
            }),
    {
        &self.sending_mac_key
    }

    /// The receiving-direction MAC key, once the peer's announcement has
    /// been accepted.
    pub fn receiving_mac_key(&self) -> (r: &Option<Vec<u8>>)
        ensures
            (match self.receiving_key_bytes() {
                Some(k) => r matches Some(v) && v@ == k,
                None => r is None,
            }),
    {
        &self.receiving_mac_key
    }

    /// The raw local sequence counter.
    pub fn local_sequence(&self) -> (r: &Vec<u8>)
        ensures
            r@ == self.local_seq_bytes(),
    {
        &self.local_sequence
    }

    /// The raw remote sequence counter.
    pub fn remote_sequence(&self) -> (r: &Vec<u8>)
        ensures
            r@ == self.remote_seq_bytes(),
    {
        &self.remote_sequence
    }

    /// The local connection nonce.
    pub fn local_nonce(&self) -> (r: &Vec<u8>)
        ensures
            r@ == self.local_nonce_bytes(),
    {
        &self.local_nonce
    }
}

/// An 8-byte counter at zero.
fn zero_counter() -> (r: Vec<u8>)
    ensures
        r@ == zero_bytes(8),
        r@.len() == 8,
{
    let r: Vec<u8> = vec![0u8; 8];
    proof {
        assert(r@ =~= zero_bytes(8));
    }
    r
}

/// The numeric value of an 8-byte big-endian counter.
fn u64_from_be_counter(buf: &Vec<u8>) -> (r: u64)
    requires
        buf@.len() == 8,
    ensures
        r == spec_u64_from_be(buf@),
{
    let b0 = buf[0];
    let b1 = buf[1];
    let b2 = buf[2];
    let b3 = buf[3];
    let b4 = buf[4];
    let b5 = buf[5];
    let b6 = buf[6];
    let b7 = buf[7];
    ((b0 as u64) << 56) | ((b1 as u64) << 48) | ((b2 as u64) << 40) | ((b3 as u64) << 32) | ((
    b4 as u64) << 24) | ((b5 as u64) << 16) | ((b6 as u64) << 8) | (b7 as u64)
}

} // verus!
