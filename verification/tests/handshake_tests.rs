use stellar_handshake::connection_authentication::{
    AUTH_EXPIRATION_LIMIT, AuthenticationError, ConnectionAuthentication,
};
use stellar_handshake::crypto::create_sha256_hmac;
use stellar_handshake::errors::{StellarError, VerificationError};
use stellar_handshake::frame::XdrArchive;
use stellar_handshake::keychain::Keychain;
use stellar_handshake::messages::{
    Auth, AuthenticatedMessage, AuthenticatedMessageV0, StellarMessage,
};
use stellar_handshake::node_config::NodeConfig;
use stellar_handshake::remote_node_info::RemoteNodeInfo;
use stellar_handshake::stellar_protocol::{HandshakeMessageExtract, StellarProtocol};
use stellar_handshake::types::HmacSha256Mac;

const NOW_MS: u64 = 1_700_000_000_000;
const NETWORK: &[u8] = b"Test SDF Network ; September 2015";

fn make_protocol(seed: u8, ecdh: u8, nonce: u8) -> StellarProtocol {
    let keychain = Keychain::from_seed(&[seed; 32]);
    let authentication = ConnectionAuthentication::new(keychain, NETWORK, vec![ecdh; 32]);
    StellarProtocol::new(NodeConfig::local(), vec![nonce; 32], authentication)
}

fn frame_and_raw(archive: &XdrArchive) -> Vec<u8> {
    archive.to_xdr()[4..].to_vec()
}

/// Builds an authentication confirmation whose MAC is computed under the
/// given key, the way the receiving side will check it.
fn auth_message_under_key(key: &[u8], sequence: u64, flags: u32) -> (XdrArchive, Vec<u8>) {
    let message = StellarMessage::Auth(Auth { flags });
    let mut body = sequence.to_be_bytes().to_vec();
    body.extend_from_slice(&message.to_xdr());
    let mac = create_sha256_hmac(&body, key);
    let archive = XdrArchive::new(vec![AuthenticatedMessage::V0(AuthenticatedMessageV0 {
        sequence,
        message,
        mac: HmacSha256Mac { mac },
    })]);
    let raw = frame_and_raw(&archive);
    (archive, raw)
}

#[test]
fn certificate_reused_while_valid_and_replaced_after_expiry() {
    let keychain = Keychain::from_seed(&[1; 32]);
    let mut auth = ConnectionAuthentication::new(keychain, NETWORK, vec![2; 32]);
    let first = auth.auth_cert(NOW_MS);
    let second = auth.auth_cert(NOW_MS + 1000);
    assert_eq!(first, second, "a still-valid certificate comes back bit-identical");
    let third = auth.auth_cert(NOW_MS + AUTH_EXPIRATION_LIMIT + 1);
    assert!(third.expiration > second.expiration, "a reissued certificate expires strictly later");
    assert_eq!(first.expiration, NOW_MS + AUTH_EXPIRATION_LIMIT);
    assert_eq!(third.expiration, NOW_MS + AUTH_EXPIRATION_LIMIT + 1 + AUTH_EXPIRATION_LIMIT);
}

#[test]
fn certificate_verifies_under_peer_identity() {
    let keychain_a = Keychain::from_seed(&[1; 32]);
    let a_identity = keychain_a.persistent_public_key().clone();
    let mut auth_a = ConnectionAuthentication::new(keychain_a, NETWORK, vec![2; 32]);
    let cert = auth_a.auth_cert(NOW_MS);

    let keychain_b = Keychain::from_seed(&[3; 32]);
    let auth_b = ConnectionAuthentication::new(keychain_b, NETWORK, vec![4; 32]);
    assert_eq!(auth_b.verify_cert(NOW_MS, &a_identity, &cert), Ok(()));

    // Under a different long-term key the signature does not verify.
    let wrong_identity = vec![0x55u8; 32];
    assert_eq!(
        auth_b.verify_cert(NOW_MS, &wrong_identity, &cert),
        Err(AuthenticationError::VerificationSignature)
    );

    // A tampered expiration breaks the signature too.
    let mut tampered = cert.clone();
    tampered.expiration += 1;
    assert_eq!(
        auth_b.verify_cert(NOW_MS, &a_identity, &tampered),
        Err(AuthenticationError::VerificationSignature)
    );
}

#[test]
fn expired_certificate_is_rejected_deterministically() {
    let keychain_a = Keychain::from_seed(&[1; 32]);
    let a_identity = keychain_a.persistent_public_key().clone();
    let mut auth_a = ConnectionAuthentication::new(keychain_a, NETWORK, vec![2; 32]);
    let mut cert = auth_a.auth_cert(NOW_MS);
    cert.expiration = NOW_MS / 1000 - 1;

    let keychain_b = Keychain::from_seed(&[3; 32]);
    let auth_b = ConnectionAuthentication::new(keychain_b, NETWORK, vec![4; 32]);
    assert_eq!(
        auth_b.verify_cert(NOW_MS, &a_identity, &cert),
        Err(AuthenticationError::VerificationCertExpired)
    );
}

#[test]
fn mac_keys_differ_between_directions() {
    let keychain = Keychain::from_seed(&[1; 32]);
    let mut auth = ConnectionAuthentication::new(keychain, NETWORK, vec![2; 32]);
    let local_nonce = vec![10u8; 32];
    let remote_nonce = vec![11u8; 32];
    let remote_ecdh = {
        let other = ConnectionAuthentication::new(
            Keychain::from_seed(&[9; 32]),
            NETWORK,
            vec![12; 32],
        );
        other.public_key_ecdh().key.clone()
    };
    let sending = auth.mac_key(&local_nonce, &remote_nonce, &remote_ecdh, true);
    let receiving = auth.mac_key(&local_nonce, &remote_nonce, &remote_ecdh, false);
    assert_eq!(sending.len(), 32);
    assert_eq!(receiving.len(), 32);
    assert_ne!(sending, receiving, "the direction byte separates the two keys");
    // The derivation is deterministic: asking again gives the same keys.
    assert_eq!(auth.mac_key(&local_nonce, &remote_nonce, &remote_ecdh, true), sending);
}

#[test]
fn hello_message_carries_configuration_and_nonce() {
    let mut protocol = make_protocol(1, 2, 10);
    let archive = protocol.create_hello_message(NOW_MS);
    let messages = archive.get_vec();
    assert_eq!(messages.len(), 1);
    let AuthenticatedMessage::V0(v0) = &messages[0];
    assert_eq!(v0.sequence, 0);
    assert_eq!(v0.mac.mac, vec![0u8; 32], "the first message is unauthenticated");
    match &v0.message {
        StellarMessage::Hello(hello) => {
            assert_eq!(hello.ledger_version, 19);
            assert_eq!(hello.overlay_version, 29);
            assert_eq!(hello.overlay_min_version, 27);
            assert_eq!(hello.listening_port, 11625);
            assert_eq!(hello.version_str.get_vec(), &b"v19.13.0".to_vec());
            assert_eq!(hello.nonce, vec![10u8; 32]);
            assert_eq!(hello.cert.expiration, NOW_MS + AUTH_EXPIRATION_LIMIT);
        },
        other => panic!("expected a Hello, got {:?}", other),
    }
}

#[test]
fn hello_exchange_derives_keys_and_resets_counters() {
    let mut a = make_protocol(1, 2, 10);
    let mut b = make_protocol(3, 4, 11);

    let a_hello = a.create_hello_message(NOW_MS);
    let b_hello = b.create_hello_message(NOW_MS);

    let r_b = b.handle_message(&a_hello, &frame_and_raw(&a_hello), NOW_MS);
    assert_eq!(r_b, Ok(HandshakeMessageExtract::Hello));
    let r_a = a.handle_message(&b_hello, &frame_and_raw(&b_hello), NOW_MS);
    assert_eq!(r_a, Ok(HandshakeMessageExtract::Hello));

    for p in [&a, &b] {
        assert!(p.sending_mac_key().is_some());
        assert!(p.receiving_mac_key().is_some());
        assert_ne!(
            p.sending_mac_key().as_ref().unwrap(),
            p.receiving_mac_key().as_ref().unwrap()
        );
        assert_eq!(p.local_sequence(), &vec![0u8; 8]);
        assert_eq!(p.remote_sequence(), &vec![0u8; 8]);
    }
}

#[test]
fn handshake_completes_with_receiver_keyed_auth_messages() {
    let mut a = make_protocol(1, 2, 10);
    let mut b = make_protocol(3, 4, 11);

    let a_hello = a.create_hello_message(NOW_MS);
    let b_hello = b.create_hello_message(NOW_MS);
    assert_eq!(
        b.handle_message(&a_hello, &frame_and_raw(&a_hello), NOW_MS),
        Ok(HandshakeMessageExtract::Hello)
    );
    assert_eq!(
        a.handle_message(&b_hello, &frame_and_raw(&b_hello), NOW_MS),
        Ok(HandshakeMessageExtract::Hello)
    );

    // Each side accepts an authentication confirmation MAC'd under its own
    // receiving key; the exchange then reports completion on both sides.
    let b_recv = b.receiving_mac_key().as_ref().unwrap().clone();
    let (to_b, raw_b) = auth_message_under_key(&b_recv, 0, 100);
    assert_eq!(b.handle_message(&to_b, &raw_b, NOW_MS), Ok(HandshakeMessageExtract::Auth));
    assert_eq!(b.remote_sequence(), &vec![0, 0, 0, 0, 0, 0, 0, 1]);

    let a_recv = a.receiving_mac_key().as_ref().unwrap().clone();
    let (to_a, raw_a) = auth_message_under_key(&a_recv, 0, 100);
    assert_eq!(a.handle_message(&to_a, &raw_a, NOW_MS), Ok(HandshakeMessageExtract::Auth));
    assert_eq!(a.remote_sequence(), &vec![0, 0, 0, 0, 0, 0, 0, 1]);
}

#[test]
fn sequence_skip_is_rejected() {
    let mut a = make_protocol(1, 2, 10);
    let mut b = make_protocol(3, 4, 11);
    let a_hello = a.create_hello_message(NOW_MS);
    b.handle_message(&a_hello, &frame_and_raw(&a_hello), NOW_MS).unwrap();

    let b_recv = b.receiving_mac_key().as_ref().unwrap().clone();
    // The tracked remote sequence is 0; a message claiming 1 skips a value.
    let (skipped, raw) = auth_message_under_key(&b_recv, 1, 100);
    assert_eq!(
        b.handle_message(&skipped, &raw, NOW_MS),
        Err(StellarError::Verification(VerificationError::SequenceMismatch))
    );

    // After one accepted message, repeating its sequence is also rejected.
    let (ok_msg, ok_raw) = auth_message_under_key(&b_recv, 0, 100);
    assert_eq!(b.handle_message(&ok_msg, &ok_raw, NOW_MS), Ok(HandshakeMessageExtract::Auth));
    let (replayed, replay_raw) = auth_message_under_key(&b_recv, 0, 100);
    assert_eq!(
        b.handle_message(&replayed, &replay_raw, NOW_MS),
        Err(StellarError::Verification(VerificationError::SequenceMismatch))
    );
}

#[test]
fn flipped_body_is_rejected_as_mac_failure() {
    let mut a = make_protocol(1, 2, 10);
    let mut b = make_protocol(3, 4, 11);
    let a_hello = a.create_hello_message(NOW_MS);
    b.handle_message(&a_hello, &frame_and_raw(&a_hello), NOW_MS).unwrap();

    let b_recv = b.receiving_mac_key().as_ref().unwrap().clone();
    // MAC computed over flags 100, but the message body carries 101: one
    // flipped bit in the covered bytes.
    let correct = StellarMessage::Auth(Auth { flags: 100 });
    let mut body = 0u64.to_be_bytes().to_vec();
    body.extend_from_slice(&correct.to_xdr());
    let mac = create_sha256_hmac(&body, &b_recv);
    let archive = XdrArchive::new(vec![AuthenticatedMessage::V0(AuthenticatedMessageV0 {
        sequence: 0,
        message: StellarMessage::Auth(Auth { flags: 101 }),
        mac: HmacSha256Mac { mac },
    })]);
    let raw = frame_and_raw(&archive);
    assert_eq!(
        b.handle_message(&archive, &raw, NOW_MS),
        Err(StellarError::Verification(VerificationError::MacKey))
    );
}

#[test]
fn expired_certificate_aborts_hello_handling() {
    let mut a = make_protocol(1, 2, 10);
    let mut b = make_protocol(3, 4, 11);
    let a_hello = a.create_hello_message(NOW_MS);
    let raw = frame_and_raw(&a_hello);
    // Far enough in the future, the certificate in the hello has expired.
    let later = NOW_MS + AUTH_EXPIRATION_LIMIT + 1;
    assert_eq!(
        b.handle_message(&a_hello, &raw, later),
        Err(StellarError::AuthenticationError(AuthenticationError::VerificationCertExpired))
    );
    assert!(b.sending_mac_key().is_none(), "a failed hello derives no keys");
}

#[test]
fn auth_message_increments_local_sequence_and_carries_mac() {
    let mut a = make_protocol(1, 2, 10);
    let mut b = make_protocol(3, 4, 11);
    let b_hello = b.create_hello_message(NOW_MS);
    a.handle_message(&b_hello, &frame_and_raw(&b_hello), NOW_MS).unwrap();

    assert_eq!(a.local_sequence(), &vec![0u8; 8]);
    let auth = a.create_auth_message();
    assert_eq!(a.local_sequence(), &vec![0, 0, 0, 0, 0, 0, 0, 1]);

    let AuthenticatedMessage::V0(v0) = &auth.get_vec()[0];
    assert_eq!(v0.sequence, 0);
    let mut body = 0u64.to_be_bytes().to_vec();
    body.extend_from_slice(&v0.message.to_xdr());
    let expected = create_sha256_hmac(&body, a.sending_mac_key().as_ref().unwrap());
    assert_eq!(v0.mac.mac, expected);
}

#[test]
fn auth_message_before_keys_has_zero_mac() {
    let mut a = make_protocol(1, 2, 10);
    let auth = a.create_auth_message();
    let AuthenticatedMessage::V0(v0) = &auth.get_vec()[0];
    assert_eq!(v0.mac.mac, vec![0u8; 32]);
}

#[test]
fn remote_node_info_takes_nonce_and_cert_key() {
    let mut a = make_protocol(1, 2, 10);
    let hello_archive = a.create_hello_message(NOW_MS);
    let AuthenticatedMessage::V0(v0) = &hello_archive.get_vec()[0];
    if let StellarMessage::Hello(hello) = &v0.message {
        let info = RemoteNodeInfo::from_hello(hello);
        assert_eq!(info.nonce, hello.nonce);
        assert_eq!(info.public_key.key, hello.cert.pubkey.key);
    } else {
        panic!("expected a Hello");
    }
}

#[test]
fn node_config_describes_known_networks() {
    let local = NodeConfig::local();
    assert_eq!(local.listening_port, 11625);
    assert_eq!(local.node_info.ledger_version, 19);
    assert_eq!(local.node_info.network_id, "Test SDF Network ; September 2015");
    let mainnet = NodeConfig::mainnet();
    assert_eq!(
        mainnet.node_info.network_id,
        "Public Global Stellar Network ; September 2015"
    );
}
