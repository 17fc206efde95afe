use stellar_handshake::crypto::{
    base32_decode, create_sha256, create_sha256_hmac, ed25519_verify, verify_sha256_hmac,
    x25519_public_key, x25519_scalarmult,
};
use stellar_handshake::keychain::{Keychain, KeychainError};

fn hex(s: &str) -> Vec<u8> {
    (0..s.len())
        .step_by(2)
        .map(|i| u8::from_str_radix(&s[i..i + 2], 16).unwrap())
        .collect()
}

#[test]
fn sha256_matches_known_vector() {
    let digest = create_sha256(b"abc");
    assert_eq!(
        digest,
        hex("ba7816bf8f01cfea414140de5dae2223b00361a396177a9cb410ff61f20015ad")
    );
}

#[test]
fn hmac_sha256_matches_known_vector() {
    // RFC 4231, test case 2.
    let tag = create_sha256_hmac(b"what do ya want for nothing?", b"Jefe");
    assert_eq!(
        tag,
        hex("5bdcc146bf60754e6a042426089575c75a003f089d2739839dec58b964ec3843")
    );
}

#[test]
fn hmac_verify_accepts_exactly_the_computed_tag() {
    let tag = create_sha256_hmac(b"payload", b"key");
    assert!(verify_sha256_hmac(&tag, b"key", b"payload"));
    let mut bad = tag.clone();
    bad[0] ^= 1;
    assert!(!verify_sha256_hmac(&bad, b"key", b"payload"));
    assert!(!verify_sha256_hmac(&tag, b"other key", b"payload"));
    assert!(!verify_sha256_hmac(&tag, b"key", b"payloae"));
}

#[test]
fn keychain_signs_verifiably() {
    let seed = [11u8; 32];
    let keychain = Keychain::from_seed(&seed);
    let message = b"some handshake bytes";
    let signature = keychain.sign(message);
    assert_eq!(signature.len(), 64);
    assert!(ed25519_verify(
        &signature,
        message,
        keychain.persistent_public_key()
    ));
    let mut tampered = signature.clone();
    tampered[10] ^= 0x40;
    assert!(!ed25519_verify(
        &tampered,
        message,
        keychain.persistent_public_key()
    ));
}

#[test]
fn keychain_matches_dryoc_seed_keypair() {
    let seed = [42u8; 32];
    let keychain = Keychain::from_seed(&seed);
    let (expected_public, _secret) = dryoc::classic::crypto_sign::crypto_sign_seed_keypair(&seed);
    assert_eq!(keychain.persistent_public_key().as_slice(), &expected_public);
    assert_eq!(keychain.public_key().as_binary().as_slice(), &expected_public);
}

#[test]
fn keychain_from_encoded_seed_roundtrip() {
    let seed = [5u8; 32];
    let mut payload = vec![0x90u8];
    payload.extend_from_slice(&seed);
    payload.extend_from_slice(&[0x12, 0x34]);
    let encoded = data_encoding::BASE32.encode(&payload);
    let keychain = Keychain::from_encoded_seed(&encoded).unwrap();
    let direct = Keychain::from_seed(&seed);
    assert_eq!(
        keychain.persistent_public_key(),
        direct.persistent_public_key()
    );
}

#[test]
fn keychain_from_encoded_seed_wrong_length() {
    let payload = vec![0x90u8, 1, 2, 3, 4, 5, 6, 7];
    let encoded = data_encoding::BASE32.encode(&payload);
    match Keychain::from_encoded_seed(&encoded) {
        Err(KeychainError::WrongLength { expected, actual }) => {
            assert_eq!(expected, 32);
            assert_eq!(actual, 5);
        },
        other => panic!("expected WrongLength, got {:?}", other),
    }
}

#[test]
fn keychain_from_invalid_base32_is_wrong_length() {
    assert!(matches!(
        Keychain::from_encoded_seed("not valid base32!!"),
        Err(KeychainError::WrongLength { .. })
    ));
}

#[test]
fn base32_decode_wrapper_matches_data_encoding() {
    let encoded = data_encoding::BASE32.encode(b"hello world");
    assert_eq!(
        base32_decode(encoded.as_bytes()).unwrap(),
        b"hello world".to_vec()
    );
    assert!(base32_decode(b"////").is_none());
}

#[test]
fn x25519_wrappers_match_dryoc() {
    let secret = [9u8; 32];
    let public = x25519_public_key(&secret);
    let mut expected = [0u8; 32];
    dryoc::classic::crypto_core::crypto_scalarmult_base(&mut expected, &secret);
    assert_eq!(public, expected.to_vec());

    let other_secret = [13u8; 32];
    let other_public = x25519_public_key(&other_secret);
    let shared_a = x25519_scalarmult(&secret, &other_public);
    let shared_b = x25519_scalarmult(&other_secret, &public);
    assert_eq!(shared_a, shared_b);
}

#[test]
fn generated_material_has_expected_lengths() {
    assert_eq!(stellar_handshake::misc::generate_secret_key().len(), 32);
    assert_eq!(stellar_handshake::misc::generate_nonce().len(), 32);
    let a = stellar_handshake::misc::generate_nonce();
    let b = stellar_handshake::misc::generate_nonce();
    assert_ne!(a, b, "two fresh nonces should differ");
}
