use stellar_handshake::codec::{DecodeError, ReadStream, WriteStream};
use stellar_handshake::compound_types::LimitedString;
use stellar_handshake::frame::{XdrArchive, complete_message_size, parse_message};
use stellar_handshake::messages::{
    Auth, AuthenticatedMessage, AuthenticatedMessageV0, Hello, StellarMessage,
};
use stellar_handshake::types::{AuthCert, Curve25519Public, HmacSha256Mac, PublicKey};

fn sample_hello() -> Hello {
    Hello {
        ledger_version: 19,
        overlay_version: 29,
        overlay_min_version: 27,
        network_id: (0u8..32).collect(),
        version_str: LimitedString::new(b"v19.13.0".to_vec()).unwrap(),
        listening_port: 11625,
        peer_id: PublicKey::PublicKeyTypeEd25519(vec![7u8; 32]),
        cert: AuthCert {
            pubkey: Curve25519Public { key: vec![9u8; 32] },
            expiration: 123_456_789,
            sig: LimitedString::new(vec![3u8; 64]).unwrap(),
        },
        nonce: vec![5u8; 32],
    }
}

fn sample_authenticated(message: StellarMessage, sequence: u64) -> AuthenticatedMessage {
    AuthenticatedMessage::V0(AuthenticatedMessageV0 {
        sequence,
        message,
        mac: HmacSha256Mac { mac: vec![0u8; 32] },
    })
}

#[test]
fn hello_roundtrip() {
    let hello = sample_hello();
    let mut ws = WriteStream::new();
    hello.encode(&mut ws);
    let bytes = ws.result();
    let mut rs = ReadStream::new(bytes.as_slice());
    let back = Hello::from_xdr_buffered(&mut rs).unwrap();
    assert_eq!(back, hello);
    assert_eq!(rs.get_position(), bytes.len());
}

#[test]
fn auth_roundtrip() {
    let auth = Auth { flags: 100 };
    let mut ws = WriteStream::new();
    auth.encode(&mut ws);
    let bytes = ws.result();
    assert_eq!(bytes, vec![0, 0, 0, 100]);
    let mut rs = ReadStream::new(bytes.as_slice());
    assert_eq!(Auth::from_xdr_buffered(&mut rs).unwrap(), auth);
}

#[test]
fn stellar_message_roundtrip_both_variants() {
    for message in [
        StellarMessage::Hello(sample_hello()),
        StellarMessage::Auth(Auth { flags: 100 }),
    ] {
        let bytes = message.to_xdr();
        let mut rs = ReadStream::new(bytes.as_slice());
        let back = StellarMessage::from_xdr_buffered(&mut rs).unwrap();
        assert_eq!(back, message);
        assert_eq!(rs.get_position(), bytes.len());
    }
}

#[test]
fn authenticated_message_roundtrip() {
    let message = sample_authenticated(StellarMessage::Hello(sample_hello()), 42);
    let bytes = message.to_xdr();
    let mut rs = ReadStream::new(bytes.as_slice());
    let back = AuthenticatedMessage::from_xdr_buffered(&mut rs).unwrap();
    assert_eq!(back, message);
    assert_eq!(rs.get_position(), bytes.len());
}

#[test]
fn message_type_255_is_invalid_discriminator() {
    let mut ws = WriteStream::new();
    ws.write_u32(255);
    let bytes = ws.result();
    let mut rs = ReadStream::new(bytes.as_slice());
    match StellarMessage::from_xdr_buffered(&mut rs) {
        Err(DecodeError::InvalidEnumDiscriminator { at_position }) => assert_eq!(at_position, 4),
        other => panic!("expected InvalidEnumDiscriminator, got {:?}", other),
    }
}

#[test]
fn public_key_type_255_is_invalid_discriminator() {
    let mut ws = WriteStream::new();
    ws.write_u32(255);
    ws.write_binary_data(&[0u8; 32]);
    let bytes = ws.result();
    let mut rs = ReadStream::new(bytes.as_slice());
    assert!(matches!(
        PublicKey::from_xdr_buffered(&mut rs),
        Err(DecodeError::InvalidEnumDiscriminator { .. })
    ));
}

#[test]
fn authenticated_message_version_255_is_invalid_discriminator() {
    let mut ws = WriteStream::new();
    ws.write_u32(255);
    let bytes = ws.result();
    let mut rs = ReadStream::new(bytes.as_slice());
    assert!(matches!(
        AuthenticatedMessage::from_xdr_buffered(&mut rs),
        Err(DecodeError::InvalidEnumDiscriminator { .. })
    ));
}

#[test]
fn truncated_hello_is_sudden_end() {
    let hello = sample_hello();
    let mut ws = WriteStream::new();
    hello.encode(&mut ws);
    let bytes = ws.result();
    let truncated = &bytes[..bytes.len() - 1];
    let mut rs = ReadStream::new(truncated);
    assert!(matches!(
        Hello::from_xdr_buffered(&mut rs),
        Err(DecodeError::SuddenEnd { .. })
    ));
}

#[test]
fn frame_prefix_carries_length_and_reserved_bit() {
    let message = sample_authenticated(StellarMessage::Auth(Auth { flags: 100 }), 0);
    let inner_len = message.to_xdr().len();
    let archive = XdrArchive::new(vec![message]);
    let frame = archive.to_xdr();
    assert_eq!(frame.len(), 4 + inner_len);
    let declared = u32::from_be_bytes([frame[0], frame[1], frame[2], frame[3]]);
    assert_eq!(declared & 0x8000_0000, 0x8000_0000);
    assert_eq!((declared & 0x7FFF_FFFF) as usize, inner_len);
}

#[test]
fn frame_reassembly_incomplete_until_whole_frame_present() {
    let message = sample_authenticated(StellarMessage::Hello(sample_hello()), 0);
    let archive = XdrArchive::new(vec![message]);
    let frame = archive.to_xdr();
    for cut in 0..frame.len() {
        assert_eq!(complete_message_size(&frame[..cut]), None, "cut {cut}");
    }
    assert_eq!(complete_message_size(&frame), Some(frame.len()));
    // Trailing bytes of a following frame do not change the answer.
    let mut extended = frame.clone();
    extended.extend_from_slice(&[0xAB, 0xCD]);
    assert_eq!(complete_message_size(&extended), Some(frame.len()));
}

#[test]
fn frame_reassembly_yields_identical_message_regardless_of_chunking() {
    let message = sample_authenticated(StellarMessage::Hello(sample_hello()), 7);
    let archive = XdrArchive::new(vec![message]);
    let frame = archive.to_xdr();

    // Arrival one byte at a time: parse only ever succeeds at the end.
    let mut buffer: Vec<u8> = Vec::new();
    let mut decoded_late = None;
    for &b in &frame {
        buffer.push(b);
        match parse_message(&buffer).unwrap() {
            Some((got, raw)) => {
                assert_eq!(buffer.len(), frame.len());
                assert_eq!(raw, frame[4..].to_vec());
                decoded_late = Some(got);
            },
            None => assert!(buffer.len() < frame.len()),
        }
    }

    // Arrival all at once.
    let (decoded_once, raw_once) = parse_message(&frame).unwrap().unwrap();
    assert_eq!(raw_once, frame[4..].to_vec());
    let late = decoded_late.expect("whole frame must parse");
    assert_eq!(late.get_vec(), decoded_once.get_vec());
    assert_eq!(late.get_vec().len(), 1);
    assert_eq!(late.get_vec()[0], archive.get_vec()[0]);
}

#[test]
fn frame_with_wrong_declared_length_is_archive_length_error() {
    let message = sample_authenticated(StellarMessage::Auth(Auth { flags: 100 }), 0);
    let archive = XdrArchive::new(vec![message]);
    let mut frame = archive.to_xdr();
    let inner_len = (frame.len() - 4) as u32;
    // Declare 4 bytes more than the payload decodes to, and supply them.
    let wrong = (inner_len + 4) | 0x8000_0000;
    frame[..4].copy_from_slice(&wrong.to_be_bytes());
    frame.extend_from_slice(&[0, 0, 0, 0]);
    match parse_message(&frame) {
        Err(DecodeError::InvalidXdrArchiveLength { at_position }) => assert_eq!(at_position, 4),
        other => panic!("expected InvalidXdrArchiveLength, got {:?}", other),
    }
}

#[test]
fn empty_buffer_parses_to_nothing() {
    assert!(parse_message(&[]).unwrap().is_none());
    let mut rs = ReadStream::new(&[][..]);
    let archive = XdrArchive::from_xdr_buffered(&mut rs).unwrap();
    assert!(archive.get_vec().is_empty());
}
