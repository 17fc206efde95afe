use stellar_handshake::codec::{DecodeError, ReadStream, WriteStream, extend_to_multiple_of_4};
use stellar_handshake::compound_types::{LengthedArray, LimitedString};
use stellar_handshake::misc::increase_buffer_by_one;
use stellar_handshake::types::{AuthCert, Curve25519Public, Curve25519Secret, EnvelopeType, HmacSha256Mac, PublicKey};

#[test]
fn write_u32_is_big_endian() {
    let mut ws = WriteStream::new();
    ws.write_u32(0xDEAD_BEEF);
    assert_eq!(ws.result(), vec![0xDE, 0xAD, 0xBE, 0xEF]);
}

#[test]
fn write_u64_is_big_endian() {
    let mut ws = WriteStream::new();
    ws.write_u64(0x0102_0304_0506_0708);
    assert_eq!(ws.result(), vec![1, 2, 3, 4, 5, 6, 7, 8]);
}

#[test]
fn write_i32_uses_twos_complement() {
    let mut ws = WriteStream::new();
    ws.write_i32(-2);
    assert_eq!(ws.result(), vec![0xFF, 0xFF, 0xFF, 0xFE]);
}

#[test]
fn u32_roundtrip() {
    let mut ws = WriteStream::new();
    ws.write_u32(123_456_789);
    let bytes = ws.result();
    let mut rs = ReadStream::new(bytes.as_slice());
    assert_eq!(rs.read_next_u32().unwrap(), 123_456_789);
    assert_eq!(rs.get_position(), 4);
}

#[test]
fn u64_roundtrip() {
    let mut ws = WriteStream::new();
    ws.write_u64(u64::MAX - 5);
    let bytes = ws.result();
    let mut rs = ReadStream::new(bytes.as_slice());
    assert_eq!(rs.read_u64().unwrap(), u64::MAX - 5);
}

#[test]
fn i32_roundtrip() {
    let mut ws = WriteStream::new();
    ws.write_i32(-11625);
    let bytes = ws.result();
    let mut rs = ReadStream::new(bytes.as_slice());
    assert_eq!(rs.read_i32().unwrap(), -11625);
}

#[test]
fn binary_data_padding_lengths_and_zeros() {
    for len in 0usize..9 {
        let data: Vec<u8> = (0..len).map(|i| (i + 1) as u8).collect();
        let mut ws = WriteStream::new();
        ws.write_binary_data(&data);
        let out = ws.result();
        let expected_len = 4 * ((len + 3) / 4);
        assert_eq!(out.len(), expected_len, "length {len}");
        assert_eq!(&out[..len], &data[..]);
        for &b in &out[len..] {
            assert_eq!(b, 0, "padding byte for length {len}");
        }
    }
}

#[test]
fn extend_to_multiple_of_4_rounds_up() {
    assert_eq!(extend_to_multiple_of_4(0), 0);
    assert_eq!(extend_to_multiple_of_4(1), 4);
    assert_eq!(extend_to_multiple_of_4(4), 4);
    assert_eq!(extend_to_multiple_of_4(5), 8);
    assert_eq!(extend_to_multiple_of_4(32), 32);
}

#[test]
fn read_bytes_array_consumes_padding() {
    let source = vec![9u8, 8, 7, 0, 0xAA];
    let mut rs = ReadStream::new(source.as_slice());
    let out = rs.read_bytes_array(3).unwrap();
    assert_eq!(out, vec![9, 8, 7]);
    assert_eq!(rs.get_position(), 4);
}

#[test]
fn truncated_read_is_sudden_end() {
    let source = vec![1u8, 2, 3];
    let mut rs = ReadStream::new(source.as_slice());
    match rs.read_next_u32() {
        Err(DecodeError::SuddenEnd { actual_length, expected_length }) => {
            assert_eq!(actual_length, 3);
            assert_eq!(expected_length, 4);
        },
        other => panic!("expected SuddenEnd, got {:?}", other),
    }
}

#[test]
fn read_length_masks_reserved_bit() {
    let source = vec![0x80u8, 0x00, 0x00, 0x2C];
    let mut rs = ReadStream::new(source.as_slice());
    assert_eq!(rs.read_length(false).unwrap(), 0x2C);
    assert_eq!(rs.get_position(), 4);
}

#[test]
fn read_length_peek_keeps_position() {
    let source = vec![0x80u8, 0x00, 0x00, 0x2C];
    let mut rs = ReadStream::new(source.as_slice());
    assert_eq!(rs.read_length(true).unwrap(), 0x2C);
    assert_eq!(rs.get_position(), 0);
}

#[test]
fn limited_string_roundtrip() {
    let s = LimitedString::new(b"v19.13.0".to_vec()).unwrap();
    let mut ws = WriteStream::new();
    s.encode(&mut ws);
    let bytes = ws.result();
    assert_eq!(bytes.len(), 4 + 8);
    let mut rs = ReadStream::new(bytes.as_slice());
    let back = LimitedString::from_xdr_buffered(&mut rs).unwrap();
    assert_eq!(back.get_vec(), s.get_vec());
    assert_eq!(rs.get_position(), bytes.len());
}

#[test]
fn limited_string_rejects_over_limit() {
    match LimitedString::new(vec![0u8; 101]) {
        Err(DecodeError::ExceedsMaximumLength { requested_length, allowed_length }) => {
            assert_eq!(requested_length, 101);
            assert_eq!(allowed_length, 100);
        },
        other => panic!("expected ExceedsMaximumLength, got {:?}", other),
    }
}

#[test]
fn limited_string_decode_rejects_over_limit_before_reading_body() {
    // Declared length 101 with no body at all: the bound is checked first.
    let mut ws = WriteStream::new();
    ws.write_u32(101);
    let bytes = ws.result();
    let mut rs = ReadStream::new(bytes.as_slice());
    match LimitedString::from_xdr_buffered(&mut rs) {
        Err(DecodeError::ExceedsMaximumLength { requested_length, allowed_length }) => {
            assert_eq!(requested_length, 101);
            assert_eq!(allowed_length, 100);
        },
        other => panic!("expected ExceedsMaximumLength, got {:?}", other),
    }
}

#[test]
fn lengthed_array_roundtrip() {
    let arr = LengthedArray::new(vec![1, 2, 3, 4, 5]);
    let mut ws = WriteStream::new();
    arr.encode(&mut ws);
    let bytes = ws.result();
    assert_eq!(bytes.len(), 4 + 8);
    let mut rs = ReadStream::new(bytes.as_slice());
    let back = LengthedArray::from_xdr_buffered(&mut rs).unwrap();
    assert_eq!(back.vec(), arr.vec());
}

#[test]
fn increase_buffer_by_one_carries() {
    let mut buf = vec![0u8; 8];
    increase_buffer_by_one(&mut buf);
    assert_eq!(buf, vec![0, 0, 0, 0, 0, 0, 0, 1]);

    let mut buf = vec![0, 0, 0, 0, 0, 0, 0, 255];
    increase_buffer_by_one(&mut buf);
    assert_eq!(buf, vec![0, 0, 0, 0, 0, 0, 1, 0]);

    let mut buf = vec![0, 0, 0, 0, 0, 1, 255, 255];
    increase_buffer_by_one(&mut buf);
    assert_eq!(buf, vec![0, 0, 0, 0, 0, 2, 0, 0]);

    let mut buf = vec![255u8; 8];
    increase_buffer_by_one(&mut buf);
    assert_eq!(buf, vec![0u8; 8]);
}

#[test]
fn envelope_tag_encodes_as_three() {
    assert_eq!(EnvelopeType::EnvelopeTypeAuth.encoded(), vec![0, 0, 0, 3]);
}

#[test]
fn curve25519_secret_roundtrip() {
    let secret = Curve25519Secret { key: (0u8..32).collect() };
    let mut ws = WriteStream::new();
    secret.encode(&mut ws);
    let bytes = ws.result();
    assert_eq!(bytes.len(), 32);
    let mut rs = ReadStream::new(bytes.as_slice());
    assert_eq!(Curve25519Secret::from_xdr_buffered(&mut rs).unwrap(), secret);
}

#[test]
fn hmac_mac_value_roundtrip() {
    let mac = HmacSha256Mac { mac: (100u8..132).collect() };
    let mut ws = WriteStream::new();
    mac.encode(&mut ws);
    let bytes = ws.result();
    let mut rs = ReadStream::new(bytes.as_slice());
    assert_eq!(HmacSha256Mac::from_xdr_buffered(&mut rs).unwrap(), mac);
}

#[test]
fn auth_cert_roundtrip() {
    let cert = AuthCert {
        pubkey: Curve25519Public { key: vec![1u8; 32] },
        expiration: u64::MAX - 17,
        sig: LimitedString::new(vec![9u8; 64]).unwrap(),
    };
    let mut ws = WriteStream::new();
    cert.encode(&mut ws);
    let bytes = ws.result();
    let mut rs = ReadStream::new(bytes.as_slice());
    let back = AuthCert::from_xdr_buffered(&mut rs).unwrap();
    assert_eq!(back, cert);
    assert_eq!(back, cert.duplicate());
}

#[test]
fn limited_string_empty_and_duplicate() {
    let empty = LimitedString::empty();
    assert!(empty.get_vec().is_empty());
    let s = LimitedString::new(b"abc".to_vec()).unwrap();
    assert_eq!(s.duplicate(), s);
}

#[test]
fn public_key_as_binary_exposes_key() {
    let key = PublicKey::PublicKeyTypeEd25519(vec![8u8; 32]);
    assert_eq!(key.as_binary(), &vec![8u8; 32]);
}
