//! The fixed wire types of the protocol: tagged enums, key material
//! carriers, MACs, and the short-lived auth certificate.
//!
//! Every type carries its wire form as a spec function (`spec_enc`), its
//! meaning as a spec decoder (`spec_dec`), and a proof that decoding the
//! encoded form yields the value back.

use vstd::prelude::*;
use crate::codec::{
    DecodeError, ReadStream, WriteStream, bytes_at, clamp_to_usize, lemma_bytes_at_split,
    lemma_dec_fixed_at, lemma_dec_u32_at, lemma_dec_u64_at, spec_dec_fixed, spec_dec_u32,
    spec_dec_u64, spec_enc_fixed, spec_u32_be, spec_u64_be,
};
use crate::compound_types::LimitedString;

verus! {

broadcast use crate::codec::ReadStream::lemma_wf_bounds;

/// The discriminant of a `StellarMessage`: the two messages the handshake
/// exchanges.
#[derive(Debug, Clone, Copy, PartialEq, Eq, Structural)]
pub enum MessageType {
    Auth,
    Hello,
}

impl MessageType {
    /// The wire tag of each variant.
    pub open spec fn tag(self) -> u32 {
        match self {
            MessageType::Auth => 2,
            MessageType::Hello => 13,
        }
    }

    /// The wire form: the tag as a big-endian `u32`.
    pub open spec fn spec_enc(self) -> Seq<u8> {
        spec_u32_be(self.tag())
    }

    /// Spec decoder: any tag that names no variant is a hard error.
    pub open spec fn spec_dec(src: Seq<u8>, pos: int) -> Result<(MessageType, int), DecodeError> {
        match spec_dec_u32(src, pos) {
            Ok((tag, p)) => if tag == 2 {
                Ok((MessageType::Auth, p))
            } else if tag == 13 {
                Ok((MessageType::Hello, p))
            } else {
                Err(DecodeError::InvalidEnumDiscriminator { at_position: clamp_to_usize(p) })
            },
            Err(e) => Err(e),
        }
    }

    pub fn encode(&self, write_stream: &mut WriteStream)
        ensures
            final(write_stream).bytes() == old(write_stream).bytes() + self.spec_enc(),
    {
        match self {
            MessageType::Auth => write_stream.write_u32(2),
            MessageType::Hello => write_stream.write_u32(13),
        }
    }

    pub fn from_xdr_buffered(read_stream: &mut ReadStream) -> (r: Result<MessageType, DecodeError>)
        requires
            old(read_stream).wf(),
        ensures
            final(read_stream).wf(),
            final(read_stream).data() == old(read_stream).data(),
            (match Self::spec_dec(old(read_stream).data(), old(read_stream).pos()) {
                Ok(res) => r matches Ok(v) && v == res.0 && final(read_stream).pos() == res.1,
                Err(e) => r matches Err(e2) && e2 == e,
            }),
    {
        let enum_value = match read_stream.read_next_u32() {
            Ok(v) => v,
            Err(e) => {
                return Err(e);
            },
        };
        match enum_value {
            2u32 => Ok(MessageType::Auth),
            13u32 => Ok(MessageType::Hello),
            _ => Err(
                DecodeError::InvalidEnumDiscriminator { at_position: read_stream.get_position() },
            ),
        }
    }

    /// Decoding the encoded tag yields the variant back.
    pub proof fn lemma_roundtrip(self, src: Seq<u8>, pos: int)
        requires
            bytes_at(src, pos, self.spec_enc()),
        ensures
            Self::spec_dec(src, pos) == Ok::<(MessageType, int), DecodeError>((self, pos + 4)),
    {
        lemma_dec_u32_at(src, pos, self.tag());
    }

    /// A tag that names no variant is always rejected as an invalid
    /// discriminator, whatever follows it.
    pub proof fn lemma_unknown_tag_rejected(src: Seq<u8>, pos: int, tag: u32)
        requires
            bytes_at(src, pos, spec_u32_be(tag)),
            tag != 2,
            tag != 13,
        ensures
            Self::spec_dec(src, pos) == Err::<(MessageType, int), DecodeError>(
                DecodeError::InvalidEnumDiscriminator { at_position: clamp_to_usize(pos + 4) },
            ),
    {
        lemma_dec_u32_at(src, pos, tag);
    }
}

/// The envelope tag that an auth certificate's signature digest covers.
#[derive(Debug, Clone, Copy, PartialEq, Eq, Structural)]
pub enum EnvelopeType {
    EnvelopeTypeAuth,
}

impl EnvelopeType {
    /// The wire tag of each variant.
    pub open spec fn tag(self) -> u32 {
        match self {
            EnvelopeType::EnvelopeTypeAuth => 3,
        }
    }

    /// The wire form: the tag as a big-endian `u32`.
    pub open spec fn spec_enc(self) -> Seq<u8> {
        spec_u32_be(self.tag())
    }

    /// Spec decoder: any tag that names no variant is a hard error.
    pub open spec fn spec_dec(src: Seq<u8>, pos: int) -> Result<(EnvelopeType, int), DecodeError> {
        match spec_dec_u32(src, pos) {
            Ok((tag, p)) => if tag == 3 {
                Ok((EnvelopeType::EnvelopeTypeAuth, p))
            } else {
                Err(DecodeError::InvalidEnumDiscriminator { at_position: clamp_to_usize(p) })
            },
            Err(e) => Err(e),
        }
    }

    pub fn encode(&self, write_stream: &mut WriteStream)
        ensures
            final(write_stream).bytes() == old(write_stream).bytes() + self.spec_enc(),
    {
        match self {
            EnvelopeType::EnvelopeTypeAuth => write_stream.write_u32(3),
        }
    }

    /// The wire form as a standalone byte vector.
    pub fn encoded(&self) -> (r: Vec<u8>)
        ensures
            r@ == self.spec_enc(),
    {
        let mut write_stream = WriteStream::new();
        self.encode(&mut write_stream);
        write_stream.result()
    }

    pub fn from_xdr_buffered(read_stream: &mut ReadStream) -> (r: Result<EnvelopeType, DecodeError>)
        requires
            old(read_stream).wf(),
        ensures
            final(read_stream).wf(),
            final(read_stream).data() == old(read_stream).data(),
            (match Self::spec_dec(old(read_stream).data(), old(read_stream).pos()) {
                Ok(res) => r matches Ok(v) && v == res.0 && final(read_stream).pos() == res.1,
                Err(e) => r matches Err(e2) && e2 == e,
            }),
    {
        let enum_value = match read_stream.read_next_u32() {
            Ok(v) => v,
            Err(e) => {
                return Err(e);
            },
        };
        match enum_value {
            3u32 => Ok(EnvelopeType::EnvelopeTypeAuth),
            _ => Err(
                DecodeError::InvalidEnumDiscriminator { at_position: read_stream.get_position() },
            ),
        }
    }

    /// A tag that names no variant is always rejected as an invalid
    /// discriminator, whatever follows it.
    pub proof fn lemma_unknown_tag_rejected(src: Seq<u8>, pos: int, tag: u32)
        requires
            bytes_at(src, pos, spec_u32_be(tag)),
            tag != 3,
        ensures
            Self::spec_dec(src, pos) == Err::<(EnvelopeType, int), DecodeError>(
                DecodeError::InvalidEnumDiscriminator { at_position: clamp_to_usize(pos + 4) },
            ),
    {
        lemma_dec_u32_at(src, pos, tag);
    }
}

/// The discriminant of a `PublicKey`.
#[derive(Debug, Clone, Copy, PartialEq, Eq, Structural)]
pub enum PublicKeyType {
    PublicKeyTypeEd25519,
}

impl PublicKeyType {
    /// The wire tag of each variant.
    pub open spec fn tag(self) -> u32 {
        match self {
            PublicKeyType::PublicKeyTypeEd25519 => 0,
        }
    }

    /// The wire form: the tag as a big-endian `u32`.
    pub open spec fn spec_enc(self) -> Seq<u8> {
        spec_u32_be(self.tag())
    }

    /// Spec decoder: any tag that names no variant is a hard error.
    pub open spec fn spec_dec(src: Seq<u8>, pos: int) -> Result<(PublicKeyType, int), DecodeError> {
        match spec_dec_u32(src, pos) {
            Ok((tag, p)) => if tag == 0 {
                Ok((PublicKeyType::PublicKeyTypeEd25519, p))
            } else {
                Err(DecodeError::InvalidEnumDiscriminator { at_position: clamp_to_usize(p) })
            },
            Err(e) => Err(e),
        }
    }

    pub fn encode(&self, write_stream: &mut WriteStream)
        ensures
            final(write_stream).bytes() == old(write_stream).bytes() + self.spec_enc(),
    {
        match self {
            PublicKeyType::PublicKeyTypeEd25519 => write_stream.write_u32(0),
        }
    }

    pub fn from_xdr_buffered(read_stream: &mut ReadStream) -> (r: Result<
        PublicKeyType,
        DecodeError,
    >)
        requires
            old(read_stream).wf(),
        ensures
            final(read_stream).wf(),
            final(read_stream).data() == old(read_stream).data(),
            (match Self::spec_dec(old(read_stream).data(), old(read_stream).pos()) {
                Ok(res) => r matches Ok(v) && v == res.0 && final(read_stream).pos() == res.1,
                Err(e) => r matches Err(e2) && e2 == e,
            }),
    {
        let enum_value = match read_stream.read_next_u32() {
            Ok(v) => v,
            Err(e) => {
                return Err(e);
            },
        };
        match enum_value {
            0u32 => Ok(PublicKeyType::PublicKeyTypeEd25519),
            _ => Err(
                DecodeError::InvalidEnumDiscriminator { at_position: read_stream.get_position() },
            ),
        }
    }

    /// A tag that names no variant is always rejected as an invalid
    /// discriminator, whatever follows it.
    pub proof fn lemma_unknown_tag_rejected(src: Seq<u8>, pos: int, tag: u32)
        requires
            bytes_at(src, pos, spec_u32_be(tag)),
            tag != 0,
        ensures
            Self::spec_dec(src, pos) == Err::<(PublicKeyType, int), DecodeError>(
                DecodeError::InvalidEnumDiscriminator { at_position: clamp_to_usize(pos + 4) },
            ),
    {
        lemma_dec_u32_at(src, pos, tag);
    }
}

/// A long-term identity public key: an Ed25519 key on the wire, tagged with
/// its type.
#[derive(Debug, Clone, PartialEq, Eq)]
pub enum PublicKey {
    PublicKeyTypeEd25519(Vec<u8>),
}

/// A node's identity on the wire is its public key.
pub type NodeId = PublicKey;

impl PublicKey {
    /// The 32 raw key bytes.
    pub open spec fn key_bytes(&self) -> Seq<u8> {
        match self {
            PublicKey::PublicKeyTypeEd25519(key) => key@,
        }
    }

    /// The key has Ed25519 length.
    pub open spec fn wf(&self) -> bool {
        self.key_bytes().len() == 32
    }

    /// The wire form: the type tag, then the raw key bytes.
    pub open spec fn spec_enc(&self) -> Seq<u8> {
        spec_u32_be(0) + spec_enc_fixed(self.key_bytes())
    }

    /// Spec decoder, yielding the raw key bytes.
    pub open spec fn spec_dec(src: Seq<u8>, pos: int) -> Result<(Seq<u8>, int), DecodeError> {
        match PublicKeyType::spec_dec(src, pos) {
            Ok((_t, p)) => match spec_dec_fixed(src, p, 32) {
                Ok((key, p2)) => Ok((key, p2)),
                Err(e) => Err(e),
            },
            Err(e) => Err(e),
        }
    }

    /// The raw key bytes.
    pub fn as_binary(&self) -> (r: &Vec<u8>)
        ensures
            r@ == self.key_bytes(),
    {
        match self {
            PublicKey::PublicKeyTypeEd25519(key) => key,
        }
    }

    pub fn encode(&self, write_stream: &mut WriteStream)
        requires
            self.wf(),
        ensures
            final(write_stream).bytes() == old(write_stream).bytes() + self.spec_enc(),
    {
        match self {
            PublicKey::PublicKeyTypeEd25519(key) => {
                PublicKeyType::PublicKeyTypeEd25519.encode(write_stream);
                write_stream.write_binary_data(key.as_slice());
            },
        }
    }

    pub fn from_xdr_buffered(read_stream: &mut ReadStream) -> (r: Result<PublicKey, DecodeError>)
        requires
            old(read_stream).wf(),
        ensures
            final(read_stream).wf(),
            final(read_stream).data() == old(read_stream).data(),
            (match Self::spec_dec(old(read_stream).data(), old(read_stream).pos()) {
                Ok(res) => r matches Ok(v) && v.key_bytes() == res.0 && v.wf()
                    && final(read_stream).pos() == res.1,
                Err(e) => r matches Err(e2) && e2 == e,
            }),
    {
        match PublicKeyType::from_xdr_buffered(read_stream) {
            Ok(PublicKeyType::PublicKeyTypeEd25519) => match read_stream.read_bytes_array(32) {
                Ok(key) => Ok(PublicKey::PublicKeyTypeEd25519(key)),
                Err(e) => Err(e),
            },
            Err(e) => Err(e),
        }
    }

    /// Decoding the encoded form yields the key bytes back.
    pub proof fn lemma_roundtrip(&self, src: Seq<u8>, pos: int)
        requires
            self.wf(),
            bytes_at(src, pos, self.spec_enc()),
        ensures
            Self::spec_dec(src, pos) == Ok::<(Seq<u8>, int), DecodeError>(
                (self.key_bytes(), pos + self.spec_enc().len()),
            ),
    {
        lemma_bytes_at_split(src, pos, spec_u32_be(0), spec_enc_fixed(self.key_bytes()));
        lemma_dec_u32_at(src, pos, 0);
        lemma_dec_fixed_at(src, pos + 4, self.key_bytes());
    }
}

/// An ephemeral Curve25519 public key.
#[derive(Debug, Clone, PartialEq, Eq)]
pub struct Curve25519Public {
    pub key: Vec<u8>,
}

impl Curve25519Public {
    /// The key has Curve25519 length.
    pub open spec fn wf(&self) -> bool {
        self.key@.len() == 32
    }

    /// The wire form: the raw key bytes.
    pub open spec fn spec_enc(&self) -> Seq<u8> {
        spec_enc_fixed(self.key@)
    }

    /// Spec decoder, yielding the raw key bytes.
    pub open spec fn spec_dec(src: Seq<u8>, pos: int) -> Result<(Seq<u8>, int), DecodeError> {
        spec_dec_fixed(src, pos, 32)
    }

    /// A copy holding the same key bytes.
    pub fn duplicate(&self) -> (r: Curve25519Public)
        ensures
            r.key@ == self.key@,
    {
        let key = self.key.clone();
        proof {
            assert(key@ =~= self.key@);
        }
        Curve25519Public { key }
    }

    pub fn encode(&self, write_stream: &mut WriteStream)
        requires
            self.wf(),
        ensures
            final(write_stream).bytes() == old(write_stream).bytes() + self.spec_enc(),
    {
        write_stream.write_binary_data(self.key.as_slice());
    }

    pub fn from_xdr_buffered(read_stream: &mut ReadStream) -> (r: Result<
        Curve25519Public,
        DecodeError,
    >)
        requires
            old(read_stream).wf(),
        ensures
            final(read_stream).wf(),
            final(read_stream).data() == old(read_stream).data(),
            (match Self::spec_dec(old(read_stream).data(), old(read_stream).pos()) {
                Ok(res) => r matches Ok(v) && v.key@ == res.0 && v.wf()
                    && final(read_stream).pos() == res.1,
                Err(e) => r matches Err(e2) && e2 == e,
            }),
    {
        match read_stream.read_bytes_array(32) {
            Ok(key) => Ok(Curve25519Public { key }),
            Err(e) => Err(e),
        }
    }

    /// Decoding the encoded form yields the key bytes back.
    pub proof fn lemma_roundtrip(&self, src: Seq<u8>, pos: int)
        requires
            self.wf(),
            bytes_at(src, pos, self.spec_enc()),
        ensures
            Self::spec_dec(src, pos) == Ok::<(Seq<u8>, int), DecodeError>(
                (self.key@, pos + 32),
            ),
    {
        lemma_dec_fixed_at(src, pos, self.key@);
    }
}

/// An ephemeral Curve25519 secret key; never transmitted, but codable like
/// its public half.
#[derive(Debug, Clone, PartialEq, Eq)]
pub struct Curve25519Secret {
    pub key: Vec<u8>,
}

impl Curve25519Secret {
    /// The key has Curve25519 length.
    pub open spec fn wf(&self) -> bool {
        self.key@.len() == 32
    }

    /// The wire form: the raw key bytes.
    pub open spec fn spec_enc(&self) -> Seq<u8> {
        spec_enc_fixed(self.key@)
    }

    pub fn encode(&self, write_stream: &mut WriteStream)
        requires
            self.wf(),
        ensures
            final(write_stream).bytes() == old(write_stream).bytes() + self.spec_enc(),
    {
        write_stream.write_binary_data(self.key.as_slice());
    }

    pub fn from_xdr_buffered(read_stream: &mut ReadStream) -> (r: Result<
        Curve25519Secret,
        DecodeError,
    >)
        requires
            old(read_stream).wf(),
        ensures
            final(read_stream).wf(),
            final(read_stream).data() == old(read_stream).data(),
            (match spec_dec_fixed(old(read_stream).data(), old(read_stream).pos(), 32) {
                Ok(res) => r matches Ok(v) && v.key@ == res.0 && v.wf()
                    && final(read_stream).pos() == res.1,
                Err(e) => r matches Err(e2) && e2 == e,
            }),
    {
        match read_stream.read_bytes_array(32) {
            Ok(key) => Ok(Curve25519Secret { key }),
            Err(e) => Err(e),
        }
    }
}

/// A 32-byte HMAC-SHA256 tag.
#[derive(Debug, Clone, PartialEq, Eq)]
pub struct HmacSha256Mac {
    pub mac: Vec<u8>,
}

impl HmacSha256Mac {
    /// The tag has SHA-256 length.
    pub open spec fn wf(&self) -> bool {
        self.mac@.len() == 32
    }

    /// The wire form: the raw tag bytes.
    pub open spec fn spec_enc(&self) -> Seq<u8> {
        spec_enc_fixed(self.mac@)
    }

    /// Spec decoder, yielding the raw tag bytes.
    pub open spec fn spec_dec(src: Seq<u8>, pos: int) -> Result<(Seq<u8>, int), DecodeError> {
        spec_dec_fixed(src, pos, 32)
    }

    pub fn encode(&self, write_stream: &mut WriteStream)
        requires
            self.wf(),
        ensures
            final(write_stream).bytes() == old(write_stream).bytes() + self.spec_enc(),
    {
        write_stream.write_binary_data(self.mac.as_slice());
    }

    pub fn from_xdr_buffered(read_stream: &mut ReadStream) -> (r: Result<
        HmacSha256Mac,
        DecodeError,
    >)
        requires
            old(read_stream).wf(),
        ensures
            final(read_stream).wf(),
            final(read_stream).data() == old(read_stream).data(),
            (match Self::spec_dec(old(read_stream).data(), old(read_stream).pos()) {
                Ok(res) => r matches Ok(v) && v.mac@ == res.0 && v.wf()
                    && final(read_stream).pos() == res.1,
                Err(e) => r matches Err(e2) && e2 == e,
            }),
    {
        match read_stream.read_bytes_array(32) {
            Ok(mac) => Ok(HmacSha256Mac { mac }),
            Err(e) => Err(e),
        }
    }

    /// Decoding the encoded form yields the tag bytes back.
    pub proof fn lemma_roundtrip(&self, src: Seq<u8>, pos: int)
        requires
            self.wf(),
            bytes_at(src, pos, self.spec_enc()),
        ensures
            Self::spec_dec(src, pos) == Ok::<(Seq<u8>, int), DecodeError>(
                (self.mac@, pos + 32),
            ),
    {
        lemma_dec_fixed_at(src, pos, self.mac@);
    }
}

/// The abstract content of an `AuthCert`.
pub struct AuthCertView {
    pub pubkey: Seq<u8>,
    pub expiration: u64,
    pub sig: Seq<u8>,
}

/// A short-lived, self-signed binding of an ephemeral Curve25519 public key
/// to a node's long-term identity.
#[derive(Debug, Clone, PartialEq, Eq)]
pub struct AuthCert {
    pub pubkey: Curve25519Public,
    pub expiration: u64,
    pub sig: LimitedString,
}

impl AuthCert {
    /// The abstract content.
    pub open spec fn view_spec(&self) -> AuthCertView {
        AuthCertView {
            pubkey: self.pubkey.key@,
            expiration: self.expiration,
            sig: self.sig.bytes(),
        }
    }

    pub open spec fn wf(&self) -> bool {
        self.pubkey.wf() && self.sig.wf()
    }

    /// The wire form: ECDH public key, expiration, signature.
    pub open spec fn spec_enc(&self) -> Seq<u8> {
        self.pubkey.spec_enc() + spec_u64_be(self.expiration) + self.sig.spec_enc()
    }

    /// Spec decoder, yielding the abstract content.
    pub open spec fn spec_dec(src: Seq<u8>, pos: int) -> Result<(AuthCertView, int), DecodeError> {
        match Curve25519Public::spec_dec(src, pos) {
            Ok((pubkey, p)) => match spec_dec_u64(src, p) {
                Ok((expiration, p2)) => match LimitedString::spec_dec(src, p2) {
                    Ok((sig, p3)) => Ok((AuthCertView { pubkey, expiration, sig }, p3)),
                    Err(e) => Err(e),
                },
                Err(e) => Err(e),
            },
            Err(e) => Err(e),
        }
    }

    /// A copy holding the same content.
    pub fn duplicate(&self) -> (r: AuthCert)
        ensures
            r.view_spec() == self.view_spec(),
            r.wf() == self.wf(),
    {
        AuthCert {
            pubkey: self.pubkey.duplicate(),
            expiration: self.expiration,
            sig: self.sig.duplicate(),
        }
    }

    pub fn encode(&self, write_stream: &mut WriteStream)
        requires
            self.wf(),
        ensures
            final(write_stream).bytes() == old(write_stream).bytes() + self.spec_enc(),
    {
        self.pubkey.encode(write_stream);
        write_stream.write_u64(self.expiration);
        self.sig.encode(write_stream);
    }

    pub fn from_xdr_buffered(read_stream: &mut ReadStream) -> (r: Result<AuthCert, DecodeError>)
        requires
            old(read_stream).wf(),
        ensures
            final(read_stream).wf(),
            final(read_stream).data() == old(read_stream).data(),
            (match Self::spec_dec(old(read_stream).data(), old(read_stream).pos()) {
                Ok(res) => r matches Ok(v) && v.view_spec() == res.0 && v.wf()
                    && final(read_stream).pos() == res.1,
                Err(e) => r matches Err(e2) && e2 == e,
            }),
    {
        let pubkey = match Curve25519Public::from_xdr_buffered(read_stream) {
            Ok(v) => v,
            Err(e) => {
                return Err(e);
            },
        };
        let expiration = match read_stream.read_u64() {
            Ok(v) => v,
            Err(e) => {
                return Err(e);
            },
        };
        let sig = match LimitedString::from_xdr_buffered(read_stream) {
            Ok(v) => v,
            Err(e) => {
                return Err(e);
            },
        };
        Ok(AuthCert { pubkey, expiration, sig })
    }

    /// Decoding the encoded form yields the certificate's content back and
    /// consumes exactly the encoding.
    pub proof fn lemma_roundtrip(&self, src: Seq<u8>, pos: int)
        requires
            self.wf(),
            bytes_at(src, pos, self.spec_enc()),
        ensures
            Self::spec_dec(src, pos) == Ok::<(AuthCertView, int), DecodeError>(
                (self.view_spec(), pos + self.spec_enc().len()),
            ),
    {
        let enc_pub = self.pubkey.spec_enc();
        let enc_exp = spec_u64_be(self.expiration);
        let enc_sig = self.sig.spec_enc();
        assert(self.spec_enc() == enc_pub + (enc_exp + enc_sig)) by {
            assert(self.spec_enc() =~= enc_pub + (enc_exp + enc_sig));
        }
        lemma_bytes_at_split(src, pos, enc_pub, enc_exp + enc_sig);
        lemma_bytes_at_split(src, pos + enc_pub.len(), enc_exp, enc_sig);
        self.pubkey.lemma_roundtrip(src, pos);
        lemma_dec_u64_at(src, pos + enc_pub.len(), self.expiration);
        LimitedString::lemma_roundtrip(self.sig.bytes(), src, pos + enc_pub.len() + 8);
    }
}

} // verus!
