//! The two handshake messages and the authenticated envelope that carries
//! them on the wire.

use vstd::prelude::*;
use crate::codec::{
    DecodeError, ReadStream, WriteStream, bytes_at, clamp_to_usize, lemma_bytes_at_split,
    lemma_dec_fixed_at, lemma_dec_i32_at, lemma_dec_u32_at, lemma_dec_u64_at, spec_dec_fixed,
    spec_dec_i32, spec_dec_u32, spec_dec_u64, spec_enc_fixed, spec_i32_be, spec_u32_be,
    spec_u64_be,
};
use crate::compound_types::{LimitedString, spec_enc_var_bytes};
use crate::types::{AuthCert, AuthCertView, HmacSha256Mac, MessageType, NodeId, PublicKey};

verus! {

broadcast use crate::codec::ReadStream::lemma_wf_bounds;

/// The authentication-confirmation message: carries only its flags word.
#[derive(Debug, Clone, Copy, PartialEq, Eq, Structural)]
pub struct Auth {
    pub flags: u32,
}

impl Auth {
    /// The wire form: the flags as a big-endian `u32`.
    pub open spec fn spec_enc(&self) -> Seq<u8> {
        spec_u32_be(self.flags)
    }

    /// Spec decoder.
    pub open spec fn spec_dec(src: Seq<u8>, pos: int) -> Result<(Auth, int), DecodeError> {
        match spec_dec_u32(src, pos) {
            Ok((flags, p)) => Ok((Auth { flags }, p)),
            Err(e) => Err(e),
        }
    }

    pub fn encode(&self, write_stream: &mut WriteStream)
        ensures
            final(write_stream).bytes() == old(write_stream).bytes() + self.spec_enc(),
    {
        write_stream.write_u32(self.flags);
    }

    pub fn from_xdr_buffered(read_stream: &mut ReadStream) -> (r: Result<Auth, DecodeError>)
        requires
            old(read_stream).wf(),
        ensures
            final(read_stream).wf(),
            final(read_stream).data() == old(read_stream).data(),
            (match Self::spec_dec(old(read_stream).data(), old(read_stream).pos()) {
                Ok(res) => r matches Ok(v) && v == res.0 && final(read_stream).pos() == res.1,
                Err(e) => r matches Err(e2) && e2 == e,
            }),
    {
        match read_stream.read_next_u32() {
            Ok(flags) => Ok(Auth { flags }),
            Err(e) => Err(e),
        }
    }

    /// Decoding the encoded form yields the value back.
    pub proof fn lemma_roundtrip(&self, src: Seq<u8>, pos: int)
        requires
            bytes_at(src, pos, self.spec_enc()),
        ensures
            Self::spec_dec(src, pos) == Ok::<(Auth, int), DecodeError>((*self, pos + 4)),
    {
        lemma_dec_u32_at(src, pos, self.flags);
    }
}

/// The abstract content of a `Hello`.
pub struct HelloView {
    pub ledger_version: u32,
    pub overlay_version: u32,
    pub overlay_min_version: u32,
    pub network_id: Seq<u8>,
    pub version_str: Seq<u8>,
    pub listening_port: i32,
    pub peer_id: Seq<u8>,
    pub cert: AuthCertView,
    pub nonce: Seq<u8>,
}

/// The identity-announcement message: the sender's version claims, network,
/// identity key, auth certificate, and connection nonce.
#[derive(Debug, Clone, PartialEq, Eq)]
pub struct Hello {
    pub ledger_version: u32,
    pub overlay_version: u32,
    pub overlay_min_version: u32,
    pub network_id: Vec<u8>,
    pub version_str: LimitedString,
    pub listening_port: i32,
    pub peer_id: NodeId,
    pub cert: AuthCert,
    pub nonce: Vec<u8>,
}

impl Hello {
    /// The abstract content.
    pub open spec fn view_spec(&self) -> HelloView {
        HelloView {
            ledger_version: self.ledger_version,
            overlay_version: self.overlay_version,
            overlay_min_version: self.overlay_min_version,
            network_id: self.network_id@,
            version_str: self.version_str.bytes(),
            listening_port: self.listening_port,
            peer_id: self.peer_id.key_bytes(),
            cert: self.cert.view_spec(),
            nonce: self.nonce@,
        }
    }

    pub open spec fn wf(&self) -> bool {
        &&& self.network_id@.len() == 32
        &&& self.version_str.wf()
        &&& self.peer_id.wf()
        &&& self.cert.wf()
        &&& self.nonce@.len() == 32
    }

    /// The wire form: every field in declaration order.
    #[verifier::opaque]
    pub open spec fn spec_enc(&self) -> Seq<u8> {
        spec_u32_be(self.ledger_version) + spec_u32_be(self.overlay_version) + spec_u32_be(
            self.overlay_min_version,
        ) + spec_enc_fixed(self.network_id@) + self.version_str.spec_enc() + spec_i32_be(
            self.listening_port,
        ) + self.peer_id.spec_enc() + self.cert.spec_enc() + spec_enc_fixed(self.nonce@)
    }

    /// Spec decoder, yielding the abstract content.
    #[verifier::opaque]
    pub open spec fn spec_dec(src: Seq<u8>, pos: int) -> Result<(HelloView, int), DecodeError> {
        match spec_dec_u32(src, pos) {
            Ok((ledger_version, p1)) => match spec_dec_u32(src, p1) {
                Ok((overlay_version, p2)) => match spec_dec_u32(src, p2) {
                    Ok((overlay_min_version, p3)) => match spec_dec_fixed(src, p3, 32) {
                        Ok((network_id, p4)) => match LimitedString::spec_dec(src, p4) {
                            Ok((version_str, p5)) => match spec_dec_i32(src, p5) {
                                Ok((listening_port, p6)) => match PublicKey::spec_dec(src, p6) {
                                    Ok((peer_id, p7)) => match AuthCert::spec_dec(src, p7) {
                                        Ok((cert, p8)) => match spec_dec_fixed(src, p8, 32) {
                                            Ok((nonce, p9)) => Ok(
                                                (
                                                    HelloView {
                                                        ledger_version,
                                                        overlay_version,
                                                        overlay_min_version,
                                                        network_id,
                                                        version_str,
                                                        listening_port,
                                                        peer_id,
                                                        cert,
                                                        nonce,
                                                    },
                                                    p9,
                                                ),
                                            ),
                                            Err(e) => Err(e),
                                        },
                                        Err(e) => Err(e),
                                    },
                                    Err(e) => Err(e),
                                },
                                Err(e) => Err(e),
                            },
                            Err(e) => Err(e),
                        },
                        Err(e) => Err(e),
                    },
                    Err(e) => Err(e),
                },
                Err(e) => Err(e),
            },
            Err(e) => Err(e),
        }
    }

    pub fn encode(&self, write_stream: &mut WriteStream)
        requires
            self.wf(),
        ensures
            final(write_stream).bytes() == old(write_stream).bytes() + self.spec_enc(),
    {
        proof {
            reveal(Hello::spec_enc);
        }
        write_stream.write_u32(self.ledger_version);
        write_stream.write_u32(self.overlay_version);
        write_stream.write_u32(self.overlay_min_version);
        write_stream.write_binary_data(self.network_id.as_slice());
        self.version_str.encode(write_stream);
        write_stream.write_i32(self.listening_port);
        self.peer_id.encode(write_stream);
        self.cert.encode(write_stream);
        write_stream.write_binary_data(self.nonce.as_slice());
    }

    pub fn from_xdr_buffered(read_stream: &mut ReadStream) -> (r: Result<Hello, DecodeError>)
        requires
            old(read_stream).wf(),
        ensures
            final(read_stream).wf(),
            final(read_stream).data() == old(read_stream).data(),
            (match Self::spec_dec(old(read_stream).data(), old(read_stream).pos()) {
                Ok(res) => r matches Ok(v) && v.view_spec() == res.0 && v.wf()
                    && final(read_stream).pos() == res.1,
                Err(e) => r matches Err(e2) && e2 == e,
            }),
    {
        proof {
            reveal(Hello::spec_dec);
        }
        let ledger_version = match read_stream.read_next_u32() {
            Ok(v) => v,
            Err(e) => {
                return Err(e);
            },
        };
        let overlay_version = match read_stream.read_next_u32() {
            Ok(v) => v,
            Err(e) => {
                return Err(e);
            },
        };
        let overlay_min_version = match read_stream.read_next_u32() {
            Ok(v) => v,
            Err(e) => {
                return Err(e);
            },
        };
        let network_id = match read_stream.read_bytes_array(32) {
            Ok(v) => v,
            Err(e) => {
                return Err(e);
            },
        };
        let version_str = match LimitedString::from_xdr_buffered(read_stream) {
            Ok(v) => v,
            Err(e) => {
                return Err(e);
            },
        };
        let listening_port = match read_stream.read_i32() {
            Ok(v) => v,
            Err(e) => {
                return Err(e);
            },
        };
        let peer_id = match PublicKey::from_xdr_buffered(read_stream) {
            Ok(v) => v,
            Err(e) => {
                return Err(e);
            },
        };
        let cert = match AuthCert::from_xdr_buffered(read_stream) {
            Ok(v) => v,
            Err(e) => {
                return Err(e);
            },
        };
        let nonce = match read_stream.read_bytes_array(32) {
            Ok(v) => v,
            Err(e) => {
                return Err(e);
            },
        };
        Ok(
            Hello {
                ledger_version,
                overlay_version,
                overlay_min_version,
                network_id,
                version_str,
                listening_port,
                peer_id,
                cert,
                nonce,
            },
        )
    }

    /// Decoding the encoded form yields the message's content back and
    /// consumes exactly the encoding.
    #[verifier::rlimit(100)]
    pub proof fn lemma_roundtrip(&self, src: Seq<u8>, pos: int)
        requires
            self.wf(),
            bytes_at(src, pos, self.spec_enc()),
        ensures
            Self::spec_dec(src, pos) == Ok::<(HelloView, int), DecodeError>(
                (self.view_spec(), pos + self.spec_enc().len()),
            ),
    {
        reveal(Hello::spec_enc);
        reveal(Hello::spec_dec);
        let e1 = spec_u32_be(self.ledger_version);
        let e2 = spec_u32_be(self.overlay_version);
        let e3 = spec_u32_be(self.overlay_min_version);
        let e4 = spec_enc_fixed(self.network_id@);
        let e5 = self.version_str.spec_enc();
        let e6 = spec_i32_be(self.listening_port);
        let e7 = self.peer_id.spec_enc();
        let e8 = self.cert.spec_enc();
        let e9 = spec_enc_fixed(self.nonce@);
        let t9 = e9;
        let t8 = e8 + t9;
        let t7 = e7 + t8;
        let t6 = e6 + t7;
        let t5 = e5 + t6;
        let t4 = e4 + t5;
        let t3 = e3 + t4;
        let t2 = e2 + t3;
        assert(self.spec_enc() == e1 + t2) by {
            assert(self.spec_enc() =~= e1 + t2);
        }
        let p1 = pos + e1.len();
        let p2 = p1 + e2.len();
        let p3 = p2 + e3.len();
        let p4 = p3 + e4.len();
        let p5 = p4 + e5.len();
        let p6 = p5 + e6.len();
        let p7 = p6 + e7.len();
        let p8 = p7 + e8.len();
        let p9 = p8 + e9.len();
        lemma_bytes_at_split(src, pos, e1, t2);
        lemma_bytes_at_split(src, p1, e2, t3);
        lemma_bytes_at_split(src, p2, e3, t4);
        lemma_bytes_at_split(src, p3, e4, t5);
        lemma_bytes_at_split(src, p4, e5, t6);
        lemma_bytes_at_split(src, p5, e6, t7);
        lemma_bytes_at_split(src, p6, e7, t8);
        lemma_bytes_at_split(src, p7, e8, t9);
        lemma_dec_u32_at(src, pos, self.ledger_version);
        lemma_dec_u32_at(src, p1, self.overlay_version);
        lemma_dec_u32_at(src, p2, self.overlay_min_version);
        lemma_dec_fixed_at(src, p3, self.network_id@);
        LimitedString::lemma_roundtrip(self.version_str.bytes(), src, p4);
        lemma_dec_i32_at(src, p5, self.listening_port);
        self.peer_id.lemma_roundtrip(src, p6);
        self.cert.lemma_roundtrip(src, p7);
        lemma_dec_fixed_at(src, p8, self.nonce@);
        assert(pos + self.spec_enc().len() == p9);
    }
}

/// The abstract content of a `StellarMessage`.
pub enum StellarMessageView {
    Hello(HelloView),
    Auth(Auth),
}

/// A protocol message: the type tag followed by the matching body.
#[derive(Debug, Clone, PartialEq, Eq)]
pub enum StellarMessage {
    Hello(Hello),
    Auth(Auth),
}

impl StellarMessage {
    /// The abstract content.
    pub open spec fn view_spec(&self) -> StellarMessageView {
        match self {
            StellarMessage::Hello(h) => StellarMessageView::Hello(h.view_spec()),
            StellarMessage::Auth(a) => StellarMessageView::Auth(*a),
        }
    }

    pub open spec fn wf(&self) -> bool {
        match self {
            StellarMessage::Hello(h) => h.wf(),
            StellarMessage::Auth(_a) => true,
        }
    }

    /// The wire form: the type tag, then the body.
    pub open spec fn spec_enc(&self) -> Seq<u8> {
        match self {
            StellarMessage::Hello(h) => MessageType::Hello.spec_enc() + h.spec_enc(),
            StellarMessage::Auth(a) => MessageType::Auth.spec_enc() + a.spec_enc(),
        }
    }

    /// Spec decoder, yielding the abstract content; an unknown tag is a
    /// hard error.
    pub open spec fn spec_dec(src: Seq<u8>, pos: int) -> Result<
        (StellarMessageView, int),
        DecodeError,
    > {
        match MessageType::spec_dec(src, pos) {
            Ok((MessageType::Hello, p)) => match Hello::spec_dec(src, p) {
                Ok((h, p2)) => Ok((StellarMessageView::Hello(h), p2)),
                Err(e) => Err(e),
            },
            Ok((MessageType::Auth, p)) => match Auth::spec_dec(src, p) {
                Ok((a, p2)) => Ok((StellarMessageView::Auth(a), p2)),
                Err(e) => Err(e),
            },
            Err(e) => Err(e),
        }
    }

    pub fn encode(&self, write_stream: &mut WriteStream)
        requires
            self.wf(),
        ensures
            final(write_stream).bytes() == old(write_stream).bytes() + self.spec_enc(),
    {
        match self {
            StellarMessage::Hello(value) => {
                MessageType::Hello.encode(write_stream);
                value.encode(write_stream);
            },
            StellarMessage::Auth(value) => {
                MessageType::Auth.encode(write_stream);
                value.encode(write_stream);
            },
        }
    }

    /// The wire form as a standalone byte vector.
    pub fn to_xdr(&self) -> (r: Vec<u8>)
        requires
            self.wf(),
        ensures
            r@ == self.spec_enc(),
    {
        let mut write_stream = WriteStream::new();
        self.encode(&mut write_stream);
        write_stream.result()
    }

    pub fn from_xdr_buffered(read_stream: &mut ReadStream) -> (r: Result<
        StellarMessage,
        DecodeError,
    >)
        requires
            old(read_stream).wf(),
        ensures
            final(read_stream).wf(),
            final(read_stream).data() == old(read_stream).data(),
            (match Self::spec_dec(old(read_stream).data(), old(read_stream).pos()) {
                Ok(res) => r matches Ok(v) && v.view_spec() == res.0 && v.wf()
                    && final(read_stream).pos() == res.1,
                Err(e) => r matches Err(e2) && e2 == e,
            }),
    {
        match MessageType::from_xdr_buffered(read_stream) {
            Ok(MessageType::Hello) => match Hello::from_xdr_buffered(read_stream) {
                Ok(h) => Ok(StellarMessage::Hello(h)),
                Err(e) => Err(e),
            },
            Ok(MessageType::Auth) => match Auth::from_xdr_buffered(read_stream) {
                Ok(a) => Ok(StellarMessage::Auth(a)),
                Err(e) => Err(e),
            },
            Err(e) => Err(e),
        }
    }

    /// Decoding the encoded form yields the message's content back and
    /// consumes exactly the encoding.
    #[verifier::rlimit(100)]
    pub proof fn lemma_roundtrip(&self, src: Seq<u8>, pos: int)
        requires
            self.wf(),
            bytes_at(src, pos, self.spec_enc()),
        ensures
            Self::spec_dec(src, pos) == Ok::<(StellarMessageView, int), DecodeError>(
                (self.view_spec(), pos + self.spec_enc().len()),
            ),
    {
        match self {
            StellarMessage::Hello(h) => {
                lemma_bytes_at_split(src, pos, MessageType::Hello.spec_enc(), h.spec_enc());
                MessageType::Hello.lemma_roundtrip(src, pos);
                h.lemma_roundtrip(src, pos + 4);
            },
            StellarMessage::Auth(a) => {
                lemma_bytes_at_split(src, pos, MessageType::Auth.spec_enc(), a.spec_enc());
                MessageType::Auth.lemma_roundtrip(src, pos);
                a.lemma_roundtrip(src, pos + 4);
            },
        }
    }

    /// A tag that names no message type is always rejected as an invalid
    /// discriminator, whatever follows it.
    pub proof fn lemma_unknown_tag_rejected(src: Seq<u8>, pos: int, tag: u32)
        requires
            bytes_at(src, pos, spec_u32_be(tag)),
            tag != 2,
            tag != 13,
        ensures
            Self::spec_dec(src, pos) == Err::<(StellarMessageView, int), DecodeError>(
                DecodeError::InvalidEnumDiscriminator { at_position: clamp_to_usize(pos + 4) },
            ),
    {
        MessageType::lemma_unknown_tag_rejected(src, pos, tag);
    }

    /// The encoded form of any well-formed message is short and 4-byte
    /// aligned: the bounded, padded fields bound and align the whole.
    pub proof fn lemma_enc_len_bound(&self)
        requires
            self.wf(),
        ensures
            self.spec_enc().len() < 0x1c0,
            self.spec_enc().len() % 4 == 0,
    {
        reveal(Hello::spec_enc);
        match self {
            StellarMessage::Hello(h) => {
                crate::codec::lemma_pad4_bounds(h.version_str.bytes().len() as int);
                crate::codec::lemma_pad4_bounds(h.cert.sig.bytes().len() as int);
            },
            StellarMessage::Auth(_a) => {},
        }
    }
}

/// The abstract content of an `AuthenticatedMessageV0`.
pub struct AuthenticatedMessageV0View {
    pub sequence: u64,
    pub message: StellarMessageView,
    pub mac: Seq<u8>,
}

/// A sequence-numbered protocol message with its MAC.
#[derive(Debug, Clone, PartialEq, Eq)]
pub struct AuthenticatedMessageV0 {
    pub sequence: u64,
    pub message: StellarMessage,
    pub mac: HmacSha256Mac,
}

impl AuthenticatedMessageV0 {
    /// The abstract content.
    pub open spec fn view_spec(&self) -> AuthenticatedMessageV0View {
        AuthenticatedMessageV0View {
            sequence: self.sequence,
            message: self.message.view_spec(),
            mac: self.mac.mac@,
        }
    }

    pub open spec fn wf(&self) -> bool {
        self.message.wf() && self.mac.wf()
    }

    /// The wire form: sequence, message, MAC.
    pub open spec fn spec_enc(&self) -> Seq<u8> {
        spec_u64_be(self.sequence) + self.message.spec_enc() + self.mac.spec_enc()
    }

    /// Spec decoder, yielding the abstract content.
    pub open spec fn spec_dec(src: Seq<u8>, pos: int) -> Result<
        (AuthenticatedMessageV0View, int),
        DecodeError,
    > {
        match spec_dec_u64(src, pos) {
            Ok((sequence, p)) => match StellarMessage::spec_dec(src, p) {
                Ok((message, p2)) => match HmacSha256Mac::spec_dec(src, p2) {
                    Ok((mac, p3)) => Ok((AuthenticatedMessageV0View { sequence, message, mac }, p3)),
                    Err(e) => Err(e),
                },
                Err(e) => Err(e),
            },
            Err(e) => Err(e),
        }
    }

    pub fn encode(&self, write_stream: &mut WriteStream)
        requires
            self.wf(),
        ensures
            final(write_stream).bytes() == old(write_stream).bytes() + self.spec_enc(),
    {
        write_stream.write_u64(self.sequence);
        self.message.encode(write_stream);
        self.mac.encode(write_stream);
    }

    pub fn from_xdr_buffered(read_stream: &mut ReadStream) -> (r: Result<
        AuthenticatedMessageV0,
        DecodeError,
    >)
        requires
            old(read_stream).wf(),
        ensures
            final(read_stream).wf(),
            final(read_stream).data() == old(read_stream).data(),
            (match Self::spec_dec(old(read_stream).data(), old(read_stream).pos()) {
                Ok(res) => r matches Ok(v) && v.view_spec() == res.0 && v.wf()
                    && final(read_stream).pos() == res.1,
                Err(e) => r matches Err(e2) && e2 == e,
            }),
    {
        let sequence = match read_stream.read_u64() {
            Ok(v) => v,
            Err(e) => {
                return Err(e);
            },
        };
        let message = match StellarMessage::from_xdr_buffered(read_stream) {
            Ok(v) => v,
            Err(e) => {
                return Err(e);
            },
        };
        let mac = match HmacSha256Mac::from_xdr_buffered(read_stream) {
            Ok(v) => v,
            Err(e) => {
                return Err(e);
            },
        };
        Ok(AuthenticatedMessageV0 { sequence, message, mac })
    }

    /// Decoding the encoded form yields the message's content back and
    /// consumes exactly the encoding.
    pub proof fn lemma_roundtrip(&self, src: Seq<u8>, pos: int)
        requires
            self.wf(),
            bytes_at(src, pos, self.spec_enc()),
        ensures
            Self::spec_dec(src, pos) == Ok::<(AuthenticatedMessageV0View, int), DecodeError>(
                (self.view_spec(), pos + self.spec_enc().len()),
            ),
    {
        let e1 = spec_u64_be(self.sequence);
        let e2 = self.message.spec_enc();
        let e3 = self.mac.spec_enc();
        assert(self.spec_enc() == e1 + (e2 + e3)) by {
            assert(self.spec_enc() =~= e1 + (e2 + e3));
        }
        lemma_bytes_at_split(src, pos, e1, e2 + e3);
        lemma_bytes_at_split(src, pos + 8, e2, e3);
        lemma_dec_u64_at(src, pos, self.sequence);
        self.message.lemma_roundtrip(src, pos + 8);
        self.mac.lemma_roundtrip(src, pos + 8 + e2.len());
    }
}

/// A versioned authenticated message; only version 0 exists.
#[derive(Debug, Clone, PartialEq, Eq)]
pub enum AuthenticatedMessage {
    V0(AuthenticatedMessageV0),
}

impl AuthenticatedMessage {
    /// The abstract content.
    pub open spec fn view_spec(&self) -> AuthenticatedMessageV0View {
        match self {
            AuthenticatedMessage::V0(v) => v.view_spec(),
        }
    }

    pub open spec fn wf(&self) -> bool {
        match self {
            AuthenticatedMessage::V0(v) => v.wf(),
        }
    }

    /// The wire form: the version tag 0, then the versioned body.
    pub open spec fn spec_enc(&self) -> Seq<u8> {
        match self {
            AuthenticatedMessage::V0(v) => spec_u32_be(0) + v.spec_enc(),
        }
    }

    /// Spec decoder, yielding the abstract content; an unknown version tag
    /// is a hard error.
    pub open spec fn spec_dec(src: Seq<u8>, pos: int) -> Result<
        (AuthenticatedMessageV0View, int),
        DecodeError,
    > {
        match spec_dec_u32(src, pos) {
            Ok((version, p)) => if version == 0 {
                AuthenticatedMessageV0::spec_dec(src, p)
            } else {
                Err(DecodeError::InvalidEnumDiscriminator { at_position: clamp_to_usize(p) })
            },
            Err(e) => Err(e),
        }
    }

    pub fn encode(&self, write_stream: &mut WriteStream)
        requires
            self.wf(),
        ensures
            final(write_stream).bytes() == old(write_stream).bytes() + self.spec_enc(),
    {
        match self {
            AuthenticatedMessage::V0(value) => {
                write_stream.write_u32(0);
                value.encode(write_stream);
            },
        }
    }

    /// The wire form as a standalone byte vector.
    pub fn to_xdr(&self) -> (r: Vec<u8>)
        requires
            self.wf(),
        ensures
            r@ == self.spec_enc(),
    {
        let mut write_stream = WriteStream::new();
        self.encode(&mut write_stream);
        write_stream.result()
    }

    pub fn from_xdr_buffered(read_stream: &mut ReadStream) -> (r: Result<
        AuthenticatedMessage,
        DecodeError,
    >)
        requires
            old(read_stream).wf(),
        ensures
            final(read_stream).wf(),
            final(read_stream).data() == old(read_stream).data(),
            (match Self::spec_dec(old(read_stream).data(), old(read_stream).pos()) {
                Ok(res) => r matches Ok(v) && v.view_spec() == res.0 && v.wf()
                    && final(read_stream).pos() == res.1,
                Err(e) => r matches Err(e2) && e2 == e,
            }),
    {
        let version = match read_stream.read_next_u32() {
            Ok(v) => v,
            Err(e) => {
                return Err(e);
            },
        };
        if version != 0 {
            return Err(
                DecodeError::InvalidEnumDiscriminator { at_position: read_stream.get_position() },
            );
        }
        match AuthenticatedMessageV0::from_xdr_buffered(read_stream) {
            Ok(v) => Ok(AuthenticatedMessage::V0(v)),
            Err(e) => Err(e),
        }
    }

    /// Decoding the encoded form yields the message's content back and
    /// consumes exactly the encoding.
    pub proof fn lemma_roundtrip(&self, src: Seq<u8>, pos: int)
        requires
            self.wf(),
            bytes_at(src, pos, self.spec_enc()),
        ensures
            Self::spec_dec(src, pos) == Ok::<(AuthenticatedMessageV0View, int), DecodeError>(
                (self.view_spec(), pos + self.spec_enc().len()),
            ),
    {
        match self {
            AuthenticatedMessage::V0(v) => {
                lemma_bytes_at_split(src, pos, spec_u32_be(0), v.spec_enc());
                lemma_dec_u32_at(src, pos, 0);
                v.lemma_roundtrip(src, pos + 4);
            },
        }
    }

    /// A version tag other than zero is always rejected as an invalid
    /// discriminator, whatever follows it.
    pub proof fn lemma_unknown_version_rejected(src: Seq<u8>, pos: int, version: u32)
        requires
            bytes_at(src, pos, spec_u32_be(version)),
            version != 0,
        ensures
            Self::spec_dec(src, pos) == Err::<(AuthenticatedMessageV0View, int), DecodeError>(
                DecodeError::InvalidEnumDiscriminator { at_position: clamp_to_usize(pos + 4) },
            ),
    {
        lemma_dec_u32_at(src, pos, version);
    }

    /// The encoded form of any well-formed message is short and 4-byte
    /// aligned: the bounded, padded fields bound and align the whole.
    pub proof fn lemma_enc_len_bound(&self)
        requires
            self.wf(),
        ensures
            self.spec_enc().len() < 0x200,
            self.spec_enc().len() % 4 == 0,
    {
        match self {
            AuthenticatedMessage::V0(v) => {
                v.message.lemma_enc_len_bound();
            },
        }
    }
}

} // verus!
