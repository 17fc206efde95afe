//! Length-prefixed message framing: wraps authenticated messages with a
//! 4-byte length prefix (top bit reserved) so that a byte stream can be
//! reassembled into discrete messages.

use vstd::prelude::*;
use crate::codec::{
    DecodeError, ReadStream, WriteStream, bytes_at, clamp_to_usize, lemma_bytes_at_split,
    lemma_dec_length_at, spec_dec_length, spec_enc_fixed, spec_u32_be, zero_bytes,
};
use crate::messages::{AuthenticatedMessage, AuthenticatedMessageV0View, Hello};

verus! {

broadcast use
    crate::codec::ReadStream::lemma_wf_bounds,
    vstd::seq::Seq::add_empty_left,
    vstd::seq::Seq::add_empty_right,
    vstd::seq::Seq::push_distributes_over_add,
;

/// The frame of one message: its length with the reserved top bit set, then
/// its encoding.  A message too long for the prefix is skipped.
pub open spec fn spec_frame_one(m: AuthenticatedMessage) -> Seq<u8> {
    if m.spec_enc().len() < 0x8000_0000 {
        spec_u32_be((m.spec_enc().len() as u32) | 0x8000_0000) + m.spec_enc()
    } else {
        Seq::empty()
    }
}

/// The frames of a sequence of messages, in order.
pub open spec fn spec_frames(items: Seq<AuthenticatedMessage>) -> Seq<u8>
    decreases items.len(),
{
    if items.len() == 0 {
        Seq::empty()
    } else {
        spec_frame_one(items[0]) + spec_frames(items.drop_first())
    }
}

/// Appending a message appends its frame.
pub proof fn lemma_spec_frames_push(items: Seq<AuthenticatedMessage>, m: AuthenticatedMessage)
    ensures
        spec_frames(items.push(m)) == spec_frames(items) + spec_frame_one(m),
    decreases items.len(),
{
    reveal_with_fuel(spec_frames, 3);
    if items.len() == 0 {
        assert(items.push(m).drop_first() =~= Seq::<AuthenticatedMessage>::empty());
        assert(spec_frames(items.push(m)) =~= spec_frames(items) + spec_frame_one(m));
    } else {
        assert(items.push(m).drop_first() =~= items.drop_first().push(m));
        lemma_spec_frames_push(items.drop_first(), m);
        assert(spec_frames(items.push(m)) =~= spec_frames(items) + spec_frame_one(m));
    }
}

/// Every successful message decode lands strictly past its start and within
/// the source.
#[verifier::rlimit(100)]
pub proof fn lemma_message_dec_range(src: Seq<u8>, pos: int)
    requires
        0 <= pos,
    ensures
        (match AuthenticatedMessage::spec_dec(src, pos) {
            Ok((_v, end)) => pos + 4 < end <= src.len(),
            Err(_e) => true,
        }),
{
    reveal(Hello::spec_dec);
    broadcast use crate::codec::lemma_pad4_bounds;

}

/// Spec decoder for a stream of frames: reads frames until the source is
/// exhausted, checking that each frame's payload decodes to exactly its
/// declared length.
pub open spec fn spec_dec_frames(src: Seq<u8>, pos: int) -> Result<
    (Seq<AuthenticatedMessageV0View>, int),
    DecodeError,
>
    decreases src.len() - pos,
    when 0 <= pos <= src.len()
    via spec_dec_frames_decreases
{
    if pos >= src.len() {
        Ok((Seq::empty(), pos))
    } else {
        match spec_dec_length(src, pos) {
            Ok((length, p)) => match AuthenticatedMessage::spec_dec(src, p) {
                Ok((v, end)) => if end - p != length {
                    Err(DecodeError::InvalidXdrArchiveLength { at_position: clamp_to_usize(p) })
                } else {
                    match spec_dec_frames(src, end) {
                        Ok((rest, e2)) => Ok((seq![v] + rest, e2)),
                        Err(e) => Err(e),
                    }
                },
                Err(e) => Err(e),
            },
            Err(e) => Err(e),
        }
    }
}

#[via_fn]
proof fn spec_dec_frames_decreases(src: Seq<u8>, pos: int) {
    if 0 <= pos < src.len() {
        if let Ok((_length, p)) = spec_dec_length(src, pos) {
            lemma_message_dec_range(src, p);
        }
    }
}

/// A stream of framed authenticated messages.
#[derive(Debug, Clone, PartialEq, Eq)]
pub struct XdrArchive {
    messages: Vec<AuthenticatedMessage>,
}

impl XdrArchive {
    /// The messages the archive holds, as a sequence.
    pub closed spec fn items(&self) -> Seq<AuthenticatedMessage> {
        self.messages@
    }

    /// The abstract contents, in order.
    pub open spec fn views(&self) -> Seq<AuthenticatedMessageV0View> {
        self.items().map_values(|m: AuthenticatedMessage| m.view_spec())
    }

    pub open spec fn wf(&self) -> bool {
        forall|i: int| 0 <= i < self.items().len() ==> (#[trigger] self.items()[i]).wf()
    }

    /// The wire form: each message's frame, in order.
    pub open spec fn spec_enc(&self) -> Seq<u8> {
        spec_frames(self.items())
    }

    pub fn new(vec: Vec<AuthenticatedMessage>) -> (r: XdrArchive)
        ensures
            r.items() == vec@,
    {
        XdrArchive { messages: vec }
    }

    /// The messages the archive holds.
    pub fn get_vec(&self) -> (r: &Vec<AuthenticatedMessage>)
        ensures
            r@ == self.items(),
    {
        &self.messages
    }

    pub fn encode(&self, write_stream: &mut WriteStream)
        requires
            self.wf(),
        ensures
            final(write_stream).bytes() == old(write_stream).bytes() + self.spec_enc(),
    {
        let n = self.messages.len();
        let mut i: usize = 0;
        while i < n
            invariant
                0 <= i <= n,
                n == self.items().len(),
                self.wf(),
                write_stream.bytes() == old(write_stream).bytes() + spec_frames(
                    self.items().subrange(0, i as int),
                ),
            decreases n - i,
        {
            let item = &self.messages[i];
            proof {
                item.lemma_enc_len_bound();
                lemma_spec_frames_push(self.items().subrange(0, i as int), *item);
                assert(self.items().subrange(0, i + 1) =~= self.items().subrange(
                    0,
                    i as int,
                ).push(*item));
            }
            let item_xdr = item.to_xdr();
            let length = item_xdr.len();
            if length < 0x8000_0000usize {
                write_stream.write_u32((length as u32) | 0x8000_0000u32);
                write_stream.write_binary_data(item_xdr.as_slice());
                proof {
                    crate::codec::lemma_pad4_bounds(item_xdr@.len() as int);
                    assert(spec_enc_fixed(item_xdr@) =~= item_xdr@);
                }
            }
            i = i + 1;
        }
        proof {
            assert(self.items().subrange(0, n as int) =~= self.items());
        }
    }

    /// The wire form as a standalone byte vector.
    pub fn to_xdr(&self) -> (r: Vec<u8>)
        requires
            self.wf(),
        ensures
            r@ == self.spec_enc(),
    {
        let mut write_stream = WriteStream::new();
        self.encode(&mut write_stream);
        write_stream.result()
    }

    #[verifier::loop_isolation(false)]
    pub fn from_xdr_buffered(read_stream: &mut ReadStream) -> (r: Result<XdrArchive, DecodeError>)
        requires
            old(read_stream).wf(),
        ensures
            final(read_stream).wf(),
            final(read_stream).data() == old(read_stream).data(),
            (match spec_dec_frames(old(read_stream).data(), old(read_stream).pos()) {
                Ok(res) => r matches Ok(v) && v.views() == res.0 && v.wf()
                    && final(read_stream).pos() == res.1,
                Err(e) => r matches Err(e2) && e2 == e,
            }),
    {
        proof {
            reveal_with_fuel(spec_dec_frames, 2);
        }
        let ghost src = old(read_stream).data();
        let ghost pos0 = old(read_stream).pos();
        let mut result: Vec<AuthenticatedMessage> = Vec::new();
        loop
            invariant
                read_stream.wf(),
                read_stream.data() == src,
                pos0 <= read_stream.pos(),
                0 <= pos0 <= src.len(),
                forall|i: int| 0 <= i < result@.len() ==> (#[trigger] result@[i]).wf(),
                (match spec_dec_frames(src, read_stream.pos()) {
                    Ok(res) => spec_dec_frames(src, pos0) == Ok::<
                        (Seq<AuthenticatedMessageV0View>, int),
                        DecodeError,
                    >(
                        (
                            result@.map_values(|m: AuthenticatedMessage| m.view_spec()) + res.0,
                            res.1,
                        ),
                    ),
                    Err(e) => spec_dec_frames(src, pos0) == Err::<
                        (Seq<AuthenticatedMessageV0View>, int),
                        DecodeError,
                    >(e),
                }),
            decreases src.len() - read_stream.pos(),
        {
            proof {
                reveal_with_fuel(spec_dec_frames, 2);
            }
            if !read_stream.has_bytes_left() {
                break;
            }
            let length = match read_stream.read_length(false) {
                Ok(v) => v,
                Err(e) => {
                    return Err(e);
                },
            };
            let old_position = read_stream.get_position();
            let message = match AuthenticatedMessage::from_xdr_buffered(read_stream) {
                Ok(v) => v,
                Err(e) => {
                    return Err(e);
                },
            };
            proof {
                lemma_message_dec_range(src, old_position as int);
            }
            if read_stream.get_position() - old_position != length {
                return Err(DecodeError::InvalidXdrArchiveLength { at_position: old_position });
            }
            proof {
                let prev = result@.map_values(|m: AuthenticatedMessage| m.view_spec());
                let stepped = result@.push(message).map_values(
                    |m: AuthenticatedMessage| m.view_spec(),
                );
                assert(stepped =~= prev.push(message.view_spec()));
                assert(stepped =~= prev + seq![message.view_spec()]);
                if let Ok((rest, e2)) = spec_dec_frames(src, read_stream.pos()) {
                    assert(prev + (seq![message.view_spec()] + rest) =~= stepped + rest);
                }
            }
            result.push(message);
        }
        proof {
            reveal_with_fuel(spec_dec_frames, 2);
            assert(read_stream.pos() == src.len());
            assert(result@.map_values(|m: AuthenticatedMessage| m.view_spec()) + Seq::<
                AuthenticatedMessageV0View,
            >::empty() =~= result@.map_values(|m: AuthenticatedMessage| m.view_spec()));
        }
        Ok(XdrArchive { messages: result })
    }

    /// Decoding an exact encoding from its start yields the same messages
    /// back, however the bytes arrived.
    pub proof fn lemma_roundtrip(&self, src: Seq<u8>, pos: int)
        requires
            self.wf(),
            bytes_at(src, pos, self.spec_enc()),
            pos + self.spec_enc().len() == src.len(),
        ensures
            spec_dec_frames(src, pos) == Ok::<(Seq<AuthenticatedMessageV0View>, int), DecodeError>(
                (self.views(), src.len() as int),
            ),
    {
        lemma_frames_roundtrip(self.items(), src, pos);
    }
}

/// Decoding exactly the frames of `items` yields their views back.
#[verifier::rlimit(100)]
pub proof fn lemma_frames_roundtrip(items: Seq<AuthenticatedMessage>, src: Seq<u8>, pos: int)
    requires
        forall|i: int| 0 <= i < items.len() ==> (#[trigger] items[i]).wf(),
        bytes_at(src, pos, spec_frames(items)),
        pos + spec_frames(items).len() == src.len(),
    ensures
        spec_dec_frames(src, pos) == Ok::<(Seq<AuthenticatedMessageV0View>, int), DecodeError>(
            (items.map_values(|m: AuthenticatedMessage| m.view_spec()), src.len() as int),
        ),
    decreases items.len(),
{
    reveal_with_fuel(spec_dec_frames, 2);
    reveal_with_fuel(spec_frames, 3);
    if items.len() == 0 {
        assert(items.map_values(|m: AuthenticatedMessage| m.view_spec()) =~= Seq::<
            AuthenticatedMessageV0View,
        >::empty());
    } else {
        let first = items[0];
        let rest = items.drop_first();
        first.lemma_enc_len_bound();
        let enc = first.spec_enc();
        let len32 = enc.len() as u32;
        let w = len32 | 0x8000_0000u32;
        assert((w & 0x7fff_ffff) == len32 && w >= 0x8000_0000u32 && (len32 | 0x8000_0000u32)
            == w) by (bit_vector)
            requires
                len32 < 0x200,
                w == len32 | 0x8000_0000u32,
        ;
        assert(spec_frame_one(first) == spec_u32_be(w) + enc);
        lemma_bytes_at_split(src, pos, spec_frame_one(first), spec_frames(rest));
        lemma_bytes_at_split(src, pos, spec_u32_be(w), enc);
        lemma_dec_length_at(src, pos, w);
        first.lemma_roundtrip(src, pos + 4);
        lemma_frames_roundtrip(rest, src, pos + 4 + enc.len());
        assert(items.map_values(|m: AuthenticatedMessage| m.view_spec()) =~= seq![
            first.view_spec(),
        ] + rest.map_values(|m: AuthenticatedMessage| m.view_spec()));
    }
}

/// The declared size of the first complete frame in `buf`: 4 bytes of
/// prefix plus the masked length, if that many bytes have arrived.
pub open spec fn spec_complete_message_size(buf: Seq<u8>) -> Option<int> {
    if buf.len() < 4 {
        None
    } else {
        let length = 4 + (crate::codec::spec_u32_from_be(buf.subrange(0, 4)) & 0x7fff_ffff) as int;
        if length <= buf.len() {
            Some(length)
        } else {
            None
        }
    }
}

/// How many bytes the first complete message in `buf` occupies, if it has
/// fully arrived.
pub fn complete_message_size(buf: &[u8]) -> (r: Option<usize>)
    ensures
        (match spec_complete_message_size(buf@) {
            Some(size) => r matches Some(s) && s == size,
            None => r is None,
        }),
{
    if buf.len() < 4 {
        return None;
    }
    let mut read_stream = ReadStream::new(buf);
    let word = match read_stream.read_next_u32() {
        Ok(v) => v,
        Err(_) => {
            return None;
        },
    };
    assert((word & 0x7fff_ffff) <= 0x7fff_ffff) by (bit_vector);
    let length = 4 + (word & 0x7fff_ffff) as usize;
    if length <= buf.len() {
        Some(length)
    } else {
        None
    }
}

/// A prefix of a frame shorter than the frame itself is incomplete, never
/// an error: the stream simply waits for more bytes.
pub proof fn lemma_frame_incomplete_prefix(m: &AuthenticatedMessage, buf: Seq<u8>)
    requires
        m.wf(),
        buf.len() < spec_frame_one(*m).len(),
        buf == spec_frame_one(*m).subrange(0, buf.len() as int),
    ensures
        spec_complete_message_size(buf) is None,
{
    m.lemma_enc_len_bound();
    let frame = spec_frame_one(*m);
    let enc = m.spec_enc();
    let len32 = enc.len() as u32;
    let w = len32 | 0x8000_0000u32;
    if buf.len() >= 4 {
        assert(buf.subrange(0, 4) =~= frame.subrange(0, 4));
        assert(frame.subrange(0, 4) =~= spec_u32_be(w));
        crate::codec::lemma_u32_be_roundtrip(w);
        assert((w & 0x7fff_ffff) == len32) by (bit_vector)
            requires
                len32 < 0x200,
                w == len32 | 0x8000_0000u32,
        ;
    }
}

/// Once the whole frame has arrived, its size is declared complete and the
/// framed bytes decode to the message it was built from, whatever follows
/// in the buffer.
#[verifier::rlimit(100)]
pub proof fn lemma_frame_complete(m: &AuthenticatedMessage, buf: Seq<u8>)
    requires
        m.wf(),
        bytes_at(buf, 0, spec_frame_one(*m)),
    ensures
        spec_complete_message_size(buf) == Some(spec_frame_one(*m).len() as int),
        spec_dec_frames(buf.subrange(0, spec_frame_one(*m).len() as int), 0) == Ok::<
            (Seq<AuthenticatedMessageV0View>, int),
            DecodeError,
        >((seq![m.view_spec()], spec_frame_one(*m).len() as int)),
{
    reveal_with_fuel(spec_frames, 3);
    m.lemma_enc_len_bound();
    let frame = spec_frame_one(*m);
    let enc = m.spec_enc();
    let len32 = enc.len() as u32;
    let w = len32 | 0x8000_0000u32;
    assert((w & 0x7fff_ffff) == len32) by (bit_vector)
        requires
            len32 < 0x200,
            w == len32 | 0x8000_0000u32,
    ;
    assert(buf.subrange(0, 4) =~= frame.subrange(0, 4));
    assert(frame.subrange(0, 4) =~= spec_u32_be(w));
    crate::codec::lemma_u32_be_roundtrip(w);
    let sliced = buf.subrange(0, frame.len() as int);
    assert(sliced =~= frame);
    let s1 = seq![*m];
    assert(s1.drop_first() =~= Seq::<AuthenticatedMessage>::empty());
    assert(spec_frames(s1) == spec_frame_one(s1[0]) + spec_frames(s1.drop_first()));
    assert(spec_frames(s1.drop_first()) == Seq::<u8>::empty());
    assert(spec_frames(s1) =~= frame);
    assert(frame.subrange(0, frame.len() as int) =~= frame);
    assert(bytes_at(frame, 0, spec_frames(s1)));
    lemma_frames_roundtrip(s1, frame, 0);
    assert(s1.map_values(|mm: AuthenticatedMessage| mm.view_spec()) =~= seq![m.view_spec()]);
}

/// Splits the first complete message off `buffer`: the decoded messages and
/// the raw framed payload (the frame bytes past the length prefix), or
/// nothing if the frame has not fully arrived.
pub fn parse_message(buffer: &[u8]) -> (r: Result<Option<(XdrArchive, Vec<u8>)>, DecodeError>)
    ensures
        (match spec_complete_message_size(buffer@) {
            Some(size) => (match spec_dec_frames(buffer@.subrange(0, size), 0) {
                Ok(res) => r matches Ok(Some((archive, raw))) && archive.views() == res.0
                    && archive.wf() && raw@ == buffer@.subrange(4, size),
                Err(e) => r matches Err(e2) && e2 == e,
            }),
            None => r matches Ok(opt) && opt is None,
        }),
{
    let size = match complete_message_size(buffer) {
        Some(s) => s,
        None => {
            return Ok(None);
        },
    };
    let framed = vstd::slice::slice_subrange(buffer, 0, size);
    let mut read_stream = ReadStream::new(framed);
    let archive = match XdrArchive::from_xdr_buffered(&mut read_stream) {
        Ok(v) => v,
        Err(e) => {
            return Err(e);
        },
    };
    let raw = vstd::slice::slice_to_vec(vstd::slice::slice_subrange(buffer, 4, size));
    Ok(Some((archive, raw)))
}

} // verus!
