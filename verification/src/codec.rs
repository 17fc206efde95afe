//! Binary wire codec primitives: big-endian integers and 4-byte-aligned
//! opaque data, together with the write and read streams that every wire
//! type encodes to and decodes from.
//!
//! The encoded form of each primitive is given by a spec function
//! (`spec_u32_be`, `spec_enc_fixed`, ...), and the decoded meaning of a byte
//! sequence by a matching spec decoder (`spec_dec_u32`, `spec_dec_fixed`,
//! ...).  The executable streams are verified against those models.

use vstd::prelude::*;

verus! {

/// A malformed or truncated byte sequence; never a recoverable condition.
#[derive(Debug, Clone, Copy, PartialEq, Eq, Structural)]
pub enum DecodeError {
    /// The source buffer ends before the bytes that a read needed.
    SuddenEnd { actual_length: usize, expected_length: usize },
    /// A tagged union carried a tag that names no variant.
    InvalidEnumDiscriminator { at_position: usize },
    /// A length prefix exceeds the maximum the field allows.
    ExceedsMaximumLength { requested_length: usize, allowed_length: i32 },
    /// A framed payload's decoded size differs from its declared length.
    InvalidXdrArchiveLength { at_position: usize },
}

/// `n` rounded up to the next multiple of 4.
pub open spec fn pad4(n: int) -> int {
    ((n + 3) / 4) * 4
}

/// A sequence of `n` zero bytes.
pub open spec fn zero_bytes(n: int) -> Seq<u8> {
    Seq::new(n as nat, |i: int| 0u8)
}

/// Fixed-size opaque data on the wire: the bytes themselves, zero-padded up
/// to the next multiple of 4.
pub open spec fn spec_enc_fixed(data: Seq<u8>) -> Seq<u8> {
    data + zero_bytes(pad4(data.len() as int) - data.len())
}

/// Big-endian bytes of a `u32`.
pub open spec fn spec_u32_be(x: u32) -> Seq<u8> {
    seq![
        ((x >> 24) & 0xff) as u8,
        ((x >> 16) & 0xff) as u8,
        ((x >> 8) & 0xff) as u8,
        (x & 0xff) as u8,
    ]
}

/// The `u32` read big-endian from 4 bytes.
pub open spec fn spec_u32_from_be(s: Seq<u8>) -> u32
    recommends
        s.len() == 4,
{
    ((s[0] as u32) << 24) | ((s[1] as u32) << 16) | ((s[2] as u32) << 8) | (s[3] as u32)
}

/// Big-endian bytes of a `u64`.
pub open spec fn spec_u64_be(x: u64) -> Seq<u8> {
    seq![
        ((x >> 56) & 0xff) as u8,
        ((x >> 48) & 0xff) as u8,
        ((x >> 40) & 0xff) as u8,
        ((x >> 32) & 0xff) as u8,
        ((x >> 24) & 0xff) as u8,
        ((x >> 16) & 0xff) as u8,
        ((x >> 8) & 0xff) as u8,
        (x & 0xff) as u8,
    ]
}

/// The `u64` read big-endian from 8 bytes.
pub open spec fn spec_u64_from_be(s: Seq<u8>) -> u64
    recommends
        s.len() == 8,
{
    ((s[0] as u64) << 56) | ((s[1] as u64) << 48) | ((s[2] as u64) << 40) | ((s[3] as u64) << 32)
        | ((s[4] as u64) << 24) | ((s[5] as u64) << 16) | ((s[6] as u64) << 8) | (s[7] as u64)
}

/// Big-endian bytes of an `i32` (two's complement, same bytes as the
/// reinterpreted `u32`).
pub open spec fn spec_i32_be(x: i32) -> Seq<u8> {
    spec_u32_be(x as u32)
}

/// Reading back a big-endian `u32` yields the value written.
pub proof fn lemma_u32_be_roundtrip(x: u32)
    ensures
        spec_u32_be(x).len() == 4,
        spec_u32_from_be(spec_u32_be(x)) == x,
{
    assert(((x >> 24) & 0xff) < 256 && ((x >> 16) & 0xff) < 256 && ((x >> 8) & 0xff) < 256 && (x
        & 0xff) < 256) by (bit_vector);
    let a = ((x >> 24) & 0xff) as u8;
    let b = ((x >> 16) & 0xff) as u8;
    let c = ((x >> 8) & 0xff) as u8;
    let d = (x & 0xff) as u8;
    assert((((((x >> 24) & 0xff) as u8) as u32) << 24) | (((((x >> 16) & 0xff) as u8) as u32)
        << 16) | (((((x >> 8) & 0xff) as u8) as u32) << 8) | (((x & 0xff) as u8) as u32)
        == x) by (bit_vector);
    assert(spec_u32_from_be(spec_u32_be(x)) == (((a as u32) << 24) | ((b as u32) << 16) | ((
    c as u32) << 8) | (d as u32)));
}

/// Reading back a big-endian `u64` yields the value written.
pub proof fn lemma_u64_be_roundtrip(x: u64)
    ensures
        spec_u64_be(x).len() == 8,
        spec_u64_from_be(spec_u64_be(x)) == x,
{
    assert(((x >> 56) & 0xff) < 256 && ((x >> 48) & 0xff) < 256 && ((x >> 40) & 0xff) < 256 && ((x
        >> 32) & 0xff) < 256 && ((x >> 24) & 0xff) < 256 && ((x >> 16) & 0xff) < 256 && ((x >> 8)
        & 0xff) < 256 && (x & 0xff) < 256) by (bit_vector);
    let b0 = ((x >> 56) & 0xff) as u8;
    let b1 = ((x >> 48) & 0xff) as u8;
    let b2 = ((x >> 40) & 0xff) as u8;
    let b3 = ((x >> 32) & 0xff) as u8;
    let b4 = ((x >> 24) & 0xff) as u8;
    let b5 = ((x >> 16) & 0xff) as u8;
    let b6 = ((x >> 8) & 0xff) as u8;
    let b7 = (x & 0xff) as u8;
    assert((((((x >> 56) & 0xff) as u8) as u64) << 56) | (((((x >> 48) & 0xff) as u8) as u64)
        << 48) | (((((x >> 40) & 0xff) as u8) as u64) << 40) | (((((x >> 32) & 0xff) as u8) as u64)
        << 32) | (((((x >> 24) & 0xff) as u8) as u64) << 24) | (((((x >> 16) & 0xff) as u8) as u64)
        << 16) | (((((x >> 8) & 0xff) as u8) as u64) << 8) | (((x & 0xff) as u8) as u64)
        == x) by (bit_vector);
    assert(spec_u64_from_be(spec_u64_be(x)) == (((b0 as u64) << 56) | ((b1 as u64) << 48) | ((
    b2 as u64) << 40) | ((b3 as u64) << 32) | ((b4 as u64) << 24) | ((b5 as u64) << 16) | ((
    b6 as u64) << 8) | (b7 as u64)));
}

/// Reading back a big-endian `i32` yields the value written.
pub proof fn lemma_i32_be_roundtrip(x: i32)
    ensures
        spec_i32_be(x).len() == 4,
        spec_u32_from_be(spec_i32_be(x)) as i32 == x,
{
    lemma_u32_be_roundtrip(x as u32);
    assert(((x as u32) as i32) == x) by (bit_vector);
}

/// The padded form keeps the data bytes and appends only zeros: the padding
/// invariant of the wire format.
pub proof fn lemma_enc_fixed_padding(data: Seq<u8>)
    ensures
        spec_enc_fixed(data).len() == pad4(data.len() as int),
        pad4(data.len() as int) - data.len() < 4,
        pad4(data.len() as int) >= data.len(),
        pad4(data.len() as int) % 4 == 0,
        forall|i: int| 0 <= i < data.len() ==> spec_enc_fixed(data)[i] == data[i],
        forall|i: int|
            data.len() <= i < spec_enc_fixed(data).len() ==> spec_enc_fixed(data)[i] == 0u8,
{
    let n = data.len() as int;
    assert(pad4(n) == ((n + 3) / 4) * 4);
    assert(n <= pad4(n) < n + 4) by (nonlinear_arith);
    assert(pad4(n) % 4 == 0) by (nonlinear_arith);
}

/// Rounding up to a multiple of 4 adds at most 3.
pub broadcast proof fn lemma_pad4_bounds(n: int)
    requires
        n >= 0,
    ensures
        n <= #[trigger] pad4(n) < n + 4,
        pad4(n) % 4 == 0,
{
    assert(n <= ((n + 3) / 4) * 4 < n + 4) by (nonlinear_arith);
    assert((((n + 3) / 4) * 4) % 4 == 0) by (nonlinear_arith);
}

/// The `SuddenEnd` error for a source of `src_len` bytes that a read needed
/// to reach through offset `needed_through`.
pub open spec fn spec_sudden_end(src_len: int, needed_through: int) -> DecodeError {
    DecodeError::SuddenEnd {
        actual_length: clamp_to_usize(src_len),
        expected_length: clamp_to_usize(needed_through),
    }
}

/// `n` clamped into the `usize` range.
pub open spec fn clamp_to_usize(n: int) -> usize {
    if n > usize::MAX {
        usize::MAX
    } else if n < 0 {
        0
    } else {
        n as usize
    }
}

/// Spec decoder for fixed-size opaque data: `n` bytes at `pos`, consuming
/// the zero-padding up to the next multiple of 4.
pub open spec fn spec_dec_fixed(src: Seq<u8>, pos: int, n: int) -> Result<
    (Seq<u8>, int),
    DecodeError,
> {
    if pos + pad4(n) <= src.len() {
        Ok((src.subrange(pos, pos + n), pos + pad4(n)))
    } else {
        Err(spec_sudden_end(src.len() as int, pos + pad4(n)))
    }
}

/// Spec decoder for a big-endian `u32` at `pos`.
pub open spec fn spec_dec_u32(src: Seq<u8>, pos: int) -> Result<(u32, int), DecodeError> {
    if pos + 4 <= src.len() {
        Ok((spec_u32_from_be(src.subrange(pos, pos + 4)), pos + 4))
    } else {
        Err(spec_sudden_end(src.len() as int, pos + 4))
    }
}

/// Spec decoder for a big-endian `u64` at `pos`.
pub open spec fn spec_dec_u64(src: Seq<u8>, pos: int) -> Result<(u64, int), DecodeError> {
    if pos + 8 <= src.len() {
        Ok((spec_u64_from_be(src.subrange(pos, pos + 8)), pos + 8))
    } else {
        Err(spec_sudden_end(src.len() as int, pos + 8))
    }
}

/// Spec decoder for a big-endian `i32` at `pos`.
pub open spec fn spec_dec_i32(src: Seq<u8>, pos: int) -> Result<(i32, int), DecodeError> {
    match spec_dec_u32(src, pos) {
        Ok((v, p)) => Ok((v as i32, p)),
        Err(e) => Err(e),
    }
}

/// Spec decoder for a length prefix: a `u32` with the reserved top bit
/// masked off.
pub open spec fn spec_dec_length(src: Seq<u8>, pos: int) -> Result<(usize, int), DecodeError> {
    match spec_dec_u32(src, pos) {
        Ok((v, p)) => Ok(((v & 0x7fff_ffff) as usize, p)),
        Err(e) => Err(e),
    }
}

/// `part` occupies the bytes of `src` starting at `pos`.
pub open spec fn bytes_at(src: Seq<u8>, pos: int, part: Seq<u8>) -> bool {
    0 <= pos && pos + part.len() <= src.len() && src.subrange(pos, pos + part.len()) == part
}

/// A concatenation at `pos` splits into its parts, the second at `pos`
/// advanced by the first's length.
pub proof fn lemma_bytes_at_split(src: Seq<u8>, pos: int, a: Seq<u8>, b: Seq<u8>)
    requires
        bytes_at(src, pos, a + b),
    ensures
        bytes_at(src, pos, a),
        bytes_at(src, pos + a.len(), b),
{
    let ab = a + b;
    assert(src.subrange(pos, pos + a.len()) =~= a) by {
        assert forall|i: int| 0 <= i < a.len() implies src.subrange(pos, pos + a.len())[i] == a[i]
        by {
            assert(src.subrange(pos, pos + ab.len())[i] == ab[i]);
        }
    }
    assert(src.subrange(pos + a.len(), pos + a.len() + b.len()) =~= b) by {
        assert forall|i: int|
            0 <= i < b.len() implies src.subrange(pos + a.len(), pos + a.len() + b.len())[i]
            == b[i] by {
            assert(src.subrange(pos, pos + ab.len())[a.len() + i] == ab[a.len() + i]);
        }
    }
}

/// Decoding 4 bytes written big-endian yields the written `u32`.
pub proof fn lemma_dec_u32_at(src: Seq<u8>, pos: int, v: u32)
    requires
        bytes_at(src, pos, spec_u32_be(v)),
    ensures
        spec_dec_u32(src, pos) == Ok::<(u32, int), DecodeError>((v, pos + 4)),
{
    lemma_u32_be_roundtrip(v);
    assert(src.subrange(pos, pos + 4) == spec_u32_be(v));
}

/// Decoding 8 bytes written big-endian yields the written `u64`.
pub proof fn lemma_dec_u64_at(src: Seq<u8>, pos: int, v: u64)
    requires
        bytes_at(src, pos, spec_u64_be(v)),
    ensures
        spec_dec_u64(src, pos) == Ok::<(u64, int), DecodeError>((v, pos + 8)),
{
    lemma_u64_be_roundtrip(v);
    assert(src.subrange(pos, pos + 8) == spec_u64_be(v));
}

/// Decoding 4 bytes written big-endian as a signed value yields the written
/// `i32`.
pub proof fn lemma_dec_i32_at(src: Seq<u8>, pos: int, v: i32)
    requires
        bytes_at(src, pos, spec_i32_be(v)),
    ensures
        spec_dec_i32(src, pos) == Ok::<(i32, int), DecodeError>((v, pos + 4)),
{
    lemma_u32_be_roundtrip(v as u32);
    lemma_i32_be_roundtrip(v);
    assert(src.subrange(pos, pos + 4) == spec_u32_be(v as u32));
}

/// Decoding padded opaque data written at `pos` yields the data back and
/// consumes the padding too.
pub proof fn lemma_dec_fixed_at(src: Seq<u8>, pos: int, data: Seq<u8>)
    requires
        bytes_at(src, pos, spec_enc_fixed(data)),
    ensures
        spec_dec_fixed(src, pos, data.len() as int) == Ok::<(Seq<u8>, int), DecodeError>(
            (data, pos + pad4(data.len() as int)),
        ),
{
    lemma_enc_fixed_padding(data);
    let n = data.len() as int;
    assert(src.subrange(pos, pos + n) =~= data) by {
        assert forall|i: int| 0 <= i < n implies src.subrange(pos, pos + n)[i] == data[i] by {
            assert(src.subrange(pos, pos + pad4(n))[i] == spec_enc_fixed(data)[i]);
        }
    }
}

/// Decoding a length prefix written big-endian yields the written value with
/// the reserved top bit masked off.
pub proof fn lemma_dec_length_at(src: Seq<u8>, pos: int, v: u32)
    requires
        bytes_at(src, pos, spec_u32_be(v)),
    ensures
        spec_dec_length(src, pos) == Ok::<(usize, int), DecodeError>(
            ((v & 0x7fff_ffff) as usize, pos + 4),
        ),
{
    lemma_dec_u32_at(src, pos, v);
}

/// An append-only byte sink that every wire type encodes itself into.
pub struct WriteStream {
    result: Vec<u8>,
}

impl WriteStream {
    /// The bytes written so far.
    pub closed spec fn bytes(&self) -> Seq<u8> {
        self.result@
    }

    pub fn new() -> (r: WriteStream)
        ensures
            r.bytes() == Seq::<u8>::empty(),
    {
        WriteStream { result: Vec::new() }
    }

    /// Appends `value` followed by zero-padding to the next multiple of 4.
    pub fn write_binary_data(&mut self, value: &[u8])
        requires
            value@.len() + 3 <= usize::MAX,
        ensures
            final(self).bytes() == old(self).bytes() + spec_enc_fixed(value@),
    {
        self.result.extend_from_slice(value);
        let length = value.len();
        let padded = extend_to_multiple_of_4(length);
        let mut i = length;
        while i < padded
            invariant
                length <= i <= padded,
                padded == pad4(length as int),
                self.result@ == old(self).bytes() + value@ + zero_bytes(i - length),
            decreases padded - i,
        {
            self.result.push(0u8);
            assert(zero_bytes(i + 1 - length) == zero_bytes(i - length).push(0u8));
            i = i + 1;
        }
        assert(final(self).bytes() == old(self).bytes() + value@ + zero_bytes(padded - length));
        assert(old(self).bytes() + spec_enc_fixed(value@) == old(self).bytes() + value@
            + zero_bytes(padded - length));
    }

    /// Appends the 4 big-endian bytes of `value`.
    pub fn write_u32(&mut self, value: u32)
        ensures
            final(self).bytes() == old(self).bytes() + spec_u32_be(value),
    {
        proof {
            lemma_u32_be_roundtrip(value);
        }
        assert(((value >> 24) & 0xff) < 256 && ((value >> 16) & 0xff) < 256 && ((value >> 8)
            & 0xff) < 256 && (value & 0xff) < 256) by (bit_vector);
        self.result.push(((value >> 24) & 0xff) as u8);
        self.result.push(((value >> 16) & 0xff) as u8);
        self.result.push(((value >> 8) & 0xff) as u8);
        self.result.push((value & 0xff) as u8);
        assert(final(self).bytes() =~= old(self).bytes() + spec_u32_be(value));
    }

    /// Appends the 8 big-endian bytes of `value`.
    pub fn write_u64(&mut self, value: u64)
        ensures
            final(self).bytes() == old(self).bytes() + spec_u64_be(value),
    {
        assert(((value >> 56) & 0xff) < 256 && ((value >> 48) & 0xff) < 256 && ((value >> 40)
            & 0xff) < 256 && ((value >> 32) & 0xff) < 256 && ((value >> 24) & 0xff) < 256 && ((
        value >> 16) & 0xff) < 256 && ((value >> 8) & 0xff) < 256 && (value & 0xff)
            < 256) by (bit_vector);
        self.result.push(((value >> 56) & 0xff) as u8);
        self.result.push(((value >> 48) & 0xff) as u8);
        self.result.push(((value >> 40) & 0xff) as u8);
        self.result.push(((value >> 32) & 0xff) as u8);
        self.result.push(((value >> 24) & 0xff) as u8);
        self.result.push(((value >> 16) & 0xff) as u8);
        self.result.push(((value >> 8) & 0xff) as u8);
        self.result.push((value & 0xff) as u8);
        assert(final(self).bytes() =~= old(self).bytes() + spec_u64_be(value));
    }

    /// Appends the 4 big-endian bytes of a signed `value`.
    pub fn write_i32(&mut self, value: i32)
        ensures
            final(self).bytes() == old(self).bytes() + spec_i32_be(value),
    {
        self.write_u32(value as u32);
    }

    /// Hands the accumulated bytes out.
    pub fn result(self) -> (r: Vec<u8>)
        ensures
            r@ == self.bytes(),
    {
        self.result
    }
}

/// `value` rounded up to the next multiple of 4.
pub fn extend_to_multiple_of_4(value: usize) -> (r: usize)
    requires
        value + 3 <= usize::MAX,
    ensures
        r == pad4(value as int),
        value <= r <= value + 3,
{
    value + ((4 - value % 4) % 4)
}

/// A positioned reader over a source buffer; every decoder pulls its bytes
/// from one of these.
pub struct ReadStream<'a> {
    source: &'a [u8],
    read_index: usize,
}

impl<'a> ReadStream<'a> {
    /// The whole source buffer.
    pub closed spec fn data(&self) -> Seq<u8> {
        self.source@
    }

    /// The read position.
    pub closed spec fn pos(&self) -> int {
        self.read_index as int
    }

    /// The position never runs past the source.
    pub closed spec fn wf(&self) -> bool {
        self.read_index <= self.source@.len()
    }

    /// A well-formed stream's position lies within its source.
    pub broadcast proof fn lemma_wf_bounds(&self)
        requires
            #[trigger] self.wf(),
        ensures
            0 <= self.pos() <= self.data().len(),
    {
    }

    pub fn new(source: &'a [u8]) -> (r: ReadStream<'a>)
        ensures
            r.data() == source@,
            r.pos() == 0,
            r.wf(),
    {
        ReadStream { source, read_index: 0 }
    }

    /// The `SuddenEnd` error for a read of `no_of_bytes_to_read` more bytes.
    fn sudden_end_error(&self, no_of_bytes_to_read: usize) -> (r: DecodeError)
        ensures
            r == spec_sudden_end(self.data().len() as int, self.pos() + no_of_bytes_to_read),
    {
        DecodeError::SuddenEnd {
            actual_length: self.source.len(),
            expected_length: no_of_bytes_to_read.saturating_add(self.read_index),
        }
    }

    /// Errs exactly when fewer than `no_of_bytes_to_read` bytes are left.
    fn ensure_size(&self, no_of_bytes_to_read: usize) -> (r: Result<(), DecodeError>)
        requires
            self.wf(),
        ensures
            (match r {
                Ok(()) => self.pos() + no_of_bytes_to_read <= self.data().len(),
                Err(e) => self.pos() + no_of_bytes_to_read > self.data().len() && e
                    == spec_sudden_end(self.data().len() as int, self.pos() + no_of_bytes_to_read),
            }),
    {
        if no_of_bytes_to_read > self.source.len() - self.read_index {
            return Err(self.sudden_end_error(no_of_bytes_to_read));
        }
        Ok(())
    }

    /// Reads `no_of_bytes` bytes of opaque data, consuming the padding up to
    /// the next multiple of 4.
    #[verifier::rlimit(50)]
    pub fn read_bytes_array(&mut self, no_of_bytes: usize) -> (r: Result<Vec<u8>, DecodeError>)
        requires
            old(self).wf(),
        ensures
            final(self).wf(),
            final(self).data() == old(self).data(),
            (match spec_dec_fixed(old(self).data(), old(self).pos(), no_of_bytes as int) {
                Ok(res) => r matches Ok(v) && v@ == res.0 && final(self).pos() == res.1,
                Err(e) => r matches Err(e2) && e2 == e && final(self).pos() == old(self).pos(),
            }),
    {
        let remaining = self.source.len() - self.read_index;
        let pad = (4 - no_of_bytes % 4) % 4;
        assert(no_of_bytes + pad == pad4(no_of_bytes as int));
        if no_of_bytes > remaining || pad > remaining - no_of_bytes {
            return Err(
                DecodeError::SuddenEnd {
                    actual_length: self.source.len(),
                    expected_length: self.read_index.saturating_add(no_of_bytes).saturating_add(
                        pad,
                    ),
                },
            );
        }
        proof {
            lemma_enc_fixed_padding(old(self).data().subrange(
                old(self).pos(),
                old(self).pos() + no_of_bytes,
            ));
        }
        let result = vstd::slice::slice_subrange(
            self.source,
            self.read_index,
            self.read_index + no_of_bytes,
        );
        let out = vstd::slice::slice_to_vec(result);
        self.read_index = self.read_index + no_of_bytes + pad;
        Ok(out)
    }

    /// Reads a big-endian `u32`.
    pub fn read_next_u32(&mut self) -> (r: Result<u32, DecodeError>)
        requires
            old(self).wf(),
        ensures
            final(self).wf(),
            final(self).data() == old(self).data(),
            (match spec_dec_u32(old(self).data(), old(self).pos()) {
                Ok(res) => r matches Ok(v) && v == res.0 && final(self).pos() == res.1,
                Err(e) => r matches Err(e2) && e2 == e && final(self).pos() == old(self).pos(),
            }),
    {
        if let Err(e) = self.ensure_size(4) {
            return Err(e);
        }
        let b0 = self.source[self.read_index];
        let b1 = self.source[self.read_index + 1];
        let b2 = self.source[self.read_index + 2];
        let b3 = self.source[self.read_index + 3];
        let v = ((b0 as u32) << 24) | ((b1 as u32) << 16) | ((b2 as u32) << 8) | (b3 as u32);
        self.read_index = self.read_index + 4;
        proof {
            let s = old(self).data().subrange(old(self).pos(), old(self).pos() + 4);
            assert(s[0] == b0 && s[1] == b1 && s[2] == b2 && s[3] == b3);
        }
        Ok(v)
    }

    /// Reads a big-endian `u32`; the historical name of `read_next_u32`.
    pub fn read_u32(&mut self) -> (r: Result<u32, DecodeError>)
        requires
            old(self).wf(),
        ensures
            final(self).wf(),
            final(self).data() == old(self).data(),
            (match spec_dec_u32(old(self).data(), old(self).pos()) {
                Ok(res) => r matches Ok(v) && v == res.0 && final(self).pos() == res.1,
                Err(e) => r matches Err(e2) && e2 == e && final(self).pos() == old(self).pos(),
            }),
    {
        self.read_next_u32()
    }

    /// Reads a big-endian `u64`.
    pub fn read_u64(&mut self) -> (r: Result<u64, DecodeError>)
        requires
            old(self).wf(),
        ensures
            final(self).wf(),
            final(self).data() == old(self).data(),
            (match spec_dec_u64(old(self).data(), old(self).pos()) {
                Ok(res) => r matches Ok(v) && v == res.0 && final(self).pos() == res.1,
                Err(e) => r matches Err(e2) && e2 == e && final(self).pos() == old(self).pos(),
            }),
    {
        if let Err(e) = self.ensure_size(8) {
            return Err(e);
        }
        let b0 = self.source[self.read_index];
        let b1 = self.source[self.read_index + 1];
        let b2 = self.source[self.read_index + 2];
        let b3 = self.source[self.read_index + 3];
        let b4 = self.source[self.read_index + 4];
        let b5 = self.source[self.read_index + 5];
        let b6 = self.source[self.read_index + 6];
        let b7 = self.source[self.read_index + 7];
        let v = ((b0 as u64) << 56) | ((b1 as u64) << 48) | ((b2 as u64) << 40) | ((b3 as u64)
            << 32) | ((b4 as u64) << 24) | ((b5 as u64) << 16) | ((b6 as u64) << 8) | (b7 as u64);
        self.read_index = self.read_index + 8;
        proof {
            let s = old(self).data().subrange(old(self).pos(), old(self).pos() + 8);
            assert(s[0] == b0 && s[1] == b1 && s[2] == b2 && s[3] == b3 && s[4] == b4 && s[5] == b5
                && s[6] == b6 && s[7] == b7);
        }
        Ok(v)
    }

    /// Reads a big-endian `i32`.
    pub fn read_i32(&mut self) -> (r: Result<i32, DecodeError>)
        requires
            old(self).wf(),
        ensures
            final(self).wf(),
            final(self).data() == old(self).data(),
            (match spec_dec_i32(old(self).data(), old(self).pos()) {
                Ok(res) => r matches Ok(v) && v == res.0 && final(self).pos() == res.1,
                Err(e) => r matches Err(e2) && e2 == e && final(self).pos() == old(self).pos(),
            }),
    {
        match self.read_next_u32() {
            Ok(v) => Ok(v as i32),
            Err(e) => Err(e),
        }
    }

    /// Reads (or, with `only_peek`, peeks at) a length prefix, masking the
    /// reserved top bit.
    pub fn read_length(&mut self, only_peek: bool) -> (r: Result<usize, DecodeError>)
        requires
            old(self).wf(),
        ensures
            final(self).wf(),
            final(self).data() == old(self).data(),
            (match spec_dec_length(old(self).data(), old(self).pos()) {
                Ok(res) => r matches Ok(v) && v == res.0 && (if only_peek {
                    final(self).pos() == old(self).pos()
                } else {
                    final(self).pos() == res.1
                }),
                Err(e) => r matches Err(e2) && e2 == e && final(self).pos() == old(self).pos(),
            }),
    {
        let saved = self.read_index;
        let v = match self.read_next_u32() {
            Ok(v) => v,
            Err(e) => {
                return Err(e);
            },
        };
        if only_peek {
            self.read_index = saved;
        }
        assert((v & 0x7fff_ffff) <= 0x7fff_ffff) by (bit_vector);
        Ok((v & 0x7fff_ffff) as usize)
    }

    /// How many source bytes are left past the read position.
    pub fn no_of_bytes_left_to_read(&self) -> (r: isize)
        requires
            self.wf(),
            self.data().len() <= isize::MAX,
        ensures
            r == self.data().len() - self.pos(),
    {
        self.source.len() as isize - self.read_index as isize
    }

    /// Whether any source bytes are left past the read position.
    pub fn has_bytes_left(&self) -> (r: bool)
        requires
            self.wf(),
        ensures
            r == (self.pos() < self.data().len()),
    {
        self.read_index < self.source.len()
    }

    /// The read position.
    pub fn get_position(&self) -> (r: usize)
        ensures
            r == self.pos(),
    {
        self.read_index
    }
}

} // verus!
