//! Length-delimited byte strings: the bounded `LimitedString` used for
//! version strings and signatures, and the unbounded `LengthedArray`.

use vstd::prelude::*;
use crate::codec::{
    DecodeError, ReadStream, WriteStream, bytes_at, lemma_bytes_at_split, lemma_dec_fixed_at,
    lemma_dec_u32_at, spec_dec_fixed, spec_dec_u32, spec_enc_fixed, spec_u32_be,
};

verus! {

broadcast use crate::codec::ReadStream::lemma_wf_bounds;

/// The largest byte length a `LimitedString` accepts.
pub const LIMITED_STRING_MAX: u32 = 100;

/// The wire form of a length-delimited byte string: length prefix, then the
/// bytes zero-padded to a multiple of 4.
pub open spec fn spec_enc_var_bytes(data: Seq<u8>) -> Seq<u8> {
    spec_u32_be(data.len() as u32) + spec_enc_fixed(data)
}

/// Padding invariant: past its length prefix, a length-delimited byte
/// string of `L` bytes occupies exactly the next multiple of 4 at or
/// above `L`, and every padding byte is zero.
pub proof fn lemma_var_bytes_padding(data: Seq<u8>)
    ensures
        spec_enc_var_bytes(data).len() == 4 + crate::codec::pad4(data.len() as int),
        forall|i: int|
            0 <= i < data.len() ==> #[trigger] spec_enc_var_bytes(data)[4 + i] == data[i],
        forall|i: int|
            4 + data.len() <= i < spec_enc_var_bytes(data).len()
                ==> #[trigger] spec_enc_var_bytes(data)[i] == 0u8,
{
    crate::codec::lemma_enc_fixed_padding(data);
    assert forall|i: int| 0 <= i < data.len() implies #[trigger] spec_enc_var_bytes(data)[4 + i]
        == data[i] by {
        assert(spec_enc_var_bytes(data)[4 + i] == spec_enc_fixed(data)[i]);
    }
    assert forall|i: int|
        4 + data.len() <= i < spec_enc_var_bytes(data).len() implies #[trigger] spec_enc_var_bytes(
        data,
    )[i] == 0u8 by {
        assert(spec_enc_var_bytes(data)[i] == spec_enc_fixed(data)[i - 4]);
    }
}

/// A variable-length byte string bounded to `LIMITED_STRING_MAX` bytes.
#[derive(Debug, Clone, PartialEq, Eq)]
pub struct LimitedString {
    vec: Vec<u8>,
}

impl LimitedString {
    /// The bytes the string holds.
    pub closed spec fn bytes(&self) -> Seq<u8> {
        self.vec@
    }

    /// The bound is respected.
    pub open spec fn wf(&self) -> bool {
        self.bytes().len() <= LIMITED_STRING_MAX
    }

    /// The wire form.
    pub open spec fn spec_enc(&self) -> Seq<u8> {
        spec_enc_var_bytes(self.bytes())
    }

    /// Spec decoder, yielding the held bytes: the length prefix is
    /// validated against the bound before any body byte is read.
    pub open spec fn spec_dec(src: Seq<u8>, pos: int) -> Result<(Seq<u8>, int), DecodeError> {
        match spec_dec_u32(src, pos) {
            Ok((length, p)) => if length > LIMITED_STRING_MAX {
                Err(DecodeError::ExceedsMaximumLength {
                    requested_length: length as usize,
                    allowed_length: LIMITED_STRING_MAX as i32,
                })
            } else {
                match spec_dec_fixed(src, p, length as int) {
                    Ok((data, p2)) => Ok((data, p2)),
                    Err(e) => Err(e),
                }
            },
            Err(e) => Err(e),
        }
    }

    /// Accepts the bytes only up to the bound; over it, the same error the
    /// decoder gives.
    pub fn new(vec: Vec<u8>) -> (r: Result<LimitedString, DecodeError>)
        ensures
            (if vec@.len() <= LIMITED_STRING_MAX {
                r matches Ok(s) && s.bytes() == vec@
            } else {
                r == Err::<LimitedString, DecodeError>(
                    DecodeError::ExceedsMaximumLength {
                        requested_length: vec@.len() as usize,
                        allowed_length: LIMITED_STRING_MAX as i32,
                    },
                )
            }),
    {
        if vec.len() > LIMITED_STRING_MAX as usize {
            Err(
                DecodeError::ExceedsMaximumLength {
                    requested_length: vec.len(),
                    allowed_length: LIMITED_STRING_MAX as i32,
                },
            )
        } else {
            Ok(LimitedString { vec })
        }
    }

    /// The bytes the string holds.
    pub fn get_vec(&self) -> (r: &Vec<u8>)
        ensures
            r@ == self.bytes(),
    {
        &self.vec
    }

    /// The empty string.
    pub fn empty() -> (r: LimitedString)
        ensures
            r.bytes() == Seq::<u8>::empty(),
            r.wf(),
    {
        LimitedString { vec: Vec::new() }
    }

    /// A copy holding the same bytes.
    pub fn duplicate(&self) -> (r: LimitedString)
        ensures
            r.bytes() == self.bytes(),
    {
        let vec = self.vec.clone();
        proof {
            assert(vec@ =~= self.vec@);
        }
        LimitedString { vec }
    }

    pub fn encode(&self, write_stream: &mut WriteStream)
        requires
            self.wf(),
        ensures
            final(write_stream).bytes() == old(write_stream).bytes() + self.spec_enc(),
    {
        write_stream.write_u32(self.vec.len() as u32);
        write_stream.write_binary_data(self.vec.as_slice());
    }

    pub fn from_xdr_buffered(read_stream: &mut ReadStream) -> (r: Result<
        LimitedString,
        DecodeError,
    >)
        requires
            old(read_stream).wf(),
        ensures
            final(read_stream).wf(),
            final(read_stream).data() == old(read_stream).data(),
            (match Self::spec_dec(old(read_stream).data(), old(read_stream).pos()) {
                Ok(res) => r matches Ok(v) && v.bytes() == res.0 && v.wf()
                    && final(read_stream).pos() == res.1,
                Err(e) => r matches Err(e2) && e2 == e,
            }),
    {
        let length = match read_stream.read_next_u32() {
            Ok(v) => v,
            Err(e) => {
                return Err(e);
            },
        };
        if length > LIMITED_STRING_MAX {
            return Err(
                DecodeError::ExceedsMaximumLength {
                    requested_length: length as usize,
                    allowed_length: LIMITED_STRING_MAX as i32,
                },
            );
        }
        match read_stream.read_bytes_array(length as usize) {
            Ok(data) => {
                proof {
                    crate::codec::lemma_pad4_bounds(length as int);
                }
                Ok(LimitedString { vec: data })
            },
            Err(e) => Err(e),
        }
    }

    /// Decoding the encoded form at its place in a buffer yields the held
    /// bytes back and consumes exactly the encoding.
    pub proof fn lemma_roundtrip(data: Seq<u8>, src: Seq<u8>, pos: int)
        requires
            data.len() <= LIMITED_STRING_MAX,
            bytes_at(src, pos, spec_enc_var_bytes(data)),
        ensures
            Self::spec_dec(src, pos) == Ok::<(Seq<u8>, int), DecodeError>(
                (data, pos + spec_enc_var_bytes(data).len()),
            ),
    {
        lemma_bytes_at_split(src, pos, spec_u32_be(data.len() as u32), spec_enc_fixed(data));
        lemma_dec_u32_at(src, pos, data.len() as u32);
        lemma_dec_fixed_at(src, pos + 4, data);
    }
}

/// A variable-length byte string with no declared bound.
#[derive(Debug, Clone, PartialEq, Eq)]
pub struct LengthedArray {
    vec: Vec<u8>,
}

impl LengthedArray {
    /// The bytes the array holds.
    pub closed spec fn bytes(&self) -> Seq<u8> {
        self.vec@
    }

    /// The length fits the wire's `u32` prefix.
    pub open spec fn wf(&self) -> bool {
        self.bytes().len() + 3 <= usize::MAX && self.bytes().len() <= u32::MAX
    }

    /// The wire form.
    pub open spec fn spec_enc(&self) -> Seq<u8> {
        spec_enc_var_bytes(self.bytes())
    }

    /// Spec decoder, yielding the held bytes: any declared length is
    /// accepted if the bytes are there.
    pub open spec fn spec_dec(src: Seq<u8>, pos: int) -> Result<(Seq<u8>, int), DecodeError> {
        match spec_dec_u32(src, pos) {
            Ok((length, p)) => match spec_dec_fixed(src, p, length as int) {
                Ok((data, p2)) => Ok((data, p2)),
                Err(e) => Err(e),
            },
            Err(e) => Err(e),
        }
    }

    pub fn new(vec: Vec<u8>) -> (r: LengthedArray)
        ensures
            r.bytes() == vec@,
    {
        LengthedArray { vec }
    }

    /// The bytes the array holds.
    pub fn vec(&self) -> (r: &Vec<u8>)
        ensures
            r@ == self.bytes(),
    {
        &self.vec
    }

    pub fn encode(&self, write_stream: &mut WriteStream)
        requires
            self.wf(),
        ensures
            final(write_stream).bytes() == old(write_stream).bytes() + self.spec_enc(),
    {
        write_stream.write_u32(self.vec.len() as u32);
        write_stream.write_binary_data(self.vec.as_slice());
    }

    pub fn from_xdr_buffered(read_stream: &mut ReadStream) -> (r: Result<
        LengthedArray,
        DecodeError,
    >)
        requires
            old(read_stream).wf(),
        ensures
            final(read_stream).wf(),
            final(read_stream).data() == old(read_stream).data(),
            (match Self::spec_dec(old(read_stream).data(), old(read_stream).pos()) {
                Ok(res) => r matches Ok(v) && v.bytes() == res.0 && final(read_stream).pos()
                    == res.1,
                Err(e) => r matches Err(e2) && e2 == e,
            }),
    {
        let length = match read_stream.read_next_u32() {
            Ok(v) => v,
            Err(e) => {
                return Err(e);
            },
        };
        match read_stream.read_bytes_array(length as usize) {
            Ok(data) => Ok(LengthedArray { vec: data }),
            Err(e) => Err(e),
        }
    }

    /// Decoding the encoded form at its place in a buffer yields the held
    /// bytes back and consumes exactly the encoding.
    pub proof fn lemma_roundtrip(data: Seq<u8>, src: Seq<u8>, pos: int)
        requires
            data.len() <= u32::MAX,
            bytes_at(src, pos, spec_enc_var_bytes(data)),
        ensures
            Self::spec_dec(src, pos) == Ok::<(Seq<u8>, int), DecodeError>(
                (data, pos + spec_enc_var_bytes(data).len()),
            ),
    {
        lemma_bytes_at_split(src, pos, spec_u32_be(data.len() as u32), spec_enc_fixed(data));
        lemma_dec_u32_at(src, pos, data.len() as u32);
        lemma_dec_fixed_at(src, pos + 4, data);
    }
}

} // verus!
