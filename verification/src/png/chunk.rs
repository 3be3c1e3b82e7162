//! Chunks: a type code and a payload, framed by a length and a checksum.
use crate::png::checksum::{checksum, crc32_iso_hdlc};
use crate::png::chunk_type::{is_type_code, parse_code, ChunkType};
use crate::png::endian::{
    be32, be32_value, lemma_be32_of_be32_value, lemma_be32_value_of_be32,
    lemma_be32_value_of_prefix, u32_from_be_bytes, u32_to_be_bytes, u8_4_from_slice,
};
use crate::png::text::from_utf8;
use core::str::Utf8Error;
use vstd::prelude::*;
use vstd::slice::slice_to_vec;
use vstd::utf8::{decode_utf8, encode_utf8, encode_utf8_decode_utf8, valid_utf8};

verus! {

/// The ways in which decoding or building a chunk can fail.
#[derive(Debug, Clone, Copy, PartialEq, Eq)]
pub enum ChunkError {
    /// The bytes are too few to be a chunk, or the type code is not four letters.
    ConversionError,
    /// The declared length reaches past the end of the bytes.
    UnexpectedEOF,
}

impl ChunkError {
    /// The error's name, as it is shown to users.
    pub open spec fn text(self) -> Seq<char> {
        match self {
            ChunkError::ConversionError => "ConversionError"@,
            ChunkError::UnexpectedEOF => "UnexpectedEOF"@,
        }
    }

    /// The error's name, as it is shown to users.
    pub fn to_string(&self) -> (r: String)
        ensures
            r@ == self.text(),
    {
        match self {
            ChunkError::ConversionError => "ConversionError".to_owned(),
            ChunkError::UnexpectedEOF => "UnexpectedEOF".to_owned(),
        }
    }
}

/// What a chunk is, as plain values.
pub struct ChunkView {
    /// The length field.
    pub length: u32,
    /// The four bytes of the type code.
    pub chunk_type: Seq<u8>,
    /// The payload.
    pub data: Seq<u8>,
    /// The checksum field.
    pub crc: u32,
}

impl ChunkView {
    /// The chunk as it stands in a file: length, type code, payload, checksum.
    pub open spec fn wire(self) -> Seq<u8> {
        be32(self.length) + self.chunk_type + self.data + be32(self.crc)
    }

    /// The type code is four letters and the length field counts the payload.
    /// Such a chunk is read back from its bytes unchanged.
    pub open spec fn framed(self) -> bool {
        &&& is_type_code(self.chunk_type)
        &&& self.length == self.data.len()
    }

    /// The checksum field holds the checksum of type code and payload.
    pub open spec fn sealed(self) -> bool {
        self.crc == crc32_iso_hdlc(self.chunk_type + self.data)
    }
}

/// The chunk that [`Chunk::new`] builds from a type code and a payload. The
/// length field is the payload's length, cut to 32 bits.
pub open spec fn fresh_chunk(chunk_type: Seq<u8>, data: Seq<u8>) -> ChunkView {
    ChunkView {
        length: data.len() as u32,
        chunk_type,
        data,
        crc: crc32_iso_hdlc(chunk_type + data),
    }
}

/// What [`Chunk::try_from`] makes of `bytes`. Fewer than twelve bytes cannot
/// hold the three fixed fields; the type code is tested before the length is
/// trusted; bytes after the checksum are not looked at; the checksum is taken
/// as it stands and not compared with the payload.
pub open spec fn decode_chunk(bytes: Seq<u8>) -> Result<ChunkView, ChunkError> {
    if bytes.len() < 12 || !is_type_code(bytes.subrange(4, 8)) {
        Err(ChunkError::ConversionError)
    } else if bytes.len() < 12 + be32_value(bytes) {
        Err(ChunkError::UnexpectedEOF)
    } else {
        let n = be32_value(bytes) as int;
        Ok(
            ChunkView {
                length: be32_value(bytes),
                chunk_type: bytes.subrange(4, 8),
                data: bytes.subrange(8, 8 + n),
                crc: be32_value(bytes.subrange(8 + n, 12 + n)),
            },
        )
    }
}

/// A chunk that was built from a type code and a payload of at most
/// `u32::MAX` bytes is decoded from its own bytes field for field.
pub proof fn lemma_decode_fresh_chunk(chunk_type: Seq<u8>, data: Seq<u8>)
    requires
        is_type_code(chunk_type),
        data.len() <= u32::MAX,
    ensures
        fresh_chunk(chunk_type, data).framed(),
        decode_chunk(fresh_chunk(chunk_type, data).wire()) == Ok::<ChunkView, ChunkError>(
            fresh_chunk(chunk_type, data),
        ),
{
    let c = fresh_chunk(chunk_type, data);
    lemma_decode_chunk_of_wire(c, Seq::empty());
    assert(c.wire() + Seq::<u8>::empty() =~= c.wire());
}

/// A framed chunk is decoded from its own bytes as it was, whatever follows them.
pub proof fn lemma_decode_chunk_of_wire(c: ChunkView, tail: Seq<u8>)
    requires
        c.framed(),
    ensures
        c.wire().len() == 12 + c.data.len(),
        decode_chunk(c.wire() + tail) == Ok::<ChunkView, ChunkError>(c),
{
    let w = c.wire() + tail;
    let n = c.data.len() as int;
    lemma_be32_value_of_be32(c.length);
    lemma_be32_value_of_be32(c.crc);
    assert(w.subrange(0, 4) =~= be32(c.length));
    lemma_be32_value_of_prefix(w, 4);
    assert(w.subrange(4, 8) =~= c.chunk_type);
    assert(w.subrange(8, 8 + n) =~= c.data);
    assert(w.subrange(8 + n, 12 + n) =~= be32(c.crc));
}

/// The chunk decoder is the inverse of the chunk encoder: bytes decode to a
/// chunk exactly when the chunk is framed and the bytes start with the
/// chunk's own.
pub proof fn lemma_decode_chunk_inverts_wire(bytes: Seq<u8>, c: ChunkView)
    ensures
        decode_chunk(bytes) == Ok::<ChunkView, ChunkError>(c) <==> c.framed() && c.wire().is_prefix_of(
            bytes,
        ),
{
    if decode_chunk(bytes) == Ok::<ChunkView, ChunkError>(c) {
        lemma_wire_of_decode_chunk(bytes);
    }
    if c.framed() && c.wire().is_prefix_of(bytes) {
        let tail = bytes.skip(c.wire().len() as int);
        assert(c.wire() + tail =~= bytes);
        lemma_decode_chunk_of_wire(c, tail);
    }
}

/// What is decoded from bytes is framed, and its own bytes are the ones that
/// were read: the first `12 + length` of the input.
pub proof fn lemma_wire_of_decode_chunk(bytes: Seq<u8>)
    requires
        decode_chunk(bytes) is Ok,
    ensures
        decode_chunk(bytes)->Ok_0.framed(),
        12 + decode_chunk(bytes)->Ok_0.length <= bytes.len(),
        decode_chunk(bytes)->Ok_0.wire() == bytes.subrange(
            0,
            12 + decode_chunk(bytes)->Ok_0.length,
        ),
{
    let c = decode_chunk(bytes)->Ok_0;
    let n = c.length as int;
    lemma_be32_of_be32_value(bytes.subrange(0, 4));
    lemma_be32_value_of_prefix(bytes, 4);
    lemma_be32_of_be32_value(bytes.subrange(8 + n, 12 + n));
    assert(c.wire() =~= bytes.subrange(0, 12 + n));
}

/// One chunk of a PNG file.
pub struct Chunk {
    chunk_length: u32,
    chunk_type: ChunkType,
    chunk_data: Vec<u8>,
    crc: u32,
}

impl View for Chunk {
    type V = ChunkView;

    closed spec fn view(&self) -> ChunkView {
        ChunkView {
            length: self.chunk_length,
            chunk_type: self.chunk_type@,
            data: self.chunk_data@,
            crc: self.crc,
        }
    }
}

impl Chunk {
    /// Builds a chunk and seals it with the checksum of type code and payload.
    pub fn new(chunk_type: ChunkType, chunk_data: Vec<u8>) -> (r: Chunk)
        ensures
            r@ == fresh_chunk(chunk_type@, chunk_data@),
            r@.sealed(),
            chunk_data@.len() <= u32::MAX ==> r@.framed(),
    {
        let code = chunk_type.bytes();
        let mut covered: Vec<u8> = Vec::new();
        covered.extend_from_slice(code.as_slice());
        covered.extend_from_slice(chunk_data.as_slice());
        assert(covered@ =~= chunk_type@ + chunk_data@);
        let crc: u32 = checksum(covered.as_slice());
        Chunk {
            chunk_length: #[verifier::truncate] (chunk_data.len() as u32),
            chunk_type,
            chunk_data,
            crc,
        }
    }

    /// Decodes one chunk from the front of `bytes`: see [`decode_chunk`].
    pub fn try_from(bytes: &[u8]) -> (r: Result<Chunk, ChunkError>)
        ensures
            match decode_chunk(bytes@) {
                Ok(v) => r matches Ok(c) && c@ == v,
                Err(e) => r matches Err(x) && x == e,
            },
    {
        if bytes.len() < 12 {
            return Err(ChunkError::ConversionError);
        }
        let chunk_length: u32 = u32_from_be_bytes(u8_4_from_slice(&bytes[0..4]));
        proof {
            lemma_be32_value_of_prefix(bytes@, 4);
        }
        let chunk_type = match ChunkType::try_from(u8_4_from_slice(&bytes[4..8])) {
            Ok(t) => t,
            Err(_) => {
                return Err(ChunkError::ConversionError);
            },
        };
        if bytes.len() - 12 < chunk_length as usize {
            return Err(ChunkError::UnexpectedEOF);
        }
        let n: usize = chunk_length as usize;
        let chunk_data = slice_to_vec(&bytes[8..8 + n]);
        let crc: u32 = u32_from_be_bytes(u8_4_from_slice(&bytes[8 + n..12 + n]));
        Ok(Chunk { chunk_length, chunk_type, chunk_data, crc })
    }

    /// The chunk as it stands in a file.
    pub fn as_bytes(&self) -> (r: Vec<u8>)
        ensures
            r@ == self@.wire(),
    {
        let mut out: Vec<u8> = Vec::new();
        out.extend_from_slice(u32_to_be_bytes(self.chunk_length).as_slice());
        out.extend_from_slice(self.chunk_type.bytes().as_slice());
        out.extend_from_slice(self.chunk_data.as_slice());
        out.extend_from_slice(u32_to_be_bytes(self.crc).as_slice());
        assert(out@ =~= self@.wire());
        out
    }

    /// The length field.
    pub fn length(&self) -> (r: u32)
        ensures
            r == self@.length,
    {
        self.chunk_length
    }

    /// The type code.
    pub fn chunk_type(&self) -> (r: &ChunkType)
        ensures
            r@ == self@.chunk_type,
            is_type_code(self@.chunk_type),
    {
        proof {
            use_type_invariant(&self.chunk_type);
        }
        &self.chunk_type
    }

    /// The payload.
    pub fn data(&self) -> (r: &[u8])
        ensures
            r@ == self@.data,
    {
        self.chunk_data.as_slice()
    }

    /// The payload as text. It is text exactly when it is valid UTF-8.
    pub fn data_as_string(&self) -> (r: Result<String, Utf8Error>)
        ensures
            r is Ok <==> valid_utf8(self@.data),
            r matches Ok(text) ==> text@ == decode_utf8(self@.data),
    {
        match from_utf8(self.chunk_data.as_slice()) {
            Ok(text) => {
                proof {
                    encode_utf8_decode_utf8(text@);
                }
                Ok(text.to_owned())
            },
            Err(e) => Err(e),
        }
    }

    /// Builds a chunk from a type code and a payload that are both given as
    /// text. The payload is the UTF-8 encoding of `data`. The call fails
    /// exactly when `chunk_type` is no type code: see [`parse_code`].
    pub fn from_strings(chunk_type: &str, data: &str) -> (r: Result<Chunk, ChunkError>)
        ensures
            match parse_code(chunk_type@) {
                Ok(code) => r matches Ok(c) && c@ == fresh_chunk(code, encode_utf8(data@)),
                Err(_) => r matches Err(e) && e == ChunkError::ConversionError,
            },
    {
        let chunk_type = match ChunkType::from_str(chunk_type) {
            Ok(t) => t,
            Err(_) => {
                return Err(ChunkError::ConversionError);
            },
        };
        let data = slice_to_vec(data.as_bytes());
        Ok(Chunk::new(chunk_type, data))
    }

    /// The checksum field.
    pub fn crc(&self) -> (r: u32)
        ensures
            r == self@.crc,
    {
        self.crc
    }
}

} // verus!
