//! Whole images: the signature and the chunks that follow it, in file order.
use crate::png::chunk::{
    decode_chunk, lemma_decode_chunk_of_wire, lemma_wire_of_decode_chunk, Chunk, ChunkError,
    ChunkView,
};
use crate::png::chunk_type::code_text;
use crate::png::endian::{
    be32, be32_value, lemma_be32_value_of_be32, lemma_be32_value_of_prefix, u32_from_be_bytes,
    u8_4_from_slice,
};
use vstd::prelude::*;
use vstd::std_specs::convert::FromSpecImpl;
use vstd::string::StringExecFns;

verus! {

/// The ways in which decoding or editing an image can fail.
#[derive(Debug, Clone, Copy, PartialEq, Eq)]
pub enum PngError {
    /// The buffer does not start with the eight signature bytes.
    InvalidSignature,
    /// No chunk has the type code that was asked for.
    InvalidChunk,
    /// The buffer ends inside a chunk.
    UnexpectedEOF,
    /// A chunk was refused by the chunk decoder.
    Chunk(ChunkError),
}

impl From<ChunkError> for PngError {
    /// A chunk that was refused makes the whole file unreadable.
    fn from(e: ChunkError) -> (r: PngError) {
        PngError::Chunk(e)
    }
}

impl FromSpecImpl<ChunkError> for PngError {
    open spec fn obeys_from_spec() -> bool {
        true
    }

    open spec fn from_spec(e: ChunkError) -> PngError {
        PngError::Chunk(e)
    }
}

impl PngError {
    /// The error's name, as it is shown to users; around the name of a chunk
    /// error stands `Chunk(..)`.
    pub open spec fn text(self) -> Seq<char> {
        match self {
            PngError::InvalidSignature => "InvalidSignature"@,
            PngError::InvalidChunk => "InvalidChunk"@,
            PngError::UnexpectedEOF => "UnexpectedEOF"@,
            PngError::Chunk(e) => "Chunk("@ + e.text() + ")"@,
        }
    }

    /// The error's name, as it is shown to users.
    pub fn to_string(&self) -> (r: String)
        ensures
            r@ == self.text(),
    {
        match self {
            PngError::InvalidSignature => "InvalidSignature".to_owned(),
            PngError::InvalidChunk => "InvalidChunk".to_owned(),
            PngError::UnexpectedEOF => "UnexpectedEOF".to_owned(),
            PngError::Chunk(e) => {
                let inner = e.to_string();
                "Chunk(".to_owned().concat(inner.as_str()).concat(")")
            },
        }
    }
}

/// The eight bytes with which every PNG file starts.
pub open spec fn signature() -> Seq<u8> {
    seq![137u8, 80u8, 78u8, 71u8, 13u8, 10u8, 26u8, 10u8]
}

/// The views of a sequence of chunks, in the same order.
pub open spec fn views(chunks: Seq<Chunk>) -> Seq<ChunkView> {
    chunks.map_values(|c: Chunk| c@)
}

/// `chunks` put in front of what was decoded after them.
pub open spec fn prepend(chunks: Seq<ChunkView>, rest: Result<Seq<ChunkView>, PngError>) -> Result<
    Seq<ChunkView>,
    PngError,
> {
    match rest {
        Ok(more) => Ok(chunks + more),
        Err(e) => Err(e),
    }
}

/// What the bytes after the signature decode to. The chunks are read front to
/// back, each as long as its length field says, until the bytes end exactly
/// behind a chunk. The first chunk that cannot be read decides the error. No
/// type code ends the sequence early and none is required.
pub open spec fn decode_chunks(bytes: Seq<u8>) -> Result<Seq<ChunkView>, PngError>
    decreases bytes.len(),
{
    if bytes.len() == 0 {
        Ok(Seq::empty())
    } else if bytes.len() < 4 || bytes.len() < 12 + be32_value(bytes) {
        Err(PngError::UnexpectedEOF)
    } else {
        let n = 12 + be32_value(bytes);
        match decode_chunk(bytes.subrange(0, n)) {
            Ok(c) => prepend(seq![c], decode_chunks(bytes.skip(n))),
            Err(e) => Err(PngError::Chunk(e)),
        }
    }
}

/// What a whole buffer decodes to: see [`decode_chunks`].
pub open spec fn decode_png(bytes: Seq<u8>) -> Result<Seq<ChunkView>, PngError> {
    if bytes.len() < 8 || bytes.subrange(0, 8) != signature() {
        Err(PngError::InvalidSignature)
    } else {
        decode_chunks(bytes.skip(8))
    }
}

/// The chunks' bytes one after the other, with nothing between them.
pub open spec fn encode_chunks(chunks: Seq<ChunkView>) -> Seq<u8>
    decreases chunks.len(),
{
    if chunks.len() == 0 {
        Seq::empty()
    } else {
        encode_chunks(chunks.drop_last()) + chunks.last().wire()
    }
}

/// A whole file: the signature, then the chunks.
pub open spec fn encode_png(chunks: Seq<ChunkView>) -> Seq<u8> {
    signature() + encode_chunks(chunks)
}

/// The chunk's type code, written as text, is `name`.
pub open spec fn has_type(c: ChunkView, name: Seq<char>) -> bool {
    code_text(c.chunk_type) == name
}

/// No chunk of `chunks` has the type `name`.
pub open spec fn none_of_type(chunks: Seq<ChunkView>, name: Seq<char>) -> bool {
    forall|j: int| 0 <= j < chunks.len() ==> !has_type(#[trigger] chunks[j], name)
}

/// `i` is the place of the first chunk of type `name`: where several chunks
/// share a type, the one nearest the start of the file is meant.
pub open spec fn is_first_of_type(chunks: Seq<ChunkView>, name: Seq<char>, i: int) -> bool {
    &&& 0 <= i < chunks.len()
    &&& has_type(chunks[i], name)
    &&& none_of_type(chunks.take(i), name)
}

/// The place of the first chunk of type `name`, where there is one.
pub open spec fn first_of_type(chunks: Seq<ChunkView>, name: Seq<char>) -> int {
    choose|i: int| is_first_of_type(chunks, name, i)
}

/// At most one place is the first of a type, so looking a type up and
/// removing it speak of the same chunk.
pub proof fn lemma_first_of_type_is_unique(
    chunks: Seq<ChunkView>,
    name: Seq<char>,
    i: int,
    j: int,
)
    requires
        is_first_of_type(chunks, name, i),
        is_first_of_type(chunks, name, j),
    ensures
        i == j,
        i == first_of_type(chunks, name),
{
    let k = first_of_type(chunks, name);
    if k < i {
        assert(chunks.take(i)[k] == chunks[k]);
    } else if i < k {
        assert(chunks.take(k)[i] == chunks[i]);
    }
    if i < j {
        assert(chunks.take(j)[i] == chunks[i]);
    } else if j < i {
        assert(chunks.take(i)[j] == chunks[j]);
    }
}

/// Where some chunk has the type, one of them is the first.
pub proof fn lemma_first_of_type_exists(chunks: Seq<ChunkView>, name: Seq<char>)
    requires
        !none_of_type(chunks, name),
    ensures
        is_first_of_type(chunks, name, first_of_type(chunks, name)),
    decreases chunks.len(),
{
    let j = choose|j: int| 0 <= j < chunks.len() && has_type(#[trigger] chunks[j], name);
    if none_of_type(chunks.take(j), name) {
        assert(is_first_of_type(chunks, name, j));
    } else {
        let front = chunks.take(j);
        lemma_first_of_type_exists(front, name);
        let i = first_of_type(front, name);
        assert(front[i] == chunks[i]);
        assert(front.take(i) =~= chunks.take(i));
        assert(is_first_of_type(chunks, name, i));
    }
}

/// Every chunk of `chunks` is framed: see [`ChunkView::framed`].
pub open spec fn all_framed(chunks: Seq<ChunkView>) -> bool {
    forall|i: int| 0 <= i < chunks.len() ==> (#[trigger] chunks[i]).framed()
}

/// Appending a chunk appends its bytes.
pub proof fn lemma_encode_chunks_push(chunks: Seq<ChunkView>, c: ChunkView)
    ensures
        encode_chunks(chunks.push(c)) == encode_chunks(chunks) + c.wire(),
{
    assert(chunks.push(c).drop_last() =~= chunks);
}

/// An image with one more chunk is a file with that chunk's bytes at its
/// end: twelve bytes of framing and the payload.
pub proof fn lemma_encode_png_push(chunks: Seq<ChunkView>, c: ChunkView)
    requires
        c.chunk_type.len() == 4,
    ensures
        encode_png(chunks.push(c)) == encode_png(chunks) + c.wire(),
        encode_png(chunks.push(c)).len() == encode_png(chunks).len() + 12 + c.data.len(),
{
    lemma_encode_chunks_push(chunks, c);
    lemma_be32_value_of_be32(c.length);
    lemma_be32_value_of_be32(c.crc);
    assert(signature() + (encode_chunks(chunks) + c.wire()) =~= encode_png(chunks) + c.wire());
}

/// A chunk in front puts its bytes in front.
pub proof fn lemma_encode_chunks_front(c: ChunkView, chunks: Seq<ChunkView>)
    ensures
        encode_chunks(seq![c] + chunks) == c.wire() + encode_chunks(chunks),
    decreases chunks.len(),
{
    let all = seq![c] + chunks;
    let w = c.wire();
    if chunks.len() == 0 {
        assert(all.drop_last() =~= Seq::<ChunkView>::empty());
        assert(all.last() == c);
        assert(encode_chunks(all.drop_last()) == Seq::<u8>::empty());
        assert(encode_chunks(all) == Seq::<u8>::empty() + w);
        assert(Seq::<u8>::empty() + w =~= w + Seq::<u8>::empty());
    } else {
        let init = chunks.drop_last();
        let e = encode_chunks(init);
        let l = chunks.last().wire();
        lemma_encode_chunks_front(c, init);
        assert(all.drop_last() =~= seq![c] + init);
        assert(all.last() == chunks.last());
        assert(encode_chunks(all) == (w + e) + l);
        assert(encode_chunks(chunks) == e + l);
        assert((w + e) + l =~= w + (e + l));
    }
}

/// Framed chunks that were written one after the other are read back as
/// they were, in the same order.
pub proof fn lemma_decode_of_encode_chunks(chunks: Seq<ChunkView>)
    requires
        all_framed(chunks),
    ensures
        decode_chunks(encode_chunks(chunks)) == Ok::<Seq<ChunkView>, PngError>(chunks),
    decreases chunks.len(),
{
    if chunks.len() == 0 {
        assert(chunks =~= Seq::<ChunkView>::empty());
    } else {
        let c = chunks[0];
        let tail = chunks.drop_first();
        assert(chunks =~= seq![c] + tail);
        lemma_encode_chunks_front(c, tail);
        let bytes = encode_chunks(chunks);
        assert(c.framed());
        lemma_decode_chunk_of_wire(c, Seq::empty());
        assert(c.wire() + Seq::<u8>::empty() =~= c.wire());
        lemma_be32_value_of_be32(c.length);
        assert(bytes.subrange(0, 4) =~= be32(c.length));
        lemma_be32_value_of_prefix(bytes, 4);
        let n = 12 + c.length;
        assert(bytes.subrange(0, n) =~= c.wire());
        assert(bytes.skip(n) =~= encode_chunks(tail));
        assert(all_framed(tail)) by {
            assert forall|i: int| 0 <= i < tail.len() implies (#[trigger] tail[i]).framed() by {
                assert(tail[i] == chunks[i + 1]);
            }
        }
        lemma_decode_of_encode_chunks(tail);
    }
}

/// Writing an image of framed chunks and reading the file gives the same
/// chunks in the same order. A chunk built by [`Chunk::new`] is framed unless
/// its payload is longer than a 32-bit length field can say.
pub proof fn lemma_decode_of_encode(chunks: Seq<ChunkView>)
    requires
        all_framed(chunks),
    ensures
        decode_png(encode_png(chunks)) == Ok::<Seq<ChunkView>, PngError>(chunks),
{
    let bytes = encode_png(chunks);
    assert(bytes.subrange(0, 8) =~= signature());
    assert(bytes.skip(8) =~= encode_chunks(chunks));
    lemma_decode_of_encode_chunks(chunks);
}

/// Chunks that were read from bytes are framed, and writing them gives the
/// bytes again.
pub proof fn lemma_encode_of_decode_chunks(bytes: Seq<u8>)
    requires
        decode_chunks(bytes) is Ok,
    ensures
        all_framed(decode_chunks(bytes)->Ok_0),
        encode_chunks(decode_chunks(bytes)->Ok_0) == bytes,
    decreases bytes.len(),
{
    if bytes.len() == 0 {
        assert(encode_chunks(Seq::<ChunkView>::empty()) =~= bytes);
    } else {
        let n = 12 + be32_value(bytes);
        let head = bytes.subrange(0, n);
        let c = decode_chunk(head)->Ok_0;
        let tail = decode_chunks(bytes.skip(n))->Ok_0;
        let all = seq![c] + tail;
        assert(decode_chunks(bytes)->Ok_0 == all);
        assert(c.framed() && c.wire() == head) by {
            lemma_wire_of_decode_chunk(head);
            lemma_be32_value_of_prefix(bytes, n);
            assert(head.subrange(0, n) =~= head);
        }
        lemma_encode_of_decode_chunks(bytes.skip(n));
        assert(encode_chunks(all) == bytes) by {
            lemma_encode_chunks_front(c, tail);
            assert(head + bytes.skip(n) =~= bytes);
        }
        assert forall|i: int| 0 <= i < all.len() implies (#[trigger] all[i]).framed() by {
            if i > 0 {
                assert(all[i] == tail[i - 1]);
            }
        }
    }
}

/// Reading a file and writing the image gives the file again, byte for byte,
/// whatever its checksums hold.
pub proof fn lemma_encode_of_decode(bytes: Seq<u8>)
    requires
        decode_png(bytes) is Ok,
    ensures
        all_framed(decode_png(bytes)->Ok_0),
        encode_png(decode_png(bytes)->Ok_0) == bytes,
{
    lemma_encode_of_decode_chunks(bytes.skip(8));
    assert(bytes.subrange(0, 8) + bytes.skip(8) =~= bytes);
}

/// The decoder is the inverse of the encoder: bytes decode to a sequence of
/// chunks exactly when every chunk is framed and the bytes are the file that
/// holds these chunks.
pub proof fn lemma_decode_inverts_encode(bytes: Seq<u8>, chunks: Seq<ChunkView>)
    ensures
        decode_png(bytes) == Ok::<Seq<ChunkView>, PngError>(chunks) <==> all_framed(chunks)
            && encode_png(chunks) == bytes,
{
    if decode_png(bytes) == Ok::<Seq<ChunkView>, PngError>(chunks) {
        lemma_encode_of_decode(bytes);
    }
    if all_framed(chunks) && encode_png(chunks) == bytes {
        lemma_decode_of_encode(chunks);
    }
}

/// An image in memory: the chunks of a file, in file order. The signature is
/// the same for every image and is not stored with each.
pub struct Png {
    chunks: Vec<Chunk>,
}

impl View for Png {
    type V = Seq<ChunkView>;

    /// The views of the chunks, in file order.
    open spec fn view(&self) -> Seq<ChunkView> {
        views(self.spec_chunks())
    }
}

fn has_signature(bytes: &[u8]) -> (r: bool)
    ensures
        r == (bytes@.len() >= 8 && bytes@.subrange(0, 8) == signature()),
{
    if bytes.len() < 8 {
        return false;
    }
    let r = bytes[0] == 137 && bytes[1] == 80 && bytes[2] == 78 && bytes[3] == 71 && bytes[4] == 13
        && bytes[5] == 10 && bytes[6] == 26 && bytes[7] == 10;
    proof {
        let head = bytes@.subrange(0, 8);
        if r {
            assert(head =~= signature());
        } else {
            assert(head[0] == bytes@[0] && head[1] == bytes@[1] && head[2] == bytes@[2] && head[3]
                == bytes@[3] && head[4] == bytes@[4] && head[5] == bytes@[5] && head[6]
                == bytes@[6] && head[7] == bytes@[7]);
        }
    }
    r
}

impl Png {
    /// The signature, as an array.
    pub const STANDARD_HEADER: [u8; 8] = [137, 80, 78, 71, 13, 10, 26, 10];

    /// The chunks, in file order.
    pub closed spec fn spec_chunks(&self) -> Seq<Chunk> {
        self.chunks@
    }

    /// An image of the given chunks, in the given order. The chunks are
    /// taken as they are.
    pub fn from_chunks(chunks: Vec<Chunk>) -> (r: Png)
        ensures
            r.spec_chunks() == chunks@,
            r@ == views(chunks@),
    {
        Png { chunks }
    }

    /// Puts `chunk` behind the last chunk.
    pub fn append_chunk(&mut self, chunk: Chunk)
        ensures
            final(self).spec_chunks() == old(self).spec_chunks().push(chunk),
            final(self)@ == old(self)@.push(chunk@),
    {
        assert(views(self.chunks@.push(chunk)) =~= views(self.chunks@).push(chunk@));
        self.chunks.push(chunk);
    }

    fn position(&self, chunk_type: &str) -> (r: Option<usize>)
        ensures
            match r {
                Some(i) => is_first_of_type(self@, chunk_type@, i as int),
                None => none_of_type(self@, chunk_type@),
            },
    {
        let wanted = chunk_type.to_owned();
        let mut i: usize = 0;
        while i < self.chunks.len()
            invariant
                i <= self.chunks@.len(),
                wanted@ == chunk_type@,
                none_of_type(self@.take(i as int), chunk_type@),
            decreases self.chunks@.len() - i,
        {
            if self.chunks[i].chunk_type().to_string() == wanted {
                return Some(i);
            }
            assert forall|j: int| 0 <= j < i + 1 implies !has_type(
                #[trigger] self@.take(i + 1)[j],
                chunk_type@,
            ) by {
                if j < i {
                    assert(self@.take(i as int)[j] == self@.take(i + 1)[j]);
                }
            }
            i += 1;
        }
        assert(self@.take(i as int) =~= self@);
        None
    }

    /// Takes the first chunk of type `chunk_type` out of the image and
    /// returns it. The chunks before it and behind it keep their order. Where
    /// no chunk has that type, the image stays as it is.
    pub fn remove_chunk(&mut self, chunk_type: &str) -> (r: Result<Chunk, PngError>)
        ensures
            match r {
                Ok(c) => exists|i: int|
                    {
                        &&& is_first_of_type(old(self)@, chunk_type@, i)
                        &&& c == old(self).spec_chunks()[i]
                        &&& final(self).spec_chunks() == old(self).spec_chunks().remove(i)
                        &&& final(self)@ == old(self)@.remove(i)
                    },
                Err(e) => {
                    &&& e == PngError::InvalidChunk
                    &&& none_of_type(old(self)@, chunk_type@)
                    &&& final(self).spec_chunks() == old(self).spec_chunks()
                },
            },
    {
        match self.position(chunk_type) {
            Some(idx) => {
                assert(views(self.chunks@.remove(idx as int)) =~= views(self.chunks@).remove(
                    idx as int,
                ));
                Ok(self.chunks.remove(idx))
            },
            None => Err(PngError::InvalidChunk),
        }
    }

    /// The first chunk of type `chunk_type`, if there is one.
    pub fn chunk_by_type(&self, chunk_type: &str) -> (r: Option<&Chunk>)
        ensures
            match r {
                Some(c) => exists|i: int|
                    is_first_of_type(self@, chunk_type@, i) && *c == self.spec_chunks()[i],
                None => none_of_type(self@, chunk_type@),
            },
    {
        match self.position(chunk_type) {
            Some(idx) => Some(&self.chunks[idx]),
            None => None,
        }
    }

    /// The signature.
    pub fn header(&self) -> (r: &[u8; 8])
        ensures
            r@ == signature(),
    {
        assert(Png::STANDARD_HEADER@ =~= signature());
        &Png::STANDARD_HEADER
    }

    /// The chunks, in file order.
    pub fn chunks(&self) -> (r: &[Chunk])
        ensures
            r@ == self.spec_chunks(),
    {
        self.chunks.as_slice()
    }

    /// The whole file: see [`encode_png`].
    pub fn as_bytes(&self) -> (r: Vec<u8>)
        ensures
            r@ == encode_png(self@),
    {
        let mut out: Vec<u8> = Vec::new();
        out.extend_from_slice(Png::STANDARD_HEADER.as_slice());
        assert(out@ =~= signature());
        let ghost all = views(self.chunks@);
        assert(all.take(0) =~= Seq::<ChunkView>::empty());
        let mut i: usize = 0;
        while i < self.chunks.len()
            invariant
                i <= self.chunks@.len(),
                all == views(self.chunks@),
                out@ == signature() + encode_chunks(all.take(i as int)),
            decreases self.chunks@.len() - i,
        {
            let part = self.chunks[i].as_bytes();
            out.extend_from_slice(part.as_slice());
            proof {
                lemma_encode_chunks_push(all.take(i as int), all[i as int]);
                assert(all.take(i + 1) =~= all.take(i as int).push(all[i as int]));
                assert(out@ =~= signature() + encode_chunks(all.take(i + 1)));
            }
            i += 1;
        }
        assert(all.take(i as int) =~= all);
        out
    }

    /// Decodes a whole file: see [`decode_png`]. Nothing is returned of a
    /// buffer that holds an unreadable chunk.
    pub fn try_from(bytes: &[u8]) -> (r: Result<Png, PngError>)
        ensures
            match decode_png(bytes@) {
                Ok(v) => r matches Ok(p) && p@ == v,
                Err(e) => r matches Err(x) && x == e,
            },
    {
        if !has_signature(bytes) {
            return Err(PngError::InvalidSignature);
        }
        let mut chunks: Vec<Chunk> = Vec::new();
        let mut cursor: usize = 8;
        assert(prepend(views(chunks@), decode_chunks(bytes@.skip(8))) == decode_chunks(
            bytes@.skip(8),
        )) by {
            let d = decode_chunks(bytes@.skip(8));
            if d is Ok {
                assert(views(chunks@) + d->Ok_0 =~= d->Ok_0);
            }
        }
        while cursor < bytes.len()
            invariant
                8 <= cursor <= bytes@.len(),
                decode_png(bytes@) == decode_chunks(bytes@.skip(8)),
                decode_chunks(bytes@.skip(8)) == prepend(
                    views(chunks@),
                    decode_chunks(bytes@.skip(cursor as int)),
                ),
            decreases bytes@.len() - cursor,
        {
            let ghost rest = bytes@.skip(cursor as int);
            let left: usize = bytes.len() - cursor;
            if left < 4 {
                return Err(PngError::UnexpectedEOF);
            }
            let length: usize = u32_from_be_bytes(u8_4_from_slice(&bytes[cursor..cursor + 4]))
                as usize;
            assert(length == be32_value(rest)) by {
                lemma_be32_value_of_prefix(rest, 4);
                assert(bytes@.subrange(cursor as int, cursor + 4) =~= rest.subrange(0, 4));
            }
            if left < 12 || left - 12 < length {
                return Err(PngError::UnexpectedEOF);
            }
            let total: usize = 12 + length;
            assert(bytes@.subrange(cursor as int, cursor + total) =~= rest.subrange(
                0,
                total as int,
            ));
            let chunk = match Chunk::try_from(&bytes[cursor..cursor + total]) {
                Ok(c) => c,
                Err(e) => {
                    return Err(PngError::from(e));
                },
            };
            proof {
                let more = decode_chunks(rest.skip(total as int));
                assert(rest.skip(total as int) =~= bytes@.skip(cursor + total));
                assert(views(chunks@.push(chunk)) =~= views(chunks@).push(chunk@));
                if more is Ok {
                    assert(views(chunks@) + (seq![chunk@] + more->Ok_0) =~= views(chunks@).push(
                        chunk@,
                    ) + more->Ok_0);
                }
            }
            chunks.push(chunk);
            cursor += total;
        }
        assert(bytes@.skip(cursor as int) =~= Seq::<u8>::empty());
        assert(views(chunks@) + Seq::<ChunkView>::empty() =~= views(chunks@));
        Ok(Png { chunks })
    }
}

} // verus!
