//! One container record: a type tag, a payload, and a checksum, together
//! with its exact byte layout.
//!
//! On the wire a chunk is the big-endian payload length, the 4 tag bytes,
//! the payload, and a big-endian CRC-32 checksum over tag and payload (the
//! length is not covered by the checksum).

use crate::be_bytes::{
    lemma_u32_be_bytes_round_trip, push_u32_be_bytes, read_u32_be_bytes, spec_u32_from_be_bytes,
    spec_u32_to_be_bytes,
};
use crate::chunk_type::{bytes_as_chars, push_char, ChunkType};
use crate::crc32::{crc32, crc32_of};
use crate::error::PngError;
use vstd::prelude::*;

verus! {

/// The mathematical content of a chunk: its tag bytes, payload bytes and
/// stored checksum. The length field is not part of the model; it always
/// equals the payload's length.
#[verifier::ext_equal]
pub struct ChunkView {
    pub type_bytes: Seq<u8>,
    pub payload: Seq<u8>,
    pub checksum: u32,
}

impl ChunkView {
    /// A chunk view that an actual chunk can carry: four tag bytes and a
    /// payload whose length fits the 32-bit length field.
    pub open spec fn wf(self) -> bool {
        self.type_bytes.len() == 4 && self.payload.len() <= u32::MAX
    }

    /// The chunk's exact serialized form: big-endian payload length, tag
    /// bytes, payload, big-endian checksum.
    pub open spec fn ser(self) -> Seq<u8> {
        spec_u32_to_be_bytes(self.payload.len() as u32) + self.type_bytes + self.payload
            + spec_u32_to_be_bytes(self.checksum)
    }
}

/// The number of bytes the chunk starting at the front of `s` occupies: the
/// 12 fixed bytes plus the declared payload length.
pub open spec fn chunk_size_at(s: Seq<u8>) -> int
    recommends
        s.len() >= 12,
{
    12 + spec_u32_from_be_bytes(s.subrange(0, 4))
}

/// The chunk stored at the front of `s`: tag bytes at offsets 4 to 8, then
/// the declared number of payload bytes, then the checksum read verbatim.
pub open spec fn spec_parse_chunk(s: Seq<u8>) -> ChunkView
    recommends
        s.len() >= 12,
        chunk_size_at(s) <= s.len(),
{
    let n = spec_u32_from_be_bytes(s.subrange(0, 4)) as int;
    ChunkView {
        type_bytes: s.subrange(4, 8),
        payload: s.subrange(8, 8 + n),
        checksum: spec_u32_from_be_bytes(s.subrange(8 + n, 12 + n)),
    }
}

/// Parsing the serialized bytes of a well-formed chunk yields that chunk
/// back, and the serialized form declares its own exact extent.
pub proof fn lemma_chunk_round_trip(c: ChunkView)
    requires
        c.wf(),
    ensures
        c.ser().len() == 12 + c.payload.len(),
        chunk_size_at(c.ser()) == c.ser().len(),
        spec_parse_chunk(c.ser()) == c,
{
    let s = c.ser();
    let n = c.payload.len() as int;
    lemma_u32_be_bytes_round_trip(c.payload.len() as u32);
    lemma_u32_be_bytes_round_trip(c.checksum);
    assert(s.subrange(0, 4) =~= spec_u32_to_be_bytes(c.payload.len() as u32));
    assert(s.subrange(4, 8) =~= c.type_bytes);
    assert(s.subrange(8, 8 + n) =~= c.payload);
    assert(s.subrange(8 + n, 12 + n) =~= spec_u32_to_be_bytes(c.checksum));
    assert(spec_parse_chunk(s) =~= c);
}

/// One container record. Immutable once built: a container is edited by
/// appending or removing whole chunks, never by changing one in place.
#[derive(Debug)]
pub struct Chunk {
    length: u32,
    chunk_type: ChunkType,
    payload: Vec<u8>,
    checksum: u32,
}

impl View for Chunk {
    type V = ChunkView;

    closed spec fn view(&self) -> ChunkView {
        ChunkView {
            type_bytes: self.chunk_type@,
            payload: self.payload@,
            checksum: self.checksum,
        }
    }
}

impl Chunk {
    /// The length field always matches the payload actually carried.
    #[verifier::type_invariant]
    closed spec fn length_matches(self) -> bool {
        self.length == self.payload@.len()
    }

    /// Builds a fresh chunk from a tag and a payload, computing the
    /// checksum over the tag bytes followed by the payload bytes.
    pub fn new(chunk_type: ChunkType, payload: Vec<u8>) -> (c: Chunk)
        requires
            payload@.len() <= u32::MAX,
        ensures
            c@.type_bytes == chunk_type@,
            c@.payload == payload@,
            c@.checksum == crc32_of(chunk_type@ + payload@),
            c@.wf(),
    {
        let type_bytes = chunk_type.bytes();
        let mut checked: Vec<u8> = Vec::new();
        checked.push(type_bytes[0]);
        checked.push(type_bytes[1]);
        checked.push(type_bytes[2]);
        checked.push(type_bytes[3]);
        push_all(&mut checked, &payload);
        proof {
            assert(checked@ =~= chunk_type@ + payload@);
        }
        let checksum = crc32(&checked);
        let length = payload.len() as u32;
        Chunk { length, chunk_type, payload, checksum }
    }

    /// Parses one chunk stored at `bytes[start ..]`, returning it together
    /// with the offset just past it; bytes beyond the chunk's declared
    /// extent are left for the caller.
    pub(crate) fn parse_at(bytes: &Vec<u8>, start: usize) -> (r: Result<(Chunk, usize), PngError>)
        requires
            start <= bytes@.len(),
        ensures
            ({
                let s = bytes@.skip(start as int);
                &&& (r is Ok <==> s.len() >= 12 && chunk_size_at(s) <= s.len())
                &&& (r matches Ok(p) ==> p.0@ == spec_parse_chunk(s) && p.1 == start
                    + chunk_size_at(s) && start < p.1 <= bytes@.len())
                &&& (r is Err ==> r == Err::<(Chunk, usize), PngError>(PngError::Truncated))
            }),
    {
        let ghost s = bytes@.skip(start as int);
        let n = bytes.len();
        if n - start < 12 {
            return Err(PngError::Truncated);
        }
        let length = read_u32_be_bytes(bytes, start);
        proof {
            assert(bytes@.subrange(start as int, start as int + 4) =~= s.subrange(0, 4));
        }
        if (n - start) - 12 < length as usize {
            return Err(PngError::Truncated);
        }
        let chunk_type = ChunkType::from_bytes(
            [bytes[start + 4], bytes[start + 5], bytes[start + 6], bytes[start + 7]],
        );
        let mut payload: Vec<u8> = Vec::new();
        let mut i: usize = 0;
        while i < length as usize
            invariant
                start + 12 + length <= bytes@.len(),
                bytes@.len() <= usize::MAX,
                0 <= i <= length,
                payload@ == bytes@.subrange(start as int + 8, start as int + 8 + i as int),
            decreases length as int - i as int,
        {
            let b = bytes[start + 8 + i];
            payload.push(b);
            proof {
                assert(payload@ =~= bytes@.subrange(
                    start as int + 8,
                    start as int + 8 + i as int + 1,
                ));
            }
            i = i + 1;
        }
        let checksum = read_u32_be_bytes(bytes, start + 8 + length as usize);
        let c = Chunk { length, chunk_type, payload, checksum };
        proof {
            let n_spec = spec_u32_from_be_bytes(s.subrange(0, 4)) as int;
            assert(n_spec == length as int);
            assert(chunk_type@ =~= s.subrange(4, 8));
            assert(c@.payload =~= s.subrange(8, 8 + n_spec));
            assert(bytes@.subrange(
                start as int + 8 + n_spec,
                start as int + 12 + n_spec,
            ) =~= s.subrange(8 + n_spec, 12 + n_spec));
            assert(c@ =~= spec_parse_chunk(s));
        }
        Ok((c, start + 12 + length as usize))
    }

    /// Parses a chunk from the front of `bytes`. The buffer must hold the 12
    /// fixed bytes and the declared payload; any bytes past the chunk's
    /// declared extent are ignored.
    pub fn parse(bytes: &Vec<u8>) -> (r: Result<Chunk, PngError>)
        ensures
            r is Ok <==> bytes@.len() >= 12 && chunk_size_at(bytes@) <= bytes@.len(),
            r matches Ok(c) ==> c@ == spec_parse_chunk(bytes@),
            r is Err ==> r == Err::<Chunk, PngError>(PngError::Truncated),
    {
        proof {
            assert(bytes@.skip(0) =~= bytes@);
        }
        match Self::parse_at(bytes, 0) {
            Ok((c, _)) => Ok(c),
            Err(e) => Err(e),
        }
    }

    /// The payload's byte count.
    pub fn length(&self) -> (r: u32)
        ensures
            r == self@.payload.len(),
    {
        proof {
            use_type_invariant(self);
        }
        self.length
    }

    /// The stored checksum.
    pub fn crc(&self) -> (r: u32)
        ensures
            r == self@.checksum,
    {
        self.checksum
    }

    /// The chunk's type tag.
    pub fn chunk_type(&self) -> (r: &ChunkType)
        ensures
            r@ == self@.type_bytes,
    {
        &self.chunk_type
    }

    /// The raw payload bytes.
    pub fn data(&self) -> (r: &Vec<u8>)
        ensures
            r@ == self@.payload,
    {
        &self.payload
    }

    /// The payload rendered as text, one single-byte character per byte;
    /// a chunk with no payload has no text to show.
    pub fn data_as_string(&self) -> (r: Result<String, PngError>)
        ensures
            r is Ok <==> self@.payload.len() > 0,
            r matches Ok(s) ==> s@ == bytes_as_chars(self@.payload),
            r is Err ==> r == Err::<String, PngError>(PngError::EmptyPayload),
    {
        if self.payload.len() == 0 {
            return Err(PngError::EmptyPayload);
        }
        let mut out = String::new();
        let mut i: usize = 0;
        while i < self.payload.len()
            invariant
                0 <= i <= self@.payload.len(),
                out@ == bytes_as_chars(self@.payload.take(i as int)),
            decreases self@.payload.len() - i as int,
        {
            push_char(&mut out, self.payload[i] as char);
            proof {
                assert(out@ =~= bytes_as_chars(self@.payload.take(i as int + 1)));
            }
            i = i + 1;
        }
        proof {
            assert(self@.payload.take(self@.payload.len() as int) =~= self@.payload);
        }
        Ok(out)
    }

    /// The chunk's exact serialized form; the inverse of `parse` for any
    /// chunk this library built.
    pub fn as_bytes(&self) -> (r: Vec<u8>)
        ensures
            r@ == self@.ser(),
            self@.wf(),
    {
        proof {
            use_type_invariant(self);
        }
        let mut out: Vec<u8> = Vec::new();
        push_u32_be_bytes(&mut out, self.length);
        let type_bytes = self.chunk_type.bytes();
        out.push(type_bytes[0]);
        out.push(type_bytes[1]);
        out.push(type_bytes[2]);
        out.push(type_bytes[3]);
        push_all(&mut out, &self.payload);
        push_u32_be_bytes(&mut out, self.checksum);
        proof {
            assert(out@ =~= self@.ser());
        }
        out
    }
}

/// Appends all of `data` to `out`.
fn push_all(out: &mut Vec<u8>, data: &Vec<u8>)
    ensures
        final(out)@ == old(out)@ + data@,
{
    let mut i: usize = 0;
    while i < data.len()
        invariant
            0 <= i <= data@.len(),
            out@ == old(out)@ + data@.take(i as int),
        decreases data@.len() - i as int,
    {
        let b = data[i];
        out.push(b);
        proof {
            assert(out@ =~= old(out)@ + data@.take(i as int + 1));
        }
        i = i + 1;
    }
    proof {
        assert(data@.take(data@.len() as int) =~= data@);
    }
}

} // verus!
