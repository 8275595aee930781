//! The container: a fixed 8-byte signature followed by an ordered sequence
//! of chunks.
//!
//! Order is significant: serialization reproduces the order in which chunks
//! were stored, and lookups return the first chunk of a given type.

use crate::be_bytes::spec_u32_from_be_bytes;
use crate::chunk::{chunk_size_at, lemma_chunk_round_trip, spec_parse_chunk, Chunk, ChunkView};
use crate::chunk_type::bytes_as_chars;
use crate::error::PngError;
use vstd::prelude::*;

verus! {

/// The fixed magic bytes every container starts with.
pub open spec fn spec_signature() -> Seq<u8> {
    seq![137u8, 80u8, 78u8, 71u8, 13u8, 10u8, 26u8, 10u8]
}

/// Whether `s` begins with the fixed signature.
pub open spec fn sig_ok(s: Seq<u8>) -> bool {
    s.len() >= 8 && s.subrange(0, 8) == spec_signature()
}

/// Whether `s` is a well-formed sequence of back-to-back chunks that uses
/// the buffer exactly: each chunk's declared extent lies within `s`, and the
/// last one ends where `s` ends.
pub open spec fn wf_chunk_stream(s: Seq<u8>) -> bool
    decreases s.len(),
{
    if s.len() == 0 {
        true
    } else if s.len() < 12 {
        false
    } else if chunk_size_at(s) > s.len() {
        false
    } else {
        wf_chunk_stream(s.skip(chunk_size_at(s)))
    }
}

/// The chunks stored back-to-back in `s`, in encounter order; meaningful
/// when `wf_chunk_stream(s)` holds.
pub open spec fn spec_parse_chunks(s: Seq<u8>) -> Seq<ChunkView>
    decreases s.len(),
{
    if s.len() < 12 {
        Seq::empty()
    } else if chunk_size_at(s) > s.len() {
        Seq::empty()
    } else {
        seq![spec_parse_chunk(s)] + spec_parse_chunks(s.skip(chunk_size_at(s)))
    }
}

/// Whether a container buffer parses: it begins with the signature and the
/// rest is a well-formed chunk stream.
pub open spec fn parse_ok(s: Seq<u8>) -> bool {
    sig_ok(s) && wf_chunk_stream(s.skip(8))
}

/// The serialized forms of the given chunks, concatenated in order.
pub open spec fn spec_ser_chunks(cs: Seq<ChunkView>) -> Seq<u8>
    decreases cs.len(),
{
    if cs.len() == 0 {
        Seq::empty()
    } else {
        cs[0].ser() + spec_ser_chunks(cs.skip(1))
    }
}

/// A whole container's serialized form: the signature, then every chunk.
pub open spec fn spec_png_ser(cs: Seq<ChunkView>) -> Seq<u8> {
    spec_signature() + spec_ser_chunks(cs)
}

/// The views of a sequence of chunks.
pub open spec fn chunk_views(s: Seq<Chunk>) -> Seq<ChunkView> {
    s.map_values(|c: Chunk| c@)
}

/// Whether the chunk's type tag, rendered as text, equals `key`.
pub open spec fn type_text_matches(c: ChunkView, key: Seq<char>) -> bool {
    bytes_as_chars(c.type_bytes) == key
}

/// Whether some chunk of the sequence has type text `key`.
pub open spec fn has_match(cs: Seq<ChunkView>, key: Seq<char>) -> bool {
    exists|i: int| 0 <= i < cs.len() && type_text_matches(cs[i], key)
}

/// Whether `i` points at the first chunk of the sequence whose type text is
/// `key`.
pub open spec fn is_first_match(cs: Seq<ChunkView>, key: Seq<char>, i: int) -> bool {
    &&& 0 <= i < cs.len()
    &&& type_text_matches(cs[i], key)
    &&& forall|j: int| 0 <= j < i ==> !type_text_matches(cs[j], key)
}

/// The container: the signature is implicit; the chunk sequence is the
/// state.
#[derive(Debug)]
pub struct Png {
    chunks: Vec<Chunk>,
}

impl View for Png {
    type V = Seq<ChunkView>;

    closed spec fn view(&self) -> Seq<ChunkView> {
        chunk_views(self.chunks@)
    }
}

impl Png {
    /// An empty container: the signature followed by no chunks.
    pub fn new() -> (p: Png)
        ensures
            p@ == Seq::<ChunkView>::empty(),
    {
        let p = Png { chunks: Vec::new() };
        proof {
            assert(p@ =~= Seq::<ChunkView>::empty());
        }
        p
    }

    /// Parses a container: the signature, then chunks until the buffer is
    /// exhausted. A buffer that does not begin with the signature is
    /// rejected as `BadSignature`; one whose tail is not a well-formed chunk
    /// stream is rejected as `Truncated`. Chunk checksums are taken
    /// verbatim, not re-verified.
    pub fn parse(bytes: &Vec<u8>) -> (r: Result<Png, PngError>)
        ensures
            r is Ok <==> parse_ok(bytes@),
            !sig_ok(bytes@) ==> r == Err::<Png, PngError>(PngError::BadSignature),
            sig_ok(bytes@) && !wf_chunk_stream(bytes@.skip(8)) ==> r == Err::<Png, PngError>(
                PngError::Truncated,
            ),
            r matches Ok(p) ==> p@ == spec_parse_chunks(bytes@.skip(8)),
    {
        let n = bytes.len();
        if n < 8 {
            return Err(PngError::BadSignature);
        }
        proof {
            assert(bytes@.subrange(0, 8)[0] == bytes@[0]);
            assert(bytes@.subrange(0, 8)[1] == bytes@[1]);
            assert(bytes@.subrange(0, 8)[2] == bytes@[2]);
            assert(bytes@.subrange(0, 8)[3] == bytes@[3]);
            assert(bytes@.subrange(0, 8)[4] == bytes@[4]);
            assert(bytes@.subrange(0, 8)[5] == bytes@[5]);
            assert(bytes@.subrange(0, 8)[6] == bytes@[6]);
            assert(bytes@.subrange(0, 8)[7] == bytes@[7]);
        }
        if !(bytes[0] == 137 && bytes[1] == 80 && bytes[2] == 78 && bytes[3] == 71 && bytes[4]
            == 13 && bytes[5] == 10 && bytes[6] == 26 && bytes[7] == 10) {
            return Err(PngError::BadSignature);
        }
        proof {
            assert(bytes@.subrange(0, 8) =~= spec_signature());
        }
        let mut chunks: Vec<Chunk> = Vec::new();
        let mut offset: usize = 8;
        while offset < n
            invariant
                8 <= offset <= n,
                n == bytes@.len(),
                sig_ok(bytes@),
                wf_chunk_stream(bytes@.skip(8)) == wf_chunk_stream(bytes@.skip(offset as int)),
                spec_parse_chunks(bytes@.skip(8)) == chunk_views(chunks@) + spec_parse_chunks(
                    bytes@.skip(offset as int),
                ),
            decreases n - offset,
        {
            let ghost s_off = bytes@.skip(offset as int);
            let ghost prev_chunks = chunks@;
            match Chunk::parse_at(bytes, offset) {
                Ok((c, next)) => {
                    proof {
                        assert(s_off.len() == n - offset >= 1);
                        assert(bytes@.skip(next as int) =~= s_off.skip(chunk_size_at(s_off)));
                        assert(chunk_views(prev_chunks.push(c)) =~= chunk_views(prev_chunks).push(
                            c@,
                        ));
                        assert(chunk_views(prev_chunks).push(c@) + spec_parse_chunks(
                            bytes@.skip(next as int),
                        ) =~= chunk_views(prev_chunks) + (seq![spec_parse_chunk(s_off)]
                            + spec_parse_chunks(s_off.skip(chunk_size_at(s_off)))));
                    }
                    chunks.push(c);
                    offset = next;
                },
                Err(_) => {
                    proof {
                        assert(s_off.len() == n - offset >= 1);
                        assert(!wf_chunk_stream(s_off));
                    }
                    return Err(PngError::Truncated);
                },
            }
        }
        let p = Png { chunks };
        proof {
            assert(bytes@.skip(offset as int) =~= Seq::<u8>::empty());
            assert(spec_parse_chunks(bytes@.skip(8)) =~= p@);
        }
        Ok(p)
    }

    /// The container's exact serialized form: signature, then each chunk's
    /// bytes in stored order.
    pub fn as_bytes(&self) -> (r: Vec<u8>)
        ensures
            r@ == spec_png_ser(self@),
            forall|i: int| 0 <= i < self@.len() ==> (#[trigger] self@[i]).wf(),
    {
        let mut out: Vec<u8> = Vec::new();
        out.push(137);
        out.push(80);
        out.push(78);
        out.push(71);
        out.push(13);
        out.push(10);
        out.push(26);
        out.push(10);
        proof {
            assert(out@ =~= spec_signature());
            assert(spec_ser_chunks(self@.take(0)) =~= Seq::<u8>::empty());
            assert(out@ + Seq::<u8>::empty() =~= out@);
        }
        let mut i: usize = 0;
        while i < self.chunks.len()
            invariant
                0 <= i <= self.chunks@.len(),
                self@.len() == self.chunks@.len(),
                out@ == spec_signature() + spec_ser_chunks(self@.take(i as int)),
                forall|j: int| 0 <= j < i ==> (#[trigger] self@[j]).wf(),
            decreases self.chunks@.len() - i as int,
        {
            let mut chunk_bytes = self.chunks[i].as_bytes();
            proof {
                assert(self@[i as int] == self.chunks@[i as int]@);
            }
            out.append(&mut chunk_bytes);
            proof {
                lemma_ser_chunks_snoc(self@.take(i as int), self@[i as int]);
                assert(self@.take(i as int + 1) =~= self@.take(i as int).push(self@[i as int]));
                assert(out@ =~= spec_signature() + spec_ser_chunks(self@.take(i as int + 1)));
            }
            i = i + 1;
        }
        proof {
            assert(self@.take(self@.len() as int) =~= self@);
        }
        out
    }

    /// How many chunks the container holds.
    pub fn chunk_count(&self) -> (r: usize)
        ensures
            r == self@.len(),
    {
        self.chunks.len()
    }

    /// The chunk at the given position, in stored order.
    pub fn chunk_at(&self, i: usize) -> (r: &Chunk)
        requires
            i < self@.len(),
        ensures
            r@ == self@[i as int],
    {
        &self.chunks[i]
    }

    /// Appends a chunk at the end of the sequence. Duplicate types may
    /// coexist; nothing is validated.
    pub fn append_chunk(&mut self, chunk: Chunk)
        ensures
            final(self)@ == old(self)@.push(chunk@),
    {
        let ghost prev = self.chunks@;
        self.chunks.push(chunk);
        proof {
            assert(chunk_views(prev.push(chunk)) =~= chunk_views(prev).push(chunk@));
        }
    }

    /// The first chunk, in stored order, whose type text equals `type_text`,
    /// if any.
    pub fn chunk_by_type(&self, type_text: &str) -> (r: Option<&Chunk>)
        ensures
            r is Some <==> has_match(self@, type_text@),
            r matches Some(c) ==> exists|i: int|
                is_first_match(self@, type_text@, i) && c@ == self@[i],
    {
        let n = self.chunks.len();
        let mut i: usize = 0;
        while i < n
            invariant
                0 <= i <= n,
                n == self@.len(),
                self@.len() == self.chunks@.len(),
                forall|j: int| 0 <= j < i ==> !type_text_matches(self@[j], type_text@),
            decreases n - i,
        {
            proof {
                assert(self@[i as int] == self.chunks@[i as int]@);
            }
            if self.chunks[i].chunk_type().matches_text(type_text) {
                proof {
                    assert(is_first_match(self@, type_text@, i as int));
                }
                return Some(&self.chunks[i]);
            }
            i = i + 1;
        }
        proof {
            assert(!has_match(self@, type_text@));
        }
        None
    }

    /// Removes and returns the first chunk whose type text equals
    /// `type_text`; the remaining chunks keep their relative order. When no
    /// chunk matches, the container is left unchanged and `ChunkNotFound`
    /// is reported.
    pub fn remove_chunk(&mut self, type_text: &str) -> (r: Result<Chunk, PngError>)
        ensures
            r is Ok <==> has_match(old(self)@, type_text@),
            r is Err ==> r == Err::<Chunk, PngError>(PngError::ChunkNotFound) && final(self)@
                == old(self)@,
            r matches Ok(c) ==> exists|i: int|
                is_first_match(old(self)@, type_text@, i) && c@ == old(self)@[i] && final(self)@
                    == old(self)@.remove(i),
    {
        let n = self.chunks.len();
        let mut i: usize = 0;
        while i < n
            invariant
                0 <= i <= n,
                n == self@.len(),
                self@.len() == self.chunks@.len(),
                self.chunks@ == old(self).chunks@,
                forall|j: int| 0 <= j < i ==> !type_text_matches(self@[j], type_text@),
            decreases n - i,
        {
            proof {
                assert(self@[i as int] == self.chunks@[i as int]@);
            }
            if self.chunks[i].chunk_type().matches_text(type_text) {
                let ghost prev = self.chunks@;
                let c = self.chunks.remove(i);
                proof {
                    assert(is_first_match(old(self)@, type_text@, i as int));
                    assert(chunk_views(prev.remove(i as int)) =~= chunk_views(prev).remove(
                        i as int,
                    ));
                }
                return Ok(c);
            }
            i = i + 1;
        }
        proof {
            assert(!has_match(self@, type_text@));
        }
        Err(PngError::ChunkNotFound)
    }
}

/// Serializing one more chunk appends its bytes at the end.
pub proof fn lemma_ser_chunks_snoc(cs: Seq<ChunkView>, c: ChunkView)
    ensures
        spec_ser_chunks(cs.push(c)) == spec_ser_chunks(cs) + c.ser(),
    decreases cs.len(),
{
    if cs.len() == 0 {
        assert(cs.push(c)[0] == c);
        assert(cs.push(c).skip(1) =~= Seq::<ChunkView>::empty());
        assert(c.ser() + spec_ser_chunks(Seq::<ChunkView>::empty()) =~= c.ser());
        assert(spec_ser_chunks(cs) + c.ser() =~= c.ser());
    } else {
        lemma_ser_chunks_snoc(cs.skip(1), c);
        assert(cs.push(c)[0] == cs[0]);
        assert(cs.push(c).skip(1) =~= cs.skip(1).push(c));
        assert(cs[0].ser() + (spec_ser_chunks(cs.skip(1)) + c.ser()) =~= (cs[0].ser()
            + spec_ser_chunks(cs.skip(1))) + c.ser());
    }
}

/// Parsing the concatenated serialized forms of well-formed chunks yields
/// exactly those chunks, in order.
pub proof fn lemma_chunk_stream_round_trip(cs: Seq<ChunkView>)
    requires
        forall|i: int| 0 <= i < cs.len() ==> cs[i].wf(),
    ensures
        wf_chunk_stream(spec_ser_chunks(cs)),
        spec_parse_chunks(spec_ser_chunks(cs)) == cs,
    decreases cs.len(),
{
    if cs.len() == 0 {
        assert(spec_parse_chunks(spec_ser_chunks(cs)) =~= cs);
    } else {
        let c = cs[0];
        let rest = cs.skip(1);
        lemma_chunk_round_trip(c);
        lemma_chunk_stream_round_trip(rest);
        let s = spec_ser_chunks(cs);
        let m = c.ser().len() as int;
        assert(s =~= c.ser() + spec_ser_chunks(rest));
        assert(s.subrange(0, 4) =~= c.ser().subrange(0, 4));
        assert(chunk_size_at(s) == m);
        let n = spec_u32_from_be_bytes(s.subrange(0, 4)) as int;
        assert(n == c.payload.len());
        assert(s.subrange(4, 8) =~= c.ser().subrange(4, 8));
        assert(s.subrange(8, 8 + n) =~= c.ser().subrange(8, 8 + n));
        assert(s.subrange(8 + n, 12 + n) =~= c.ser().subrange(8 + n, 12 + n));
        assert(spec_parse_chunk(s) =~= spec_parse_chunk(c.ser()));
        assert(s.skip(m) =~= spec_ser_chunks(rest));
        assert(wf_chunk_stream(s));
        assert(spec_parse_chunks(s) =~= seq![c] + spec_parse_chunks(spec_ser_chunks(rest)));
        assert(seq![c] + rest =~= cs);
    }
}

/// The container round trip: a serialized container parses, and parsing
/// gives back exactly the chunks that were serialized. Together with the
/// contracts of `Png::parse` and `Png::as_bytes`, re-serializing the parse
/// of a container's bytes reproduces those bytes.
pub proof fn lemma_png_round_trip(cs: Seq<ChunkView>)
    requires
        forall|i: int| 0 <= i < cs.len() ==> cs[i].wf(),
    ensures
        parse_ok(spec_png_ser(cs)),
        spec_parse_chunks(spec_png_ser(cs).skip(8)) == cs,
{
    lemma_chunk_stream_round_trip(cs);
    assert(spec_png_ser(cs).subrange(0, 8) =~= spec_signature());
    assert(spec_png_ser(cs).skip(8) =~= spec_ser_chunks(cs));
}

/// Every chunk a parse yields is well-formed: its tag is four bytes and its
/// payload length fits the length field.
pub proof fn lemma_parse_chunks_wf(s: Seq<u8>)
    ensures
        forall|i: int|
            0 <= i < spec_parse_chunks(s).len() ==> #[trigger] spec_parse_chunks(s)[i].wf(),
    decreases s.len(),
{
    if s.len() >= 12 && chunk_size_at(s) <= s.len() {
        let tail = spec_parse_chunks(s.skip(chunk_size_at(s)));
        lemma_parse_chunks_wf(s.skip(chunk_size_at(s)));
        assert(spec_parse_chunk(s).wf());
        assert forall|i: int| 0 <= i < spec_parse_chunks(s).len() implies #[trigger] spec_parse_chunks(
            s,
        )[i].wf() by {
            if i == 0 {
                assert(spec_parse_chunks(s)[0] == spec_parse_chunk(s));
            } else {
                assert(spec_parse_chunks(s)[i] == tail[i - 1]);
            }
        }
    } else {
        assert(spec_parse_chunks(s).len() == 0);
    }
}

/// After appending a chunk, a lookup by that chunk's type text finds a
/// chunk; when no earlier chunk has the same type text, it finds exactly
/// the appended one.
pub proof fn lemma_append_then_find(cs: Seq<ChunkView>, c: ChunkView)
    ensures
        has_match(cs.push(c), bytes_as_chars(c.type_bytes)),
        (forall|j: int|
            0 <= j < cs.len() ==> !type_text_matches(cs[j], bytes_as_chars(c.type_bytes)))
            ==> is_first_match(cs.push(c), bytes_as_chars(c.type_bytes), cs.len() as int) && cs.push(
            c,
        )[cs.len() as int] == c,
{
    let key = bytes_as_chars(c.type_bytes);
    assert(cs.push(c)[cs.len() as int] == c);
    assert(type_text_matches(cs.push(c)[cs.len() as int], key));
    assert(has_match(cs.push(c), key));
    if forall|j: int| 0 <= j < cs.len() ==> !type_text_matches(cs[j], key) {
        assert forall|j: int| 0 <= j < cs.len() implies !type_text_matches(
            cs.push(c)[j],
            key,
        ) by {
            assert(cs.push(c)[j] == cs[j]);
        }
    }
}

} // verus!
