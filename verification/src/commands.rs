//! The operations the tool performs on a loaded container: embed a message
//! chunk, decode one, or strip one.
//!
//! File reading and writing stay with the caller; these functions take the
//! file's bytes and hand back the edited container or the decoded text.

use crate::chunk::{Chunk, ChunkView};
use crate::chunk_type::{bytes_as_chars, chars_as_bytes, ChunkType};
use crate::crc32::crc32_of;
use crate::error::PngError;
use crate::png::{
    has_match, is_first_match, parse_ok, sig_ok, spec_parse_chunks, wf_chunk_stream, Png,
};
use vstd::prelude::*;
use vstd::string::{StrSliceExecFns, StringSliceAdditionalSpecFns};

verus! {

/// The chunk view that embedding `message` under the tag text `c_type`
/// appends: the tag is the text truncated to bytes, the payload is the
/// message's UTF-8 bytes, and the checksum covers both.
pub open spec fn spec_message_chunk(c_type: Seq<char>, payload: Seq<u8>) -> ChunkView {
    ChunkView {
        type_bytes: chars_as_bytes(c_type),
        payload: payload,
        checksum: crc32_of(chars_as_bytes(c_type) + payload),
    }
}

/// Parses the container in `bytes` and appends a fresh chunk carrying
/// `message` under the 4-character tag text `c_type`, returning the edited
/// container for the caller to serialize.
pub fn encode_message(bytes: &Vec<u8>, c_type: &str, message: &str) -> (r: Result<Png, PngError>)
    requires
        message.spec_bytes().len() <= u32::MAX,
    ensures
        r is Ok <==> parse_ok(bytes@) && c_type@.len() == 4,
        !sig_ok(bytes@) ==> r == Err::<Png, PngError>(PngError::BadSignature),
        sig_ok(bytes@) && !wf_chunk_stream(bytes@.skip(8)) ==> r == Err::<Png, PngError>(
            PngError::Truncated,
        ),
        parse_ok(bytes@) && c_type@.len() != 4 ==> r == Err::<Png, PngError>(
            PngError::InvalidLength,
        ),
        r matches Ok(p) ==> p@ == spec_parse_chunks(bytes@.skip(8)).push(
            spec_message_chunk(c_type@, message.spec_bytes()),
        ),
{
    let mut png = match Png::parse(bytes) {
        Ok(p) => p,
        Err(e) => { return Err(e) },
    };
    let chunk_type = match ChunkType::from_text(c_type) {
        Ok(t) => t,
        Err(e) => { return Err(e) },
    };
    let payload = message.as_bytes_vec();
    let chunk = Chunk::new(chunk_type, payload);
    png.append_chunk(chunk);
    Ok(png)
}

/// Parses the container in `bytes` and renders the payload of the first
/// chunk whose type text equals `c_type` as text.
pub fn decode_message(bytes: &Vec<u8>, c_type: &str) -> (r: Result<String, PngError>)
    ensures
        r is Ok <==> parse_ok(bytes@) && exists|i: int|
            is_first_match(spec_parse_chunks(bytes@.skip(8)), c_type@, i) && spec_parse_chunks(
                bytes@.skip(8),
            )[i].payload.len() > 0,
        !sig_ok(bytes@) ==> r == Err::<String, PngError>(PngError::BadSignature),
        sig_ok(bytes@) && !wf_chunk_stream(bytes@.skip(8)) ==> r == Err::<String, PngError>(
            PngError::Truncated,
        ),
        parse_ok(bytes@) && !has_match(spec_parse_chunks(bytes@.skip(8)), c_type@) ==> r == Err::<
            String,
            PngError,
        >(PngError::ChunkNotFound),
        parse_ok(bytes@) ==> forall|i: int|
            #[trigger] is_first_match(spec_parse_chunks(bytes@.skip(8)), c_type@, i) ==> {
                let payload = spec_parse_chunks(bytes@.skip(8))[i].payload;
                &&& (payload.len() == 0 ==> r == Err::<String, PngError>(PngError::EmptyPayload))
                &&& (payload.len() > 0 ==> (r matches Ok(s) && s@ == bytes_as_chars(payload)))
            },
{
    let png = match Png::parse(bytes) {
        Ok(p) => p,
        Err(e) => { return Err(e) },
    };
    match png.chunk_by_type(c_type) {
        Some(chunk) => chunk.data_as_string(),
        None => Err(PngError::ChunkNotFound),
    }
}

/// Parses the container in `bytes` and removes the first chunk whose type
/// text equals `c_type`, returning the edited container for the caller to
/// serialize together with the removed chunk.
pub fn remove_chunk(bytes: &Vec<u8>, c_type: &str) -> (r: Result<(Png, Chunk), PngError>)
    ensures
        r is Ok <==> parse_ok(bytes@) && has_match(spec_parse_chunks(bytes@.skip(8)), c_type@),
        !sig_ok(bytes@) ==> r == Err::<(Png, Chunk), PngError>(PngError::BadSignature),
        sig_ok(bytes@) && !wf_chunk_stream(bytes@.skip(8)) ==> r == Err::<(Png, Chunk), PngError>(
            PngError::Truncated,
        ),
        parse_ok(bytes@) && !has_match(spec_parse_chunks(bytes@.skip(8)), c_type@) ==> r == Err::<
            (Png, Chunk),
            PngError,
        >(PngError::ChunkNotFound),
        r matches Ok(p) ==> exists|i: int|
            {
                &&& is_first_match(spec_parse_chunks(bytes@.skip(8)), c_type@, i)
                &&& p.1@ == spec_parse_chunks(bytes@.skip(8))[i]
                &&& p.0@ == spec_parse_chunks(bytes@.skip(8)).remove(i)
            },
{
    let mut png = match Png::parse(bytes) {
        Ok(p) => p,
        Err(e) => { return Err(e) },
    };
    match png.remove_chunk(c_type) {
        Ok(chunk) => Ok((png, chunk)),
        Err(e) => Err(e),
    }
}

} // verus!
