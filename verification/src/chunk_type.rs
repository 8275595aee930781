//! The 4-byte chunk type tag and its bit-level properties.
//!
//! Bit 5 (`0x20`) of each tag byte encodes one property: byte 0
//! critical/ancillary, byte 1 public/private, byte 2 the reserved bit (the
//! sole validity criterion), byte 3 safe-to-copy.

use crate::error::PngError;
use vstd::prelude::*;
use vstd::string::StrSliceExecFns;

verus! {

/// The low byte of a character's code point; text is turned into tag or
/// payload bytes by this deliberately lossy one-byte truncation.
pub open spec fn char_low_byte(c: char) -> u8 {
    ((c as u32) % 256) as u8
}

/// Bytes rendered as text, one single-byte character per byte; no UTF-8
/// decoding takes place.
pub open spec fn bytes_as_chars(s: Seq<u8>) -> Seq<char> {
    s.map_values(|b: u8| b as char)
}

/// Text taken as bytes, one byte per character, each character truncated to
/// the low byte of its code point.
pub open spec fn chars_as_bytes(s: Seq<char>) -> Seq<u8> {
    s.map_values(|c: char| char_low_byte(c))
}

/// Rendering bytes as text and truncating the text back to bytes preserves
/// the bytes; together with the contracts of `ChunkType::from_text` and
/// `ChunkType::to_text`, text of characters whose code points fit in one
/// byte round-trips through a chunk type as well.
pub proof fn lemma_bytes_chars_round_trip(s: Seq<u8>)
    ensures
        chars_as_bytes(bytes_as_chars(s)) == s,
{
    assert forall|i: int| 0 <= i < s.len() implies chars_as_bytes(bytes_as_chars(s))[i]
        == s[i] by {
        assert(char_low_byte(s[i] as char) == s[i]);
    }
    assert(chars_as_bytes(bytes_as_chars(s)) =~= s);
}

/// Truncating characters to bytes and rendering the bytes back as text
/// preserves the characters, provided each character's code point fits in
/// one byte; a character such as the one with code point 256 does not
/// round-trip.
pub proof fn lemma_chars_bytes_round_trip(s: Seq<char>)
    requires
        forall|i: int| 0 <= i < s.len() ==> (s[i] as u32) < 256,
    ensures
        bytes_as_chars(chars_as_bytes(s)) == s,
{
    assert forall|i: int| 0 <= i < s.len() implies bytes_as_chars(chars_as_bytes(s))[i]
        == s[i] by {
        assert((s[i] as u32) < 256);
        assert(char_low_byte(s[i]) == (s[i] as u32) as u8);
        vstd::utf8::char_u32_cast(s[i], s[i] as u32);
        assert((char_low_byte(s[i]) as char) == s[i]);
    }
    assert(bytes_as_chars(chars_as_bytes(s)) =~= s);
}

/// A 4-byte chunk type tag. Any four bytes are structurally accepted; the
/// tag is a bit pattern, not a string, and only the reserved bit decides
/// validity.
#[derive(Clone, Copy, Debug)]
pub struct ChunkType {
    bytes: [u8; 4],
}

impl View for ChunkType {
    type V = Seq<u8>;

    closed spec fn view(&self) -> Seq<u8> {
        self.bytes@
    }
}

impl PartialEq for ChunkType {
    /// Equality is byte-exact.
    fn eq(&self, other: &ChunkType) -> (r: bool) {
        let r = self.bytes[0] == other.bytes[0] && self.bytes[1] == other.bytes[1] && self.bytes[2]
            == other.bytes[2] && self.bytes[3] == other.bytes[3];
        proof {
            if r {
                assert(self@ =~= other@);
            }
        }
        r
    }
}

impl Eq for ChunkType {

}

impl vstd::std_specs::cmp::PartialEqSpecImpl for ChunkType {
    open spec fn obeys_eq_spec() -> bool {
        true
    }

    open spec fn eq_spec(&self, other: &ChunkType) -> bool {
        self@ == other@
    }
}

impl ChunkType {
    /// Builds a tag from four raw bytes; this always succeeds.
    pub fn from_bytes(bytes: [u8; 4]) -> (t: ChunkType)
        ensures
            t@ == bytes@,
    {
        ChunkType { bytes }
    }

    /// Builds a tag from text. The text must be exactly four characters;
    /// each character contributes the low byte of its code point.
    pub fn from_text(s: &str) -> (r: Result<ChunkType, PngError>)
        ensures
            r is Ok <==> s@.len() == 4,
            r matches Ok(t) ==> t@ == chars_as_bytes(s@),
            r is Err ==> r == Err::<ChunkType, PngError>(PngError::InvalidLength),
    {
        if s.unicode_len() != 4 {
            return Err(PngError::InvalidLength);
        }
        let b0 = char_to_low_byte(s.get_char(0));
        let b1 = char_to_low_byte(s.get_char(1));
        let b2 = char_to_low_byte(s.get_char(2));
        let b3 = char_to_low_byte(s.get_char(3));
        let t = ChunkType { bytes: [b0, b1, b2, b3] };
        proof {
            assert(t@ =~= chars_as_bytes(s@));
        }
        Ok(t)
    }

    /// The four raw bytes of the tag.
    pub fn bytes(&self) -> (r: [u8; 4])
        ensures
            r@ == self@,
    {
        self.bytes
    }

    /// The tag rendered as text, one single-byte character per byte.
    pub fn to_text(&self) -> (r: String)
        ensures
            r@ == bytes_as_chars(self@),
    {
        let mut out = String::new();
        push_char(&mut out, self.bytes[0] as char);
        push_char(&mut out, self.bytes[1] as char);
        push_char(&mut out, self.bytes[2] as char);
        push_char(&mut out, self.bytes[3] as char);
        proof {
            assert(out@ =~= bytes_as_chars(self@));
        }
        out
    }

    /// Whether this tag's text form equals `s`.
    pub fn matches_text(&self, s: &str) -> (r: bool)
        ensures
            r == (bytes_as_chars(self@) == s@),
    {
        if s.unicode_len() != 4 {
            proof {
                assert(bytes_as_chars(self@).len() == 4);
            }
            return false;
        }
        let r = s.get_char(0) == (self.bytes[0] as char) && s.get_char(1) == (self.bytes[1] as char)
            && s.get_char(2) == (self.bytes[2] as char) && s.get_char(3) == (self.bytes[3] as char);
        proof {
            if r {
                assert(bytes_as_chars(self@) =~= s@);
            } else {
                assert(bytes_as_chars(self@) != s@);
            }
        }
        r
    }

    /// Byte 0's bit 5 clear: the chunk is critical; set: ancillary.
    pub fn is_critical(&self) -> (r: bool)
        ensures
            r == (self@[0] & 0x20 == 0),
    {
        self.bytes[0] & 0x20 == 0
    }

    /// Byte 1's bit 5 clear: the chunk type is public; set: private.
    pub fn is_public(&self) -> (r: bool)
        ensures
            r == (self@[1] & 0x20 == 0),
    {
        self.bytes[1] & 0x20 == 0
    }

    /// Byte 2's bit 5 clear: the reserved bit is valid; set: invalid.
    pub fn is_reserved_bit_valid(&self) -> (r: bool)
        ensures
            r == (self@[2] & 0x20 == 0),
    {
        self.bytes[2] & 0x20 == 0
    }

    /// Byte 3's bit 5 set: the chunk is safe to copy; clear: unsafe to copy.
    pub fn is_safe_to_copy(&self) -> (r: bool)
        ensures
            r == (self@[3] & 0x20 == 0x20),
    {
        self.bytes[3] & 0x20 == 0x20
    }

    /// A tag is valid exactly when its reserved bit is valid, that is, when
    /// byte 2's bit 5 is clear.
    pub fn is_valid(&self) -> (r: bool)
        ensures
            r == (self@[2] & 0x20 == 0),
    {
        self.is_reserved_bit_valid()
    }

    /// The negation of `is_valid`.
    pub fn is_err(&self) -> (r: bool)
        ensures
            r == (self@[2] & 0x20 != 0),
    {
        let valid = self.is_reserved_bit_valid();
        !valid
    }
}

/// The low byte of a character's code point.
fn char_to_low_byte(c: char) -> (r: u8)
    ensures
        r == char_low_byte(c),
{
    ((c as u32) % 256) as u8
}

/// Relies on `String::push`: it appends exactly the given character.
#[verifier::external_body]
pub(crate) fn push_char(s: &mut String, c: char)
    ensures
        final(s)@ == old(s)@.push(c),
{
    s.push(c);
}

} // verus!
