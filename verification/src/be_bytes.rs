//! Big-endian encoding of 32-bit words, as the container's length and
//! checksum fields use it.

use vstd::prelude::*;

verus! {

/// The four big-endian bytes of a 32-bit word, most significant first.
pub open spec fn spec_u32_to_be_bytes(x: u32) -> Seq<u8> {
    seq![
        ((x >> 24) & 0xff) as u8,
        ((x >> 16) & 0xff) as u8,
        ((x >> 8) & 0xff) as u8,
        (x & 0xff) as u8,
    ]
}

/// The 32-bit word whose big-endian bytes are the first four of `s`.
pub open spec fn spec_u32_from_be_bytes(s: Seq<u8>) -> u32
    recommends
        s.len() >= 4,
{
    ((s[0] as u32) << 24) | ((s[1] as u32) << 16) | ((s[2] as u32) << 8) | (s[3] as u32)
}

/// Decoding the big-endian bytes of a word gives the word back.
pub proof fn lemma_u32_be_bytes_round_trip(x: u32)
    ensures
        spec_u32_from_be_bytes(spec_u32_to_be_bytes(x)) == x,
{
    let b0 = ((x >> 24) & 0xff) as u8;
    let b1 = ((x >> 16) & 0xff) as u8;
    let b2 = ((x >> 8) & 0xff) as u8;
    let b3 = (x & 0xff) as u8;
    assert(((b0 as u32) << 24) | ((b1 as u32) << 16) | ((b2 as u32) << 8) | (b3 as u32) == x)
        by (bit_vector)
        requires
            b0 == ((x >> 24) & 0xff) as u8,
            b1 == ((x >> 16) & 0xff) as u8,
            b2 == ((x >> 8) & 0xff) as u8,
            b3 == (x & 0xff) as u8,
    ;
}

/// Appends the four big-endian bytes of `x` to `out`.
pub fn push_u32_be_bytes(out: &mut Vec<u8>, x: u32)
    ensures
        final(out)@ == old(out)@ + spec_u32_to_be_bytes(x),
{
    proof {
        assert((x >> 24) & 0xff < 256 && (x >> 16) & 0xff < 256 && (x >> 8) & 0xff < 256 && x
            & 0xff < 256) by (bit_vector);
    }
    out.push(((x >> 24) & 0xff) as u8);
    out.push(((x >> 16) & 0xff) as u8);
    out.push(((x >> 8) & 0xff) as u8);
    out.push((x & 0xff) as u8);
    proof {
        assert(out@ =~= old(out)@ + spec_u32_to_be_bytes(x));
    }
}

/// Reads the big-endian word stored at `bytes[start .. start + 4]`.
pub fn read_u32_be_bytes(bytes: &Vec<u8>, start: usize) -> (r: u32)
    requires
        start + 4 <= bytes@.len(),
    ensures
        r == spec_u32_from_be_bytes(bytes@.subrange(start as int, start as int + 4)),
{
    let _len = bytes.len();
    let r = ((bytes[start] as u32) << 24) | ((bytes[start + 1] as u32) << 16) | ((bytes[start + 2]
        as u32) << 8) | (bytes[start + 3] as u32);
    proof {
        let s = bytes@.subrange(start as int, start as int + 4);
        assert(s[0] == bytes@[start as int]);
        assert(s[1] == bytes@[start as int + 1]);
        assert(s[2] == bytes@[start as int + 2]);
        assert(s[3] == bytes@[start as int + 3]);
    }
    r
}

} // verus!
