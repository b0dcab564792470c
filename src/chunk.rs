use vstd::prelude::*;
use vstd::slice::{slice_subrange, slice_to_vec};
use crate::png::PngError;

verus! {

/// The eight bytes that open every PNG stream.
pub open spec fn png_signature() -> Seq<u8> {
    seq![0x89u8, 0x50u8, 0x4eu8, 0x47u8, 0x0du8, 0x0au8, 0x1au8, 0x0au8]
}

/// Type tag of the image header chunk.
pub open spec fn ihdr_tag() -> Seq<u8> {
    seq![73u8, 72u8, 68u8, 82u8]
}

/// Type tag of an image data chunk.
pub open spec fn idat_tag() -> Seq<u8> {
    seq![73u8, 68u8, 65u8, 84u8]
}

/// Type tag of the terminal chunk.
pub open spec fn iend_tag() -> Seq<u8> {
    seq![73u8, 69u8, 78u8, 68u8]
}

/// Type tag of Apple's `CgBI` marker chunk.
pub open spec fn cgbi_tag() -> Seq<u8> {
    seq![67u8, 103u8, 66u8, 73u8]
}

/// The unsigned big-endian integer held by the four bytes of `s` from `i`.
pub open spec fn be32(s: Seq<u8>, i: int) -> int {
    s[i] as int * 16777216 + s[i + 1] as int * 65536 + s[i + 2] as int * 256 + s[i + 3] as int
}

/// The four big-endian bytes of `x`.
pub open spec fn be_bytes(x: u32) -> Seq<u8> {
    seq![
        (x / 16777216) as u8,
        ((x / 65536) % 256) as u8,
        ((x / 256) % 256) as u8,
        (x % 256) as u8,
    ]
}

/// The declared data length of the chunk that starts at `pos`.
pub open spec fn chunk_len(s: Seq<u8>, pos: int) -> int {
    be32(s, pos)
}

/// The position just past the chunk that starts at `pos` (its checksum included).
pub open spec fn chunk_end(s: Seq<u8>, pos: int) -> int {
    pos + 12 + chunk_len(s, pos)
}

/// `s` holds the whole chunk that starts at `pos`: length, tag, data and checksum.
pub open spec fn chunk_complete(s: Seq<u8>, pos: int) -> bool {
    0 <= pos && pos + 8 <= s.len() && chunk_end(s, pos) <= s.len()
}

/// The type tag of the chunk that starts at `pos`.
pub open spec fn chunk_tag(s: Seq<u8>, pos: int) -> Seq<u8> {
    s.subrange(pos + 4, pos + 8)
}

/// The data of the chunk that starts at `pos`.
pub open spec fn chunk_data(s: Seq<u8>, pos: int) -> Seq<u8> {
    s.subrange(pos + 8, pos + 8 + chunk_len(s, pos))
}

/// The stored checksum of the chunk that starts at `pos`.
pub open spec fn chunk_crc(s: Seq<u8>, pos: int) -> int {
    be32(s, pos + 8 + chunk_len(s, pos))
}

/// The standard 32-bit CRC (ISO-HDLC polynomial, as PNG uses it) of `bytes`.
pub uninterp spec fn crc32_of(bytes: Seq<u8>) -> u32;

/// The bytes of a chunk with type tag `tag` and data `data`: length, tag, data, and the
/// checksum of tag and data.
pub open spec fn chunk_bytes(tag: Seq<u8>, data: Seq<u8>) -> Seq<u8> {
    be_bytes(data.len() as u32) + tag + data + be_bytes(crc32_of(tag + data))
}

/// One length-prefixed, type-tagged record of a PNG stream.
pub struct Chunk {
    pub length: u32,
    pub chunk_type: [u8; 4],
    pub data: Vec<u8>,
}

/// Reads the big-endian `u32` stored at `s[i..i + 4]`.
pub fn read_be32(s: &[u8], i: usize) -> (r: u32)
    requires
        i + 4 <= s@.len(),
    ensures
        r as int == be32(s@, i as int),
{
    let b0 = s[i] as u64;
    let b1 = s[i + 1] as u64;
    let b2 = s[i + 2] as u64;
    let b3 = s[i + 3] as u64;
    let v: u64 = b0 * 16777216 + b1 * 65536 + b2 * 256 + b3;
    v as u32
}

/// Reads the chunk that starts at `pos` and returns it with the position just past it.
/// The stored checksum is read over but not verified.
pub fn read_chunk(s: &[u8], pos: usize) -> (r: Result<(Chunk, usize), PngError>)
    requires
        pos <= s@.len(),
    ensures
        match r {
            Ok((c, next)) => {
                &&& chunk_complete(s@, pos as int)
                &&& c.length as int == chunk_len(s@, pos as int)
                &&& c.chunk_type@ == chunk_tag(s@, pos as int)
                &&& c.data@ == chunk_data(s@, pos as int)
                &&& next as int == chunk_end(s@, pos as int)
            },
            Err(e) => !chunk_complete(s@, pos as int) && e is Truncated,
        },
{
    if s.len() - pos < 8 {
        return Err(PngError::Truncated);
    }
    let length = read_be32(s, pos);
    let avail: usize = s.len() - pos - 8;
    if (avail as u64) < (length as u64) + 4 {
        return Err(PngError::Truncated);
    }
    let chunk_type: [u8; 4] = [s[pos + 4], s[pos + 5], s[pos + 6], s[pos + 7]];
    let start: usize = pos + 8;
    let stop: usize = start + length as usize;
    let data = slice_to_vec(slice_subrange(s, start, stop));
    proof {
        assert(chunk_type@ =~= chunk_tag(s@, pos as int));
    }
    Ok((Chunk { length, chunk_type, data }, stop + 4))
}

/// Relies on `crc::Crc::<u32>::checksum` with `crc::CRC_32_ISO_HDLC`: the checksum is a
/// function of the bytes alone.
#[verifier::external_body]
fn crc32(bytes: &[u8]) -> (r: u32)
    ensures
        r == crc32_of(bytes@),
{
    crc::Crc::<u32>::new(&crc::CRC_32_ISO_HDLC).checksum(bytes)
}

/// Appends `bytes` to `out`.
pub fn push_all(out: &mut Vec<u8>, bytes: &[u8])
    ensures
        final(out)@ == old(out)@ + bytes@,
{
    let mut i: usize = 0;
    while i < bytes.len()
        invariant
            i <= bytes@.len(),
            out@ == old(out)@ + bytes@.subrange(0, i as int),
        decreases bytes@.len() - i,
    {
        out.push(bytes[i]);
        i = i + 1;
        proof {
            assert(bytes@.subrange(0, i as int) =~= bytes@.subrange(0, i - 1) + seq![bytes@[i - 1]]);
        }
    }
    proof {
        assert(bytes@.subrange(0, i as int) =~= bytes@);
    }
}

/// Appends the four big-endian bytes of `x` to `out`.
pub fn push_be32(out: &mut Vec<u8>, x: u32)
    ensures
        final(out)@ == old(out)@ + be_bytes(x),
{
    out.push((x / 16777216) as u8);
    out.push(((x / 65536) % 256) as u8);
    out.push(((x / 256) % 256) as u8);
    out.push((x % 256) as u8);
    proof {
        assert(final(out)@ =~= old(out)@ + be_bytes(x));
    }
}

/// Appends a chunk with type `chunk_type` and data `data` to `out`, with its length and
/// checksum computed afresh. Fails, leaving `out` as it was, where the data is too long for
/// a 32-bit length field.
pub fn write_chunk(out: &mut Vec<u8>, chunk_type: &[u8; 4], data: &[u8]) -> (r: Result<(), PngError>)
    ensures
        match r {
            Ok(()) => data@.len() <= u32::MAX && final(out)@ == old(out)@ + chunk_bytes(
                chunk_type@,
                data@,
            ),
            Err(e) => data@.len() > u32::MAX && e is PngEncodingError && final(out)@ == old(out)@,
        },
{
    if data.len() as u64 > 0xffff_ffffu64 {
        return Err(PngError::PngEncodingError(String::from_str("chunk data too long")));
    }
    let length = data.len() as u32;
    let mut checked: Vec<u8> = Vec::new();
    push_all(&mut checked, chunk_type.as_slice());
    push_all(&mut checked, data);
    let crc = crc32(checked.as_slice());
    push_be32(out, length);
    push_all(out, chunk_type.as_slice());
    push_all(out, data);
    push_be32(out, crc);
    proof {
        assert(checked@ =~= chunk_type@ + data@);
        assert(final(out)@ =~= old(out)@ + chunk_bytes(chunk_type@, data@));
    }
    Ok(())
}

} // verus!
