use vstd::prelude::*;
use crate::chunk::{
    be32, be_bytes, cgbi_tag, chunk_bytes, chunk_complete, chunk_crc, chunk_data, chunk_end,
    chunk_len, chunk_tag, crc32_of, idat_tag, iend_tag, ihdr_tag, png_signature,
};
use crate::png::{
    absorb, has_signature, ihdr_data, inflated, is_repair_of, parse_spec, png_bytes, scan,
    scan_start, zlib_compressed, PngError, Scan,
};

verus! {

/// Reading back the four big-endian bytes of `x` gives `x`.
pub proof fn lemma_be32_of_bytes(x: u32, s: Seq<u8>, i: int)
    requires
        0 <= i,
        i + 4 <= s.len(),
        s.subrange(i, i + 4) == be_bytes(x),
    ensures
        be32(s, i) == x,
{
    assert(s[i] == be_bytes(x)[0]);
    assert(s[i + 1] == be_bytes(x)[1]);
    assert(s[i + 2] == be_bytes(x)[2]);
    assert(s[i + 3] == be_bytes(x)[3]);
    assert((x / 16777216) * 16777216 + ((x / 65536) % 256) * 65536 + ((x / 256) % 256) * 256 + x
        % 256 == x) by (bit_vector);
    assert(x / 16777216 < 256) by (bit_vector);
}

/// Where the bytes of `s` from `pos` are `chunk_bytes(tag, data)`, the chunk reader finds
/// that chunk there.
pub proof fn lemma_chunk_at(s: Seq<u8>, pos: int, tag: Seq<u8>, data: Seq<u8>)
    requires
        0 <= pos,
        tag.len() == 4,
        data.len() <= u32::MAX,
        pos + 12 + data.len() <= s.len(),
        s.subrange(pos, pos + 12 + data.len()) == chunk_bytes(tag, data),
    ensures
        chunk_complete(s, pos),
        chunk_len(s, pos) == data.len(),
        chunk_end(s, pos) == pos + 12 + data.len(),
        chunk_tag(s, pos) == tag,
        chunk_data(s, pos) == data,
        chunk_crc(s, pos) == crc32_of(tag + data),
{
    let n = data.len() as int;
    let c = chunk_bytes(tag, data);
    assert(s.subrange(pos, pos + 4) =~= c.subrange(0, 4));
    assert(c.subrange(0, 4) =~= be_bytes(data.len() as u32));
    lemma_be32_of_bytes(data.len() as u32, s, pos);
    assert(chunk_tag(s, pos) =~= c.subrange(4, 8));
    assert(c.subrange(4, 8) =~= tag);
    assert(chunk_data(s, pos) =~= c.subrange(8, 8 + n));
    assert(c.subrange(8, 8 + n) =~= data);
    assert(s.subrange(pos + 8 + n, pos + 12 + n) =~= c.subrange(8 + n, 12 + n));
    assert(c.subrange(8 + n, 12 + n) =~= be_bytes(crc32_of(tag + data)));
    lemma_be32_of_bytes(crc32_of(tag + data), s, pos + 8 + n);
}

proof fn lemma_tags_distinct()
    ensures
        ihdr_tag() != iend_tag(),
        ihdr_tag() != idat_tag(),
        ihdr_tag() != cgbi_tag(),
        idat_tag() != iend_tag(),
        idat_tag() != cgbi_tag(),
        cgbi_tag() != iend_tag(),
{
    assert(ihdr_tag()[1] != iend_tag()[1]);
    assert(ihdr_tag()[1] != idat_tag()[1]);
    assert(ihdr_tag()[0] != cgbi_tag()[0]);
    assert(idat_tag()[1] != iend_tag()[1]);
    assert(idat_tag()[0] != cgbi_tag()[0]);
    assert(cgbi_tag()[0] != iend_tag()[0]);
}

/// The header data written for `width` x `height` reads back as that geometry.
pub proof fn lemma_ihdr_geometry(width: u32, height: u32)
    ensures
        ihdr_data(width, height).len() == 13,
        be32(ihdr_data(width, height), 0) == width,
        be32(ihdr_data(width, height), 4) == height,
{
    let d = ihdr_data(width, height);
    assert(d.subrange(0, 4) =~= be_bytes(width));
    assert(d.subrange(4, 8) =~= be_bytes(height));
    lemma_be32_of_bytes(width, d, 0);
    lemma_be32_of_bytes(height, d, 4);
}

/// Every chunk from `pos` to the end of `s` is complete and stores the checksum of its
/// type tag and data.
pub open spec fn checksums_hold(s: Seq<u8>, pos: int) -> bool
    decreases s.len() - pos,
{
    if pos < 0 || pos >= s.len() {
        true
    } else {
        &&& chunk_complete(s, pos)
        &&& chunk_crc(s, pos) == crc32_of(chunk_tag(s, pos) + chunk_data(s, pos))
        &&& checksums_hold(s, chunk_end(s, pos))
    }
}

/// The standard stream that the builder writes: signature, then header, image data and
/// terminal chunks, each found by the chunk reader with a correct checksum.
pub proof fn lemma_png_bytes_layout(width: u32, height: u32, idat: Seq<u8>)
    requires
        idat.len() <= u32::MAX,
    ensures
        ({
            let out = png_bytes(width, height, idat);
            let n = idat.len() as int;
            &&& out.len() == 57 + n
            &&& out.subrange(0, 8) == png_signature()
            &&& chunk_complete(out, 8) && chunk_end(out, 8) == 33
            &&& chunk_tag(out, 8) == ihdr_tag() && chunk_data(out, 8) == ihdr_data(width, height)
            &&& chunk_complete(out, 33) && chunk_end(out, 33) == 45 + n
            &&& chunk_tag(out, 33) == idat_tag() && chunk_data(out, 33) == idat
            &&& chunk_complete(out, 45 + n) && chunk_end(out, 45 + n) == out.len()
            &&& chunk_tag(out, 45 + n) == iend_tag() && chunk_len(out, 45 + n) == 0
            &&& checksums_hold(out, 8)
        }),
{
    let out = png_bytes(width, height, idat);
    let n = idat.len() as int;
    let hd = ihdr_data(width, height);
    lemma_ihdr_geometry(width, height);
    let a = chunk_bytes(ihdr_tag(), hd);
    let b = chunk_bytes(idat_tag(), idat);
    let c = chunk_bytes(iend_tag(), Seq::empty());
    assert(out.subrange(0, 8) =~= png_signature());
    assert(out.subrange(8, 33) =~= a);
    assert(out.subrange(33, 45 + n) =~= b);
    assert(out.subrange(45 + n, 57 + n) =~= c);
    lemma_chunk_at(out, 8, ihdr_tag(), hd);
    lemma_chunk_at(out, 33, idat_tag(), idat);
    lemma_chunk_at(out, 45 + n, iend_tag(), Seq::empty());
    assert(checksums_hold(out, 57 + n));
    assert(checksums_hold(out, 45 + n));
    assert(checksums_hold(out, 33));
}

/// Reading the chunks of a built stream gives back its geometry and its one payload, with
/// no `CgBI` marker.
pub proof fn lemma_png_bytes_scan(width: u32, height: u32, idat: Seq<u8>)
    requires
        idat.len() <= u32::MAX,
    ensures
        scan(png_bytes(width, height, idat), 8, scan_start()) == Ok::<Scan, PngError>(
            Scan { width, height, cgbi: false, payload: idat },
        ),
{
    let out = png_bytes(width, height, idat);
    let n = idat.len() as int;
    lemma_png_bytes_layout(width, height, idat);
    lemma_ihdr_geometry(width, height);
    lemma_tags_distinct();
    let s1 = absorb(scan_start(), ihdr_tag(), ihdr_data(width, height));
    assert(s1 == Scan { width, height, cgbi: false, payload: Seq::<u8>::empty() });
    let s2 = absorb(s1, idat_tag(), idat);
    assert(s2.payload =~= idat);
    assert(scan(out, 45 + n, s2) == Ok::<Scan, PngError>(s2));
    assert(scan(out, 33, s1) == scan(out, 45 + n, s2));
    assert(scan(out, 8, scan_start()) == scan(out, 33, s1));
}

/// A `CgBI` stream as iOS writes it: signature, header, marker, one image data chunk
/// holding `idat`, and the terminal chunk.
pub open spec fn cgbi_stream(width: u32, height: u32, idat: Seq<u8>) -> Seq<u8> {
    png_signature() + chunk_bytes(ihdr_tag(), ihdr_data(width, height)) + chunk_bytes(
        cgbi_tag(),
        Seq::empty(),
    ) + chunk_bytes(idat_tag(), idat) + chunk_bytes(iend_tag(), Seq::empty())
}

/// A `CgBI` stream parses to its geometry and its image data, with the marker seen.
pub proof fn lemma_cgbi_stream_parses(width: u32, height: u32, idat: Seq<u8>)
    requires
        idat.len() <= u32::MAX,
    ensures
        parse_spec(cgbi_stream(width, height, idat)) == Ok::<Scan, PngError>(
            Scan { width, height, cgbi: true, payload: idat },
        ),
{
    let s = cgbi_stream(width, height, idat);
    let n = idat.len() as int;
    let hd = ihdr_data(width, height);
    lemma_ihdr_geometry(width, height);
    lemma_tags_distinct();
    assert(s.subrange(0, 8) =~= png_signature());
    assert(s.subrange(8, 33) =~= chunk_bytes(ihdr_tag(), hd));
    assert(s.subrange(33, 45) =~= chunk_bytes(cgbi_tag(), Seq::empty()));
    assert(s.subrange(45, 57 + n) =~= chunk_bytes(idat_tag(), idat));
    assert(s.subrange(57 + n, 69 + n) =~= chunk_bytes(iend_tag(), Seq::empty()));
    lemma_chunk_at(s, 8, ihdr_tag(), hd);
    lemma_chunk_at(s, 33, cgbi_tag(), Seq::empty());
    lemma_chunk_at(s, 45, idat_tag(), idat);
    lemma_chunk_at(s, 57 + n, iend_tag(), Seq::empty());
    let s1 = absorb(scan_start(), ihdr_tag(), hd);
    let s2 = absorb(s1, cgbi_tag(), Seq::empty());
    let s3 = absorb(s2, idat_tag(), idat);
    assert(s3 == Scan { width, height, cgbi: true, payload: idat }) by {
        assert(s3.payload =~= idat);
    }
    assert(scan(s, 57 + n, s3) == Ok::<Scan, PngError>(s3));
    assert(scan(s, 45, s2) == scan(s, 57 + n, s3));
    assert(scan(s, 33, s1) == scan(s, 45, s2));
    assert(scan(s, 8, scan_start()) == scan(s, 33, s1));
}

/// A repaired stream opens with the PNG signature and ends with an empty terminal chunk.
pub proof fn lemma_repair_frame(s: Seq<u8>, out: Seq<u8>)
    requires
        is_repair_of(out, s),
    ensures
        out.len() >= 20,
        out.subrange(0, 8) == png_signature(),
        chunk_complete(out, out.len() - 12),
        chunk_end(out, out.len() - 12) == out.len(),
        chunk_tag(out, out.len() - 12) == iend_tag(),
        chunk_len(out, out.len() - 12) == 0,
{
    let st = parse_spec(s)->Ok_0;
    let px = inflated(st.payload)->Some_0;
    lemma_png_bytes_layout(st.width, st.height, zlib_compressed(px));
}

/// A stream with the signature and complete chunks but no `CgBI` marker is refused with
/// `NotCgBI`, and nothing is a repair of it.
pub proof fn lemma_missing_marker(s: Seq<u8>)
    requires
        has_signature(s),
        scan(s, 8, scan_start()) matches Ok(st) && !st.cgbi,
    ensures
        parse_spec(s) == Err::<Scan, PngError>(PngError::NotCgBI),
        forall|out: Seq<u8>| !is_repair_of(out, s),
{
}

/// A stream without the PNG signature is refused with `NotPng`, whatever follows, and
/// nothing is a repair of it.
pub proof fn lemma_bad_signature(s: Seq<u8>)
    requires
        !has_signature(s),
    ensures
        parse_spec(s) == Err::<Scan, PngError>(PngError::NotPng),
        forall|out: Seq<u8>| !is_repair_of(out, s),
{
}

/// Repairing a `CgBI` stream of geometry `width` x `height` whose image data decodes to
/// `pixels`: the result's header chunk holds that geometry as 8-bit RGBA, and reading the
/// result back gives the geometry and one payload that decodes to `pixels` again.
pub proof fn lemma_round_trip(
    width: u32,
    height: u32,
    idat: Seq<u8>,
    pixels: Seq<u8>,
    out: Seq<u8>,
)
    requires
        idat.len() <= u32::MAX,
        inflated(idat) == Some(pixels),
        is_repair_of(out, cgbi_stream(width, height, idat)),
    ensures
        chunk_tag(out, 8) == ihdr_tag(),
        chunk_data(out, 8) == ihdr_data(width, height),
        scan(out, 8, scan_start()) matches Ok(st) && st.width == width && st.height == height
            && !st.cgbi && inflated(st.payload) == Some(pixels),
{
    lemma_cgbi_stream_parses(width, height, idat);
    let c = zlib_compressed(pixels);
    lemma_png_bytes_layout(width, height, c);
    lemma_png_bytes_scan(width, height, c);
}

/// Every chunk of a repaired stream stores the checksum of its type tag and data.
pub proof fn lemma_repair_checksums(s: Seq<u8>, out: Seq<u8>)
    requires
        is_repair_of(out, s),
    ensures
        checksums_hold(out, 8),
{
    let st = parse_spec(s)->Ok_0;
    let px = inflated(st.payload)->Some_0;
    lemma_png_bytes_layout(st.width, st.height, zlib_compressed(px));
}

/// From `pos`, the chunk reader passes only complete, non-terminal chunks that it accepts
/// until it stands at position `p`.
pub open spec fn walks_to(s: Seq<u8>, pos: int, p: int) -> bool
    decreases s.len() - pos,
{
    if pos == p {
        true
    } else if pos > p || pos < 0 || pos >= s.len() || !chunk_complete(s, pos) {
        false
    } else if chunk_tag(s, pos) == iend_tag() || (chunk_tag(s, pos) == ihdr_tag() && chunk_len(
        s,
        pos,
    ) < 8) {
        false
    } else {
        walks_to(s, chunk_end(s, pos), p)
    }
}

proof fn lemma_scan_cut(s: Seq<u8>, pos: int, p: int, st: Scan)
    requires
        0 <= pos,
        walks_to(s, pos, p),
        p + 8 <= s.len(),
        chunk_len(s, p) >= 1,
        p + 8 + chunk_len(s, p) <= s.len(),
    ensures
        scan(s.subrange(0, p + 7 + chunk_len(s, p)), pos, st) == Err::<Scan, PngError>(
            PngError::Truncated,
        ),
    decreases s.len() - pos,
{
    let cut = p + 7 + chunk_len(s, p);
    let t = s.subrange(0, cut);
    assert(be32(t, pos) == be32(s, pos));
    if pos < p {
        let e = chunk_end(s, pos);
        assert(walks_to(s, e, p));
        assert(e <= p);
        assert(chunk_tag(t, pos) =~= chunk_tag(s, pos));
        assert(chunk_data(t, pos) =~= chunk_data(s, pos));
        lemma_scan_cut(s, e, p, absorb(st, chunk_tag(s, pos), chunk_data(s, pos)));
    }
}

/// Cutting a stream one byte short of the end of the data of a chunk that the reader
/// reaches makes it fail with `Truncated`.
pub proof fn lemma_truncated_chunk(s: Seq<u8>, p: int)
    requires
        has_signature(s),
        walks_to(s, 8, p),
        p + 8 <= s.len(),
        chunk_len(s, p) >= 1,
        p + 8 + chunk_len(s, p) <= s.len(),
    ensures
        parse_spec(s.subrange(0, p + 7 + chunk_len(s, p))) == Err::<Scan, PngError>(
            PngError::Truncated,
        ),
{
    let t = s.subrange(0, p + 7 + chunk_len(s, p));
    lemma_scan_cut(s, 8, p, scan_start());
    assert(t.subrange(0, 8) =~= s.subrange(0, 8));
}

} // verus!
