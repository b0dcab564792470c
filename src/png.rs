use vstd::prelude::*;
use crate::chunk::{
    be32, be_bytes, cgbi_tag, chunk_bytes, chunk_complete, chunk_data, chunk_end, chunk_len,
    chunk_tag, idat_tag, iend_tag, ihdr_tag, png_signature, push_all, push_be32, read_be32,
    read_chunk, write_chunk,
};

verus! {

/// Why a PNG stream could not be repaired.
#[derive(Debug)]
pub enum PngError {
    /// The stream does not open with the PNG signature.
    NotPng,
    /// The stream is a PNG stream but holds no `CgBI` chunk.
    NotCgBI,
    /// A chunk is cut short, or its length field or header data is out of range.
    Truncated,
    /// The zlib decoder refused the concatenated `IDAT` payload. The decoder stops where its
    /// input runs out of output, so an empty or cut-short payload is not refused.
    PngDecodingError(String),
    /// The pixel data could not be compressed or framed again.
    PngEncodingError(String),
    /// Reading the source or writing the sink failed.
    IoError(String),
}

/// What reading a chunk stream has gathered so far.
pub ghost struct Scan {
    pub width: u32,
    pub height: u32,
    pub cgbi: bool,
    pub payload: Seq<u8>,
}

/// Nothing gathered yet: no geometry, no marker, no payload.
pub open spec fn scan_start() -> Scan {
    Scan { width: 0, height: 0, cgbi: false, payload: Seq::empty() }
}

/// What a non-terminal chunk with type `tag` and data `data` adds to `st`: the header gives
/// the geometry, the marker sets the flag, image data is appended, all else is ignored.
pub open spec fn absorb(st: Scan, tag: Seq<u8>, data: Seq<u8>) -> Scan {
    if tag == ihdr_tag() {
        Scan { width: be32(data, 0) as u32, height: be32(data, 4) as u32, ..st }
    } else if tag == cgbi_tag() {
        Scan { cgbi: true, ..st }
    } else if tag == idat_tag() {
        Scan { payload: st.payload + data, ..st }
    } else {
        st
    }
}

/// Reads the chunks of `s` from `pos` on, until the terminal chunk or the end of `s`.
pub open spec fn scan(s: Seq<u8>, pos: int, st: Scan) -> Result<Scan, PngError>
    decreases s.len() - pos,
{
    if pos < 0 || pos >= s.len() {
        Ok(st)
    } else if !chunk_complete(s, pos) {
        Err(PngError::Truncated)
    } else if chunk_tag(s, pos) == iend_tag() {
        Ok(st)
    } else if chunk_tag(s, pos) == ihdr_tag() && chunk_len(s, pos) < 8 {
        Err(PngError::Truncated)
    } else {
        scan(s, chunk_end(s, pos), absorb(st, chunk_tag(s, pos), chunk_data(s, pos)))
    }
}

/// `s` opens with the PNG signature.
pub open spec fn has_signature(s: Seq<u8>) -> bool {
    s.len() >= 8 && s.subrange(0, 8) == png_signature()
}

/// The geometry and compressed payload of a `CgBI` stream `s`, or why there are none.
pub open spec fn parse_spec(s: Seq<u8>) -> Result<Scan, PngError> {
    if !has_signature(s) {
        Err(PngError::NotPng)
    } else {
        match scan(s, 8, scan_start()) {
            Ok(st) => if st.cgbi {
                Ok(st)
            } else {
                Err(PngError::NotCgBI)
            },
            Err(e) => Err(e),
        }
    }
}

/// What the zlib decoder makes of `data`: the decoded bytes, or `None` where it refuses them.
/// It checks the header and, once it reaches it, the Adler-32 trailer; on an empty or
/// cut-short stream it returns what it decoded so far.
pub uninterp spec fn inflated(data: Seq<u8>) -> Option<Seq<u8>>;

/// Relies on `inflate::inflate_bytes_zlib`: whether it decodes, and what it decodes to,
/// depends on the bytes alone.
#[verifier::external_body]
fn inflate_zlib(data: &[u8]) -> (r: Result<Vec<u8>, String>)
    ensures
        match r {
            Ok(v) => inflated(data@) == Some(v@),
            Err(_) => inflated(data@) is None,
        },
{
    inflate::inflate_bytes_zlib(data)
}

/// `t` is the four-byte tag `a b c d`.
fn tag_is(t: &[u8; 4], tag: Ghost<Seq<u8>>, a: u8, b: u8, c: u8, d: u8) -> (r: bool)
    requires
        tag@ == seq![a, b, c, d],
    ensures
        r == (t@ == tag@),
{
    let r = t[0] == a && t[1] == b && t[2] == c && t[3] == d;
    proof {
        if r {
            assert(t@ =~= tag@);
        } else if t@ == tag@ {
            assert(t@[0] == a && t@[1] == b && t@[2] == c && t@[3] == d);
        }
    }
    r
}

/// Decodes the concatenated `IDAT` payload.
pub fn decompress_idat_chunks(data: &[u8]) -> (r: Result<Vec<u8>, PngError>)
    ensures
        match r {
            Ok(v) => inflated(data@) == Some(v@),
            Err(e) => inflated(data@) is None && e is PngDecodingError,
        },
{
    match inflate_zlib(data) {
        Ok(v) => Ok(v),
        Err(msg) => Err(PngError::PngDecodingError(msg)),
    }
}

/// Reads a `CgBI` stream: checks the signature, walks its chunks, and returns the geometry
/// of its header together with its decoded image data.
pub fn parse_ios_png(s: &[u8]) -> (r: Result<((u32, u32), Vec<u8>), PngError>)
    ensures
        match parse_spec(s@) {
            Ok(st) => match r {
                Ok(((w, h), px)) => w == st.width && h == st.height && inflated(st.payload) == Some(
                    px@,
                ),
                Err(e) => inflated(st.payload) is None && e is PngDecodingError,
            },
            Err(e) => r == Err::<((u32, u32), Vec<u8>), PngError>(e),
        },
{
    if s.len() < 8 || !(s[0] == 0x89 && s[1] == 0x50 && s[2] == 0x4e && s[3] == 0x47 && s[4]
        == 0x0d && s[5] == 0x0a && s[6] == 0x1a && s[7] == 0x0a) {
        proof {
            if s@.len() >= 8 && s@.subrange(0, 8) == png_signature() {
                assert(s@.subrange(0, 8)[0] == 0x89u8);
                assert(s@.subrange(0, 8)[1] == 0x50u8);
                assert(s@.subrange(0, 8)[2] == 0x4eu8);
                assert(s@.subrange(0, 8)[3] == 0x47u8);
                assert(s@.subrange(0, 8)[4] == 0x0du8);
                assert(s@.subrange(0, 8)[5] == 0x0au8);
                assert(s@.subrange(0, 8)[6] == 0x1au8);
                assert(s@.subrange(0, 8)[7] == 0x0au8);
            }
        }
        return Err(PngError::NotPng);
    }
    proof {
        assert(s@.subrange(0, 8) =~= png_signature());
    }
    let mut width: u32 = 0;
    let mut height: u32 = 0;
    let mut is_ios = false;
    let mut idat: Vec<u8> = Vec::new();
    let mut pos: usize = 8;
    loop
        invariant
            8 <= pos <= s@.len(),
            has_signature(s@),
            scan(s@, 8, scan_start()) == scan(
                s@,
                pos as int,
                Scan { width, height, cgbi: is_ios, payload: idat@ },
            ),
        ensures
            scan(s@, 8, scan_start()) == Ok::<Scan, PngError>(
                Scan { width, height, cgbi: is_ios, payload: idat@ },
            ),
        decreases s@.len() - pos,
    {
        if pos == s.len() {
            break;
        }
        let (chunk, next) = match read_chunk(s, pos) {
            Ok(x) => x,
            Err(e) => {
                return Err(e);
            },
        };
        let ghost st = Scan { width, height, cgbi: is_ios, payload: idat@ };
        if tag_is(&chunk.chunk_type, Ghost(iend_tag()), 73, 69, 78, 68) {
            break;
        }
        if tag_is(&chunk.chunk_type, Ghost(ihdr_tag()), 73, 72, 68, 82) {
            if chunk.data.len() < 8 {
                return Err(PngError::Truncated);
            }
            width = read_be32(chunk.data.as_slice(), 0);
            height = read_be32(chunk.data.as_slice(), 4);
        } else if tag_is(&chunk.chunk_type, Ghost(cgbi_tag()), 67, 103, 66, 73) {
            is_ios = true;
        } else if tag_is(&chunk.chunk_type, Ghost(idat_tag()), 73, 68, 65, 84) {
            push_all(&mut idat, chunk.data.as_slice());
        }
        proof {
            assert(Scan { width, height, cgbi: is_ios, payload: idat@ } == absorb(
                st,
                chunk_tag(s@, pos as int),
                chunk_data(s@, pos as int),
            ));
        }
        pos = next;
    }
    if !is_ios {
        return Err(PngError::NotCgBI);
    }
    match decompress_idat_chunks(idat.as_slice()) {
        Ok(px) => Ok(((width, height), px)),
        Err(e) => Err(e),
    }
}

/// The zlib stream that `flate2` writes for `data` at the default compression level.
pub uninterp spec fn zlib_compressed(data: Seq<u8>) -> Seq<u8>;

/// Relies on `flate2::write::ZlibEncoder` with `flate2::Compression::default()`: writing
/// into a `Vec` at a valid level does not fail, the output depends on the bytes alone, and
/// it is a conforming zlib stream, which `inflate::inflate_bytes_zlib` decodes back to
/// those bytes.
#[verifier::external_body]
fn zlib_compress(data: &[u8]) -> (r: Result<Vec<u8>, String>)
    ensures
        r is Ok,
        r matches Ok(v) ==> v@ == zlib_compressed(data@) && inflated(v@) == Some(data@),
{
    let mut encoder = flate2::write::ZlibEncoder::new(Vec::new(), flate2::Compression::default());
    if let Err(e) = std::io::Write::write_all(&mut encoder, data) {
        return Err(e.to_string());
    }
    match encoder.finish() {
        Ok(v) => Ok(v),
        Err(e) => Err(e.to_string()),
    }
}

/// The data of the header chunk written for a `width` x `height` image: 8-bit RGBA,
/// deflate compression, adaptive filtering, no interlacing.
pub open spec fn ihdr_data(width: u32, height: u32) -> Seq<u8> {
    be_bytes(width) + be_bytes(height) + seq![8u8, 6u8, 0u8, 0u8, 0u8]
}

/// The standard PNG stream with the given geometry and compressed image data.
pub open spec fn png_bytes(width: u32, height: u32, idat: Seq<u8>) -> Seq<u8> {
    png_signature() + chunk_bytes(ihdr_tag(), ihdr_data(width, height)) + chunk_bytes(
        idat_tag(),
        idat,
    ) + chunk_bytes(iend_tag(), Seq::empty())
}

/// `out` is what repairing the `CgBI` stream `s` yields: a standard stream with the
/// geometry of `s` and its decoded pixels compressed again.
pub open spec fn is_repair_of(out: Seq<u8>, s: Seq<u8>) -> bool {
    match parse_spec(s) {
        Ok(st) => match inflated(st.payload) {
            Some(px) => {
                &&& zlib_compressed(px).len() <= u32::MAX
                &&& out == png_bytes(st.width, st.height, zlib_compressed(px))
                &&& inflated(zlib_compressed(px)) == Some(px)
            },
            None => false,
        },
        Err(_) => false,
    }
}

/// Pixel correction stage. `CgBI` images may store BGRA with premultiplied alpha; this stage
/// leaves the pixels as they are, and `unpremultiply_alpha` is available on its own.
pub fn correct_pixel_data(data: Vec<u8>, width: usize, height: usize) -> (r: Vec<u8>)
    ensures
        r@ == data@,
{
    data
}

/// Colour channel `c` with alpha `a` divided out: `c * 255 / a`, at most 255; unchanged
/// where `a` is zero.
pub open spec fn unpremultiplied(c: u8, a: u8) -> u8 {
    if a == 0 {
        c
    } else if c as int * 255 / a as int > 255 {
        255
    } else {
        (c as int * 255 / a as int) as u8
    }
}

/// `s` with alpha divided out of the colour channels of each whole four-byte pixel; the
/// alpha bytes and any trailing partial pixel stay as they are.
pub open spec fn unpremultiply_spec(s: Seq<u8>) -> Seq<u8> {
    Seq::new(
        s.len(),
        |i: int|
            if i < s.len() / 4 * 4 && i % 4 != 3 {
                unpremultiplied(s[i], s[i - i % 4 + 3])
            } else {
                s[i]
            },
    )
}

fn unpremultiply_channel(c: u8, a: u8) -> (r: u8)
    requires
        a > 0,
    ensures
        r == unpremultiplied(c, a),
{
    let v: u16 = (c as u16 * 255) / a as u16;
    if v > 255 {
        255
    } else {
        v as u8
    }
}

proof fn lemma_pixel_slot(i: int, k: int, n: int)
    requires
        i % 4 == 0,
        n % 4 == 0,
        0 <= i < n,
        i <= k < i + 4,
    ensures
        k % 4 == k - i,
        k - k % 4 + 3 == i + 3,
        i + 4 <= n,
{
}

/// Divides the alpha channel out of premultiplied RGBA pixels, in place.
pub fn unpremultiply_alpha(data: &mut Vec<u8>)
    ensures
        final(data)@ == unpremultiply_spec(old(data)@),
{
    let ghost orig = data@;
    let ghost target = unpremultiply_spec(orig);
    let n: usize = data.len() / 4 * 4;
    assert(n % 4 == 0) by (nonlinear_arith)
        requires
            n == orig.len() / 4 * 4,
    ;
    let mut i: usize = 0;
    while i < n
        invariant
            n == orig.len() / 4 * 4,
            n % 4 == 0,
            target == unpremultiply_spec(orig),
            i <= n,
            i % 4 == 0,
            data@.len() == orig.len(),
            forall|k: int| 0 <= k < i ==> data@[k] == #[trigger] target[k],
            forall|k: int| i <= k < orig.len() ==> #[trigger] data@[k] == orig[k],
        decreases n - i,
    {
        proof {
            lemma_pixel_slot(i as int, i as int, n as int);
        }
        let a = data[i + 3];
        if a > 0 {
            let r = unpremultiply_channel(data[i], a);
            let g = unpremultiply_channel(data[i + 1], a);
            let b = unpremultiply_channel(data[i + 2], a);
            data.set(i, r);
            data.set(i + 1, g);
            data.set(i + 2, b);
        }
        proof {
            assert forall|k: int| i <= k < i + 4 implies data@[k] == #[trigger] target[k] by {
                lemma_pixel_slot(i as int, k, n as int);
            }
        }
        i = i + 4;
    }
    proof {
        assert(data@ =~= target);
    }
}

/// Writes a standard PNG stream: signature, an 8-bit RGBA header chunk for `info`, one
/// `IDAT` chunk holding `data` compressed again, and the terminal chunk.
pub fn build_png(info: (u32, u32), data: &[u8]) -> (r: Result<Vec<u8>, PngError>)
    ensures
        match r {
            Ok(out) => {
                &&& zlib_compressed(data@).len() <= u32::MAX
                &&& out@ == png_bytes(info.0, info.1, zlib_compressed(data@))
                &&& inflated(zlib_compressed(data@)) == Some(data@)
            },
            Err(e) => e is PngEncodingError && zlib_compressed(data@).len() > u32::MAX,
        },
{
    let mut buffer: Vec<u8> = Vec::new();
    push_all(&mut buffer, &[0x89u8, 0x50, 0x4e, 0x47, 0x0d, 0x0a, 0x1a, 0x0a]);
    let mut ihdr: Vec<u8> = Vec::new();
    push_be32(&mut ihdr, info.0);
    push_be32(&mut ihdr, info.1);
    push_all(&mut ihdr, &[8u8, 6, 0, 0, 0]);
    match write_chunk(&mut buffer, &[73u8, 72, 68, 82], ihdr.as_slice()) {
        Ok(()) => {},
        Err(e) => {
            return Err(e);
        },
    }
    let compressed = match zlib_compress(data) {
        Ok(v) => v,
        Err(msg) => {
            return Err(PngError::PngEncodingError(msg));
        },
    };
    match write_chunk(&mut buffer, &[73u8, 68, 65, 84], compressed.as_slice()) {
        Ok(()) => {},
        Err(e) => {
            return Err(e);
        },
    }
    let empty: Vec<u8> = Vec::new();
    match write_chunk(&mut buffer, &[73u8, 69, 78, 68], empty.as_slice()) {
        Ok(()) => {},
        Err(e) => {
            return Err(e);
        },
    }
    proof {
        assert(ihdr@ =~= ihdr_data(info.0, info.1));
        assert(empty@ =~= Seq::<u8>::empty());
        assert(buffer@ =~= png_bytes(info.0, info.1, zlib_compressed(data@)));
    }
    Ok(buffer)
}

/// Repairs an iOS `CgBI` PNG stream into a standard one.
///
/// Fails with `NotPng` where the signature is wrong, `Truncated` where a chunk is cut short,
/// `NotCgBI` where no marker chunk is present, and `PngDecodingError` where the decoder
/// refuses the image data. Otherwise it succeeds, unless the compressed pixels are too long
/// for one chunk (`PngEncodingError`), and the output is the standard stream with the same
/// geometry and the same decoded pixels.
pub fn fixup_png(input: &[u8]) -> (r: Result<Vec<u8>, PngError>)
    ensures
        match parse_spec(input@) {
            Ok(st) => match inflated(st.payload) {
                Some(px) => match r {
                    Ok(out) => is_repair_of(out@, input@),
                    Err(e) => e is PngEncodingError && zlib_compressed(px).len() > u32::MAX,
                },
                None => r matches Err(e) && e is PngDecodingError,
            },
            Err(e) => r == Err::<Vec<u8>, PngError>(e),
        },
{
    let (info, data) = match parse_ios_png(input) {
        Ok(x) => x,
        Err(e) => {
            return Err(e);
        },
    };
    let corrected_data = correct_pixel_data(data, info.0 as usize, info.1 as usize);
    build_png(info, corrected_data.as_slice())
}

} // verus!
