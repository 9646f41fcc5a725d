//! The image codec: a canvas in, a conformant PNG byte stream out, and
//! back again.
//!
//! The encoder frames the pixel buffer exactly as the PNG standard asks:
//! the eight-byte signature; an IHDR chunk declaring width, height, eight
//! bit depth and the colour type matching the channel count; one IDAT
//! chunk holding a zlib stream in "store" mode (uncompressed deflate
//! blocks of at most 65535 bytes) over the filter-prefixed scanlines; and
//! the IEND chunk.  Every chunk carries its CRC-32 and the zlib stream its
//! Adler-32, so any standard reader decodes the stream back to the exact
//! source pixels.
//!
//! The decoder reads back precisely this store-mode subset, verifying
//! signature, lengths and both checksums, and the round-trip law at the
//! bottom states that decoding an encoded canvas returns its exact
//! dimensions, channel count and pixel bytes.

use vstd::prelude::*;

use crate::canvas::Canvas;
use crate::checksum::{adler32, adler32_spec, crc32, crc32_spec};
use crate::errors::EncodingError;
use crate::MAX_DIM;

verus! {

/// The eight-byte PNG signature.
pub open spec fn png_sig() -> Seq<u8> {
    seq![137u8, 80u8, 78u8, 71u8, 13u8, 10u8, 26u8, 10u8]
}

/// The IHDR chunk tag.
pub open spec fn ihdr_tag() -> Seq<u8> {
    seq![73u8, 72u8, 68u8, 82u8]
}

/// The IDAT chunk tag.
pub open spec fn idat_tag() -> Seq<u8> {
    seq![73u8, 68u8, 65u8, 84u8]
}

/// The IEND chunk tag.
pub open spec fn iend_tag() -> Seq<u8> {
    seq![73u8, 69u8, 78u8, 68u8]
}

/// A 32-bit value as four big-endian bytes.
pub open spec fn be32(v: u32) -> Seq<u8> {
    seq![(v >> 24) as u8, (v >> 16) as u8, (v >> 8) as u8, v as u8]
}

/// Four big-endian bytes as a 32-bit value.
pub open spec fn be32_val(b0: u8, b1: u8, b2: u8, b3: u8) -> u32 {
    ((b0 as u32) << 24) | ((b1 as u32) << 16) | ((b2 as u32) << 8) | (b3 as u32)
}

/// Reading back the four big-endian bytes of `v` yields `v`.
pub proof fn lemma_be32_roundtrip(v: u32)
    ensures
        be32_val((v >> 24) as u8, (v >> 16) as u8, (v >> 8) as u8, v as u8) == v,
{
    assert((((v >> 24) as u8 as u32) << 24) | (((v >> 16) as u8 as u32) << 16) | (((v >> 8) as u8
        as u32) << 8) | (v as u8 as u32) == v) by (bit_vector);
}

/// A whole chunk: length, tag, payload, and the CRC-32 of tag plus
/// payload.
pub open spec fn chunk_bytes(tag: Seq<u8>, payload: Seq<u8>) -> Seq<u8> {
    be32(payload.len() as u32) + tag + payload + be32(crc32_spec(tag + payload))
}

/// The 13 IHDR payload bytes: dimensions, bit depth 8, colour type 0
/// (grayscale) or 6 (RGBA), and zero compression, filter and interlace
/// methods.
pub open spec fn ihdr_payload(w: u32, h: u32, ch: u32) -> Seq<u8> {
    be32(w) + be32(h) + seq![
        8u8,
        if ch == 1 {
            0u8
        } else {
            6u8
        },
        0u8,
        0u8,
        0u8,
    ]
}

/// The filtered scanlines: each row of `stride` pixel bytes prefixed with
/// filter byte 0 (no filtering).
pub open spec fn filtered(pix: Seq<u8>, stride: int, h: int) -> Seq<u8>
    decreases h,
{
    if h <= 0 {
        Seq::empty()
    } else {
        seq![0u8] + pix.take(stride) + filtered(pix.skip(stride), stride, h - 1)
    }
}

/// A deflate stream of stored (uncompressed) blocks over `d`: blocks of
/// at most 65535 bytes, each with its little-endian length and one's
/// complement, the last block flagged final.
pub open spec fn stored_blocks(d: Seq<u8>) -> Seq<u8>
    decreases d.len(),
{
    if d.len() <= 65535 {
        let len = d.len() as int;
        seq![1u8, (len % 256) as u8, (len / 256) as u8, (255 - len % 256) as u8, (255 - len
            / 256) as u8] + d
    } else {
        seq![0u8, 255u8, 255u8, 0u8, 0u8] + d.take(65535) + stored_blocks(d.skip(65535))
    }
}

/// A zlib stream in store mode: the 0x78 0x01 header, the stored blocks,
/// and the big-endian Adler-32 of the raw data.
pub open spec fn zlib_stream(d: Seq<u8>) -> Seq<u8> {
    seq![120u8, 1u8] + stored_blocks(d) + be32(adler32_spec(d))
}

/// The full encoded byte stream of a canvas.
pub open spec fn encode_spec(w: u32, h: u32, ch: u32, pix: Seq<u8>) -> Seq<u8> {
    png_sig() + chunk_bytes(ihdr_tag(), ihdr_payload(w, h, ch)) + chunk_bytes(
        idat_tag(),
        zlib_stream(filtered(pix, w as int * ch as int, h as int)),
    ) + chunk_bytes(iend_tag(), Seq::empty())
}

/// An opaque, write-once encoded image: the byte stream and the
/// dimensions it encodes.
pub struct EncodedImage {
    pub width: u32,
    pub height: u32,
    pub bytes: Vec<u8>,
}

/// Appends the four big-endian bytes of `v`.
fn push_be32(out: &mut Vec<u8>, v: u32)
    ensures
        final(out)@ == old(out)@ + be32(v),
{
    let ghost pre = out@;
    out.push(#[verifier::truncate] ((v >> 24) as u8));
    out.push(#[verifier::truncate] ((v >> 16) as u8));
    out.push(#[verifier::truncate] ((v >> 8) as u8));
    out.push(#[verifier::truncate] (v as u8));
    proof {
        assert(out@ =~= pre + be32(v));
    }
}

/// A four-byte tag as a vector.
fn tag_vec(a: u8, b: u8, c: u8, d: u8) -> (v: Vec<u8>)
    ensures
        v@ =~= seq![a, b, c, d],
{
    let mut v: Vec<u8> = Vec::new();
    v.push(a);
    v.push(b);
    v.push(c);
    v.push(d);
    v
}

/// Appends one framed chunk: length, tag, payload, CRC.
fn emit_chunk(out: &mut Vec<u8>, tag: &Vec<u8>, payload: &Vec<u8>)
    requires
        tag@.len() == 4,
        payload@.len() <= 0x7FFFFFFF,
    ensures
        final(out)@ == old(out)@ + chunk_bytes(tag@, payload@),
{
    let ghost pre = out@;
    push_be32(out, payload.len() as u32);
    out.extend_from_slice(tag.as_slice());
    out.extend_from_slice(payload.as_slice());
    let mut content: Vec<u8> = Vec::new();
    content.extend_from_slice(tag.as_slice());
    content.extend_from_slice(payload.as_slice());
    proof {
        assert(content@ =~= tag@ + payload@);
    }
    let crc = crc32(&content);
    push_be32(out, crc);
    proof {
        assert(out@ =~= pre + chunk_bytes(tag@, payload@));
    }
}

/// The filter-prefixed scanlines of the pixel buffer.
fn build_filtered(data: &Vec<u8>, stride: usize, h: usize) -> (filt: Vec<u8>)
    requires
        1 <= stride <= 16384,
        1 <= h <= 4096,
        data@.len() == stride * h,
    ensures
        filt@ == filtered(data@, stride as int, h as int),
        filt@.len() == (1 + stride) * h,
{
    let mut filt: Vec<u8> = Vec::new();
    let mut y: usize = 0;
    proof {
        assert(data@.skip(0) =~= data@);
        assert(stride * h <= 67108864) by (nonlinear_arith)
            requires
                1 <= stride <= 16384,
                1 <= h <= 4096,
        ;
    }
    while y < h
        invariant
            y <= h,
            1 <= stride <= 16384,
            h <= 4096,
            data@.len() == stride * h,
            data@.len() <= 67108864,
            filt@.len() == (1 + stride) * y,
            filtered(data@, stride as int, h as int) == filt@ + filtered(
                data@.skip(y as int * stride as int),
                stride as int,
                h as int - y as int,
            ),
        decreases h - y,
    {
        proof {
            assert(y as int * stride as int + stride <= h as int * stride as int)
                by (nonlinear_arith)
                requires
                    0 <= y < h,
                    1 <= stride,
            ;
            assert(stride as int * h as int == h as int * stride as int) by (nonlinear_arith);
            assert((1 + stride as int) * (y + 1) == (1 + stride as int) * y + 1 + stride)
                by (nonlinear_arith);
            assert((y + 1) * stride as int == y as int * stride as int + stride)
                by (nonlinear_arith);
        }
        let ghost row_base = y as int * stride as int;
        let ghost before_row = filt@;
        filt.push(0u8);
        let base: usize = y * stride;
        let mut k: usize = 0;
        while k < stride
            invariant
                k <= stride,
                stride <= 16384,
                y < h,
                h <= 4096,
                base == y * stride,
                data@.len() == stride * h,
                data@.len() <= 67108864,
                base + stride <= data@.len(),
                filt@ == before_row + seq![0u8] + data@.subrange(base as int, base as int
                    + k as int),
            decreases stride - k,
        {
            filt.push(data[base + k]);
            proof {
                assert(filt@ =~= before_row + seq![0u8] + data@.subrange(base as int, base as int
                    + k + 1));
            }
            k = k + 1;
        }
        proof {
            let s = stride as int;
            let rest = data@.skip(y as int * s);
            assert(rest.take(s) =~= data@.subrange(base as int, base as int + s));
            assert(rest.skip(s) =~= data@.skip((y + 1) * s));
            assert(filtered(rest, s, h as int - y as int) == seq![0u8] + rest.take(s) + filtered(
                rest.skip(s),
                s,
                h as int - y as int - 1,
            ));
            assert(filt@ =~= before_row + (seq![0u8] + rest.take(s)));
        }
        y = y + 1;
    }
    proof {
        assert(data@.skip(h as int * stride as int) =~= Seq::<u8>::empty());
        assert(filtered(data@.skip(h as int * stride as int), stride as int, 0) =~= Seq::<
            u8,
        >::empty());
        assert(filt@ =~= filt@ + Seq::<u8>::empty());
    }
    filt
}

/// The stored-block framing adds at most five bytes per block.
proof fn lemma_stored_blocks_len(d: Seq<u8>)
    ensures
        stored_blocks(d).len() <= 2 * d.len() + 5,
    decreases d.len(),
{
    if d.len() > 65535 {
        lemma_stored_blocks_len(d.skip(65535));
    }
}

/// The stored-block deflate body of `d`.
fn build_stored(d: &Vec<u8>) -> (body: Vec<u8>)
    requires
        d@.len() <= 0x8000000,
    ensures
        body@ == stored_blocks(d@),
{
    let mut body: Vec<u8> = Vec::new();
    let mut pos: usize = 0;
    let n = d.len();
    proof {
        assert(d@.skip(0) =~= d@);
    }
    while n - pos > 65535
        invariant
            pos <= n,
            n == d@.len(),
            n <= 0x8000000,
            stored_blocks(d@) == body@ + stored_blocks(d@.skip(pos as int)),
        decreases n - pos,
    {
        let ghost rest = d@.skip(pos as int);
        let ghost before = body@;
        body.push(0u8);
        body.push(255u8);
        body.push(255u8);
        body.push(0u8);
        body.push(0u8);
        let mut k: usize = 0;
        while k < 65535
            invariant
                k <= 65535,
                pos + 65535 < n,
                n == d@.len(),
                body@ == before + seq![0u8, 255u8, 255u8, 0u8, 0u8] + d@.subrange(pos as int,
                    pos as int + k as int),
            decreases 65535 - k,
        {
            body.push(d[pos + k]);
            proof {
                assert(body@ =~= before + seq![0u8, 255u8, 255u8, 0u8, 0u8] + d@.subrange(
                    pos as int, pos as int + k + 1));
            }
            k = k + 1;
        }
        proof {
            assert(rest.take(65535) =~= d@.subrange(pos as int, pos as int + 65535));
            assert(rest.skip(65535) =~= d@.skip(pos as int + 65535));
            assert(stored_blocks(rest) == seq![0u8, 255u8, 255u8, 0u8, 0u8] + rest.take(65535)
                + stored_blocks(rest.skip(65535)));
            assert(body@ =~= before + (seq![0u8, 255u8, 255u8, 0u8, 0u8] + rest.take(65535)));
        }
        pos = pos + 65535;
    }
    let rem: usize = n - pos;
    let ghost rest = d@.skip(pos as int);
    let ghost before = body@;
    let lo: u8 = (rem % 256) as u8;
    let hi: u8 = (rem / 256) as u8;
    body.push(1u8);
    body.push(lo);
    body.push(hi);
    body.push(255 - lo);
    body.push(255 - hi);
    let mut k: usize = 0;
    while k < rem
        invariant
            k <= rem,
            pos + rem == n,
            n == d@.len(),
            lo == rem % 256,
            hi == rem / 256,
            body@ == before + seq![1u8, lo, hi, (255 - lo) as u8, (255 - hi) as u8] + d@.subrange(
                pos as int,
                pos as int + k as int,
            ),
        decreases rem - k,
    {
        body.push(d[pos + k]);
        proof {
            assert(body@ =~= before + seq![1u8, lo, hi, (255 - lo) as u8, (255 - hi) as u8]
                + d@.subrange(pos as int, pos as int + k + 1));
        }
        k = k + 1;
    }
    proof {
        assert(rest.len() == rem);
        assert(rest =~= d@.subrange(pos as int, pos as int + rem as int));
        assert(stored_blocks(rest) == seq![1u8, (rem as int % 256) as u8, (rem as int
            / 256) as u8, (255 - rem as int % 256) as u8, (255 - rem as int / 256) as u8] + rest);
        assert(body@ =~= before + stored_blocks(rest));
        assert(body@ =~= stored_blocks(d@));
    }
    body
}

/// Serialises a canvas into a conformant PNG byte stream.  Rejects a zero
/// dimension and an unsupported channel count; for every well-formed
/// canvas it returns exactly the bytes of `encode_spec`.
pub fn encode(canvas: &Canvas) -> (r: Result<EncodedImage, EncodingError>)
    requires
        canvas.data@.len() == canvas.width * canvas.height * canvas.channels,
        canvas.width <= MAX_DIM,
        canvas.height <= MAX_DIM,
        canvas.channels <= 4,
    ensures
        (canvas.width == 0 || canvas.height == 0) <==> r == Err::<EncodedImage, _>(
            EncodingError::ZeroDimension,
        ),
        (canvas.width >= 1 && canvas.height >= 1 && canvas.channels != 1 && canvas.channels != 4)
            <==> r == Err::<EncodedImage, _>(EncodingError::UnsupportedChannels),
        r is Ok <==> (canvas.width >= 1 && canvas.height >= 1 && (canvas.channels == 1
            || canvas.channels == 4)),
        r is Ok ==> {
            let img = r->Ok_0;
            &&& img.width == canvas.width
            &&& img.height == canvas.height
            &&& img.bytes@ == encode_spec(canvas.width, canvas.height, canvas.channels,
                canvas.data@)
        },
{
    if canvas.width == 0 || canvas.height == 0 {
        return Err(EncodingError::ZeroDimension);
    }
    if canvas.channels != 1 && canvas.channels != 4 {
        return Err(EncodingError::UnsupportedChannels);
    }
    let w = canvas.width;
    let h = canvas.height;
    let ch = canvas.channels;
    proof {
        assert(w as int * ch as int <= 16384 && w as int * ch as int >= 1 && (w as int * ch as int)
            * (h as int) == w as int * h as int * ch as int && ((1 + w as int * ch as int) * (
        h as int)) <= 0x8000000) by (nonlinear_arith)
            requires
                1 <= w <= 4096,
                1 <= h <= 4096,
                ch == 1 || ch == 4,
        ;
    }
    let stride: usize = (w as usize) * (ch as usize);
    let filt = build_filtered(&canvas.data, stride, h as usize);
    let adler = adler32(&filt);
    let body = build_stored(&filt);
    let mut idat: Vec<u8> = Vec::new();
    idat.push(120u8);
    idat.push(1u8);
    idat.extend_from_slice(body.as_slice());
    push_be32(&mut idat, adler);
    proof {
        lemma_stored_blocks_len(filt@);
        assert(idat@ =~= zlib_stream(filtered(canvas.data@, w as int * ch as int, h as int)));
    }
    let mut ihdr: Vec<u8> = Vec::new();
    push_be32(&mut ihdr, w);
    push_be32(&mut ihdr, h);
    ihdr.push(8u8);
    ihdr.push(if ch == 1 {
        0u8
    } else {
        6u8
    });
    ihdr.push(0u8);
    ihdr.push(0u8);
    ihdr.push(0u8);
    proof {
        assert(ihdr@ =~= ihdr_payload(w, h, ch));
    }
    let mut out: Vec<u8> = Vec::new();
    out.push(137u8);
    out.push(80u8);
    out.push(78u8);
    out.push(71u8);
    out.push(13u8);
    out.push(10u8);
    out.push(26u8);
    out.push(10u8);
    let ghost sig_done = out@;
    proof {
        assert(sig_done =~= png_sig());
    }
    let t_ihdr = tag_vec(73, 72, 68, 82);
    let t_idat = tag_vec(73, 68, 65, 84);
    let t_iend = tag_vec(73, 69, 78, 68);
    emit_chunk(&mut out, &t_ihdr, &ihdr);
    emit_chunk(&mut out, &t_idat, &idat);
    let empty: Vec<u8> = Vec::new();
    emit_chunk(&mut out, &t_iend, &empty);
    proof {
        assert(out@ =~= encode_spec(w, h, ch, canvas.data@));
    }
    Ok(EncodedImage { width: w, height: h, bytes: out })
}

/// Writing a value big-endian and reading it back is the identity, byte
/// for byte.
pub proof fn lemma_be32_inject(b0: u8, b1: u8, b2: u8, b3: u8)
    ensures
        b0 == (be32_val(b0, b1, b2, b3) >> 24) as u8,
        b1 == (be32_val(b0, b1, b2, b3) >> 16) as u8,
        b2 == (be32_val(b0, b1, b2, b3) >> 8) as u8,
        b3 == be32_val(b0, b1, b2, b3) as u8,
{
    let v = ((b0 as u32) << 24) | ((b1 as u32) << 16) | ((b2 as u32) << 8) | (b3 as u32);
    assert(b0 == (v >> 24) as u8 && b1 == (v >> 16) as u8 && b2 == (v >> 8) as u8 && b3
        == v as u8) by (bit_vector)
        requires
            v == ((b0 as u32) << 24) | ((b1 as u32) << 16) | ((b2 as u32) << 8) | (b3 as u32),
    ;
}

/// Parses stored deflate blocks at the front of `d`: the raw bytes and
/// how many input bytes the blocks took.  Trailing input after the final
/// block is left for the caller.
pub open spec fn parse_stored(d: Seq<u8>) -> Option<(Seq<u8>, int)>
    decreases d.len(),
{
    if d.len() < 5 {
        None
    } else {
        let len = d[1] + 256 * d[2];
        if d[3] != 255 - d[1] || d[4] != 255 - d[2] {
            None
        } else if d.len() < 5 + len {
            None
        } else if d[0] == 1 {
            Some((d.subrange(5, 5 + len), 5 + len))
        } else if d[0] == 0 {
            match parse_stored(d.skip(5 + len)) {
                None => None,
                Some(rest) => Some((d.subrange(5, 5 + len) + rest.0, 5 + len + rest.1)),
            }
        } else {
            None
        }
    }
}

/// Parses a store-mode zlib stream: header, stored blocks and Adler-32,
/// consuming the input exactly.
pub open spec fn parse_zlib(d: Seq<u8>) -> Option<Seq<u8>> {
    if d.len() < 2 || d[0] != 120 || d[1] != 1 {
        None
    } else {
        match parse_stored(d.skip(2)) {
            None => None,
            Some(rest) => {
                if d.len() != 2 + rest.1 + 4 {
                    None
                } else if d.subrange(2 + rest.1, d.len() as int) != be32(adler32_spec(rest.0)) {
                    None
                } else {
                    Some(rest.0)
                }
            },
        }
    }
}

/// Strips the filter byte of each scanline, insisting on filter type 0.
pub open spec fn unfilter(raw: Seq<u8>, stride: int, h: int) -> Option<Seq<u8>>
    decreases h,
{
    if h <= 0 {
        if raw.len() == 0 {
            Some(Seq::empty())
        } else {
            None
        }
    } else if raw.len() < 1 + stride || raw[0] != 0 {
        None
    } else {
        match unfilter(raw.skip(1 + stride), stride, h - 1) {
            None => None,
            Some(rest) => Some(raw.subrange(1, 1 + stride) + rest),
        }
    }
}

/// Parsing the stored blocks of `d`, with anything after them, yields
/// `d` back and consumes exactly the blocks.
proof fn lemma_parse_stored_roundtrip(d: Seq<u8>, tail: Seq<u8>)
    ensures
        parse_stored(stored_blocks(d) + tail) == Some((d, stored_blocks(d).len() as int)),
    decreases d.len(),
{
    let sb = stored_blocks(d);
    let input = sb + tail;
    if d.len() <= 65535 {
        let len = d.len() as int;
        assert(len % 256 + 256 * (len / 256) == len);
        assert(input[1] == (len % 256) as u8 && input[2] == (len / 256) as u8);
        assert(input[1] + 256 * input[2] == len);
        assert(input[3] == 255 - input[1] && input[4] == 255 - input[2]);
        assert(input[0] == 1);
        assert(input.len() >= 5 + len);
        assert(input.subrange(5, 5 + len) =~= d);
        assert(sb.len() == 5 + len);
    } else {
        assert(input[0] == 0);
        assert(input[1] + 256 * input[2] == 65535);
        assert(input[3] == 0 && input[4] == 0);
        assert(input.len() >= 5 + 65535);
        let d2 = d.skip(65535);
        lemma_parse_stored_roundtrip(d2, tail);
        assert(input.skip(5 + 65535int) =~= stored_blocks(d2) + tail);
        assert(input.subrange(5, 5 + 65535int) =~= d.take(65535));
        assert(d.take(65535) + d2 =~= d);
        assert(sb.len() == 5 + 65535 + stored_blocks(d2).len());
    }
}

/// Parsing a store-mode zlib stream of `d` yields `d` back.
proof fn lemma_parse_zlib_roundtrip(d: Seq<u8>)
    ensures
        parse_zlib(zlib_stream(d)) == Some(d),
{
    let z = zlib_stream(d);
    let sb = stored_blocks(d);
    assert(z[0] == 120 && z[1] == 1);
    lemma_parse_stored_roundtrip(d, be32(adler32_spec(d)));
    assert(z.skip(2) =~= sb + be32(adler32_spec(d)));
    assert(z.len() == 2 + sb.len() + 4);
    assert(z.subrange(2 + sb.len() as int, z.len() as int) =~= be32(adler32_spec(d)));
}

/// Unfiltering the filtered scanlines of `pix` yields `pix` back.
proof fn lemma_unfilter_roundtrip(pix: Seq<u8>, stride: int, h: int)
    requires
        1 <= stride,
        0 <= h,
        pix.len() == h * stride,
    ensures
        unfilter(filtered(pix, stride, h), stride, h) == Some(pix),
    decreases h,
{
    let f = filtered(pix, stride, h);
    if h == 0 {
        assert(h * stride == 0) by (nonlinear_arith)
            requires
                h == 0,
        ;
        assert(pix =~= Seq::<u8>::empty());
    } else {
        assert(stride <= pix.len()) by (nonlinear_arith)
            requires
                pix.len() == h * stride,
                1 <= h,
                1 <= stride,
        ;
        let rest = pix.skip(stride);
        assert(rest.len() == (h - 1) * stride) by (nonlinear_arith)
            requires
                pix.len() == h * stride,
                rest.len() == pix.len() - stride,
                1 <= h,
                1 <= stride,
        ;
        lemma_unfilter_roundtrip(rest, stride, h - 1);
        assert(f[0] == 0);
        assert(f.len() >= 1 + stride);
        assert(f.skip(1 + stride) =~= filtered(rest, stride, h - 1));
        assert(f.subrange(1, 1 + stride) =~= pix.take(stride));
        assert(pix.take(stride) + rest =~= pix);
    }
}

/// The round-trip law: decoding an encoded canvas returns its exact
/// width, height, channel count and pixel bytes, for every valid canvas.
#[verifier::rlimit(100)]
pub proof fn lemma_decode_encode(w: u32, h: u32, ch: u32, pix: Seq<u8>)
    requires
        1 <= w <= MAX_DIM,
        1 <= h <= MAX_DIM,
        ch == 1 || ch == 4,
        pix.len() == w * h * ch,
    ensures
        decode_spec(encode_spec(w, h, ch, pix)) == Some((w, h, ch, pix)),
{
    let stride = w as int * ch as int;
    let filt = filtered(pix, stride, h as int);
    let z = zlib_stream(filt);
    let p1 = ihdr_payload(w, h, ch);
    let c1 = chunk_bytes(ihdr_tag(), p1);
    let c2 = chunk_bytes(idat_tag(), z);
    let c3 = chunk_bytes(iend_tag(), Seq::<u8>::empty());
    let b = encode_spec(w, h, ch, pix);
    lemma_stored_blocks_len(filt);
    assert(h as int * stride == w * h * ch) by (nonlinear_arith)
        requires
            stride == w as int * ch as int,
    ;
    assert(p1.len() == 13);
    assert(c1.len() == 25);
    assert(c3.len() == 12);
    let ilen = z.len() as int;
    assert(b.len() == 57 + ilen);
    assert(b =~= png_sig() + c1 + c2 + c3);
    assert(b.take(8) =~= png_sig());

    // The IHDR header: length 13, the tag, the fixed trailer bytes.
    lemma_be32_roundtrip(13u32);
    assert(b[8] == (13u32 >> 24) as u8 && b[9] == (13u32 >> 16) as u8 && b[10] == (13u32
        >> 8) as u8 && b[11] == 13u32 as u8);
    assert(be32_val(b[8], b[9], b[10], b[11]) == 13);
    assert(b.subrange(12, 16) =~= ihdr_tag());
    lemma_be32_roundtrip(w);
    lemma_be32_roundtrip(h);
    assert(b[16] == (w >> 24) as u8 && b[17] == (w >> 16) as u8 && b[18] == (w >> 8) as u8 && b[19]
        == w as u8);
    assert(be32_val(b[16], b[17], b[18], b[19]) == w);
    assert(b[20] == (h >> 24) as u8 && b[21] == (h >> 16) as u8 && b[22] == (h >> 8) as u8 && b[23]
        == h as u8);
    assert(be32_val(b[20], b[21], b[22], b[23]) == h);
    assert(b[24] == 8);
    assert(b[25] == if ch == 1 {
        0u8
    } else {
        6u8
    });
    assert(b[26] == 0 && b[27] == 0 && b[28] == 0);
    assert(b.subrange(12, 29) =~= ihdr_tag() + p1);
    assert(b.subrange(29, 33) =~= be32(crc32_spec(ihdr_tag() + p1)));

    // The IDAT header: its length, tag, payload and checksum.
    assert(z.len() <= 2 * filt.len() + 11);
    assert(filt.len() == (1 + stride) * h) by {
        lemma_filtered_len(pix, stride, h as int);
    }
    assert((1 + stride) * h <= 67112960) by (nonlinear_arith)
        requires
            1 <= stride <= 16384,
            1 <= h <= 4096,
    ;
    lemma_be32_roundtrip(z.len() as u32);
    assert(b[33] == (z.len() as u32 >> 24) as u8 && b[34] == (z.len() as u32 >> 16) as u8 && b[35]
        == (z.len() as u32 >> 8) as u8 && b[36] == z.len() as u32 as u8);
    assert(be32_val(b[33], b[34], b[35], b[36]) == z.len() as u32);
    assert(be32_val(b[33], b[34], b[35], b[36]) as int == ilen);
    assert(b.subrange(37, 41) =~= idat_tag());
    assert(b.subrange(41, 41 + ilen) =~= z);
    assert(b.subrange(37, 41 + ilen) =~= idat_tag() + z);
    assert(b.subrange(41 + ilen, 45 + ilen) =~= be32(crc32_spec(idat_tag() + z)));

    // The zlib stream and the scanlines unwind to the exact pixels.
    lemma_parse_zlib_roundtrip(filt);
    lemma_unfilter_roundtrip(pix, stride, h as int);

    // The trailing IEND chunk.
    assert(b.subrange(45 + ilen, 57 + ilen) =~= c3);
}

/// The filtered scanlines of an `h`-row buffer hold `1 + stride` bytes
/// per row.
proof fn lemma_filtered_len(pix: Seq<u8>, stride: int, h: int)
    requires
        1 <= stride,
        0 <= h,
        pix.len() == h * stride,
    ensures
        filtered(pix, stride, h).len() == (1 + stride) * h,
    decreases h,
{
    if h == 0 {
    } else {
        assert(stride <= pix.len()) by (nonlinear_arith)
            requires
                pix.len() == h * stride,
                1 <= h,
                1 <= stride,
        ;
        let rest = pix.skip(stride);
        assert(rest.len() == (h - 1) * stride) by (nonlinear_arith)
            requires
                pix.len() == h * stride,
                rest.len() == pix.len() - stride,
                1 <= h,
                1 <= stride,
        ;
        lemma_filtered_len(rest, stride, h - 1);
        assert((1 + stride) * h == 1 + stride + (1 + stride) * (h - 1)) by (nonlinear_arith);
    }
}

/// Decodes the store-mode PNG subset this encoder emits: signature, one
/// IHDR, one IDAT holding a store-mode zlib stream, and IEND, with every
/// length and checksum verified.  Yields width, height, channel count and
/// the exact pixel bytes.
pub open spec fn decode_spec(b: Seq<u8>) -> Option<(u32, u32, u32, Seq<u8>)> {
    if b.len() < 45 || b.take(8) != png_sig() {
        None
    } else if be32_val(b[8], b[9], b[10], b[11]) != 13 || b.subrange(12, 16) != ihdr_tag() {
        None
    } else if b[24] != 8 || (b[25] != 0 && b[25] != 6) || b[26] != 0 || b[27] != 0 || b[28]
        != 0 {
        None
    } else if b.subrange(29, 33) != be32(crc32_spec(b.subrange(12, 29))) {
        None
    } else {
        let w = be32_val(b[16], b[17], b[18], b[19]);
        let h = be32_val(b[20], b[21], b[22], b[23]);
        let ch: u32 = if b[25] == 0 {
            1
        } else {
            4
        };
        if w == 0 || h == 0 || w > MAX_DIM || h > MAX_DIM {
            None
        } else {
            let ilen = be32_val(b[33], b[34], b[35], b[36]) as int;
            if b.len() < 45 + ilen || b.subrange(37, 41) != idat_tag() {
                None
            } else if b.subrange(41 + ilen, 45 + ilen) != be32(crc32_spec(b.subrange(37, 41
                + ilen))) {
                None
            } else {
                match parse_zlib(b.subrange(41, 41 + ilen)) {
                    None => None,
                    Some(raw) => match unfilter(raw, w as int * ch as int, h as int) {
                        None => None,
                        Some(pix) => {
                            if pix.len() != w * h * ch {
                                None
                            } else if b.len() != 57 + ilen || b.subrange(45 + ilen, 57 + ilen)
                                != chunk_bytes(iend_tag(), Seq::empty()) {
                                None
                            } else {
                                Some((w, h, ch, pix))
                            }
                        },
                    },
                }
            }
        }
    }
}

/// Reads four big-endian bytes at `off`.
fn read_be32(b: &Vec<u8>, off: usize) -> (r: u32)
    requires
        off + 4 <= b@.len(),
    ensures
        r == be32_val(b@[off as int], b@[off as int + 1], b@[off as int + 2], b@[off as int + 3]),
{
    let m = b.len();
    proof {
        assert(off + 4 <= m);
    }
    ((b[off] as u32) << 24) | ((b[off + 1] as u32) << 16) | ((b[off + 2] as u32) << 8) | (b[off
        + 3] as u32)
}

/// Parses stored deflate blocks starting at `pos`, returning the raw
/// bytes and the position just past the final block.
fn parse_stored_exec(b: &Vec<u8>, pos: usize) -> (r: Option<(Vec<u8>, usize)>)
    requires
        pos <= b@.len(),
    ensures
        match r {
            Some(p) => {
                &&& parse_stored(b@.skip(pos as int)) == Some((p.0@, p.1 - pos as int))
                &&& pos <= p.1 <= b@.len()
            },
            None => parse_stored(b@.skip(pos as int)) is None,
        },
    decreases b@.len() - pos,
{
    let ghost d = b@.skip(pos as int);
    let n = b.len();
    if n - pos < 5 {
        return None;
    }
    let flag = b[pos];
    let len: usize = (b[pos + 1] as usize) + 256 * (b[pos + 2] as usize);
    proof {
        assert(d[0] == b@[pos as int]);
        assert(d[1] == b@[pos as int + 1]);
        assert(d[2] == b@[pos as int + 2]);
        assert(d[3] == b@[pos as int + 3]);
        assert(d[4] == b@[pos as int + 4]);
    }
    if b[pos + 3] != 255 - b[pos + 1] || b[pos + 4] != 255 - b[pos + 2] {
        return None;
    }
    if n - pos - 5 < len {
        return None;
    }
    if flag == 1 {
        let mut raw: Vec<u8> = Vec::new();
        let mut k: usize = 0;
        while k < len
            invariant
                k <= len,
                pos + 5 + len <= n,
                n == b@.len(),
                raw@ == b@.subrange(pos as int + 5, pos as int + 5 + k as int),
            decreases len - k,
        {
            raw.push(b[pos + 5 + k]);
            proof {
                assert(raw@ =~= b@.subrange(pos as int + 5, pos as int + 5 + k + 1));
            }
            k = k + 1;
        }
        proof {
            assert(d.subrange(5, 5 + len as int) =~= b@.subrange(pos as int + 5, pos as int + 5
                + len as int));
        }
        Some((raw, pos + 5 + len))
    } else if flag == 0 {
        match parse_stored_exec(b, pos + 5 + len) {
            None => {
                proof {
                    assert(d.skip(5 + len as int) =~= b@.skip(pos as int + 5 + len as int));
                }
                None
            },
            Some(p) => {
                let (mut rest, end) = p;
                let mut raw: Vec<u8> = Vec::new();
                let mut k: usize = 0;
                while k < len
                    invariant
                        k <= len,
                        pos + 5 + len <= n,
                        n == b@.len(),
                        raw@ == b@.subrange(pos as int + 5, pos as int + 5 + k as int),
                    decreases len - k,
                {
                    raw.push(b[pos + 5 + k]);
                    proof {
                        assert(raw@ =~= b@.subrange(pos as int + 5, pos as int + 5 + k + 1));
                    }
                    k = k + 1;
                }
                raw.append(&mut rest);
                proof {
                    assert(d.skip(5 + len as int) =~= b@.skip(pos as int + 5 + len as int));
                    assert(d.subrange(5, 5 + len as int) =~= b@.subrange(pos as int + 5, pos as int
                        + 5 + len as int));
                }
                Some((raw, end))
            },
        }
    } else {
        None
    }
}

/// Strips the filter byte of each of `h` scanlines starting at `pos`.
fn unfilter_exec(raw: &Vec<u8>, pos: usize, stride: usize, h: u32) -> (r: Option<Vec<u8>>)
    requires
        pos <= raw@.len(),
        1 <= stride <= 16384,
        h <= 4096,
    ensures
        match r {
            Some(pix) => unfilter(raw@.skip(pos as int), stride as int, h as int) == Some(pix@),
            None => unfilter(raw@.skip(pos as int), stride as int, h as int) is None,
        },
    decreases h,
{
    let ghost d = raw@.skip(pos as int);
    let n = raw.len();
    if h == 0 {
        if n - pos == 0 {
            let pix: Vec<u8> = Vec::new();
            proof {
                assert(d =~= Seq::<u8>::empty());
            }
            Some(pix)
        } else {
            None
        }
    } else {
        if n - pos < 1 + stride {
            return None;
        }
        proof {
            assert(d[0] == raw@[pos as int]);
        }
        if raw[pos] != 0 {
            return None;
        }
        match unfilter_exec(raw, pos + 1 + stride, stride, h - 1) {
            None => {
                proof {
                    assert(d.skip(1 + stride as int) =~= raw@.skip(pos as int + 1 + stride as int));
                }
                None
            },
            Some(mut rest) => {
                let mut pix: Vec<u8> = Vec::new();
                let mut k: usize = 0;
                while k < stride
                    invariant
                        k <= stride,
                        pos + 1 + stride <= n,
                        n == raw@.len(),
                        pix@ == raw@.subrange(pos as int + 1, pos as int + 1 + k as int),
                    decreases stride - k,
                {
                    pix.push(raw[pos + 1 + k]);
                    proof {
                        assert(pix@ =~= raw@.subrange(pos as int + 1, pos as int + 1 + k + 1));
                    }
                    k = k + 1;
                }
                pix.append(&mut rest);
                proof {
                    assert(d.skip(1 + stride as int) =~= raw@.skip(pos as int + 1 + stride as int));
                    assert(d.subrange(1, 1 + stride as int) =~= raw@.subrange(pos as int + 1,
                        pos as int + 1 + stride as int));
                }
                Some(pix)
            },
        }
    }
}

/// Decodes the store-mode PNG subset this encoder emits back into a
/// canvas, verifying the signature, every length field and both
/// checksums.  Returns the canvas exactly when `decode_spec` accepts the
/// bytes.
#[verifier::rlimit(100)]
pub fn decode(bytes: &Vec<u8>) -> (r: Option<Canvas>)
    ensures
        match r {
            Some(c) => {
                &&& decode_spec(bytes@) == Some((c.width, c.height, c.channels, c.data@))
                &&& c.wf()
            },
            None => decode_spec(bytes@) is None,
        },
{
    let n = bytes.len();
    if n < 45 {
        return None;
    }
    if bytes[0] != 137 || bytes[1] != 80 || bytes[2] != 78 || bytes[3] != 71 || bytes[4] != 13
        || bytes[5] != 10 || bytes[6] != 26 || bytes[7] != 10 {
        proof {
            assert(bytes@.take(8) != png_sig());
        }
        return None;
    }
    proof {
        assert(bytes@.take(8) =~= png_sig());
    }
    if read_be32(bytes, 8) != 13 {
        return None;
    }
    if bytes[12] != 73 || bytes[13] != 72 || bytes[14] != 68 || bytes[15] != 82 {
        proof {
            assert(bytes@.subrange(12, 16) != ihdr_tag());
        }
        return None;
    }
    proof {
        assert(bytes@.subrange(12, 16) =~= ihdr_tag());
    }
    if bytes[24] != 8 || (bytes[25] != 0 && bytes[25] != 6) || bytes[26] != 0 || bytes[27] != 0
        || bytes[28] != 0 {
        return None;
    }
    let mut ihdr_content: Vec<u8> = Vec::new();
    let mut k: usize = 12;
    while k < 29
        invariant
            12 <= k <= 29,
            29 <= bytes@.len(),
            ihdr_content@ == bytes@.subrange(12, k as int),
        decreases 29 - k,
    {
        ihdr_content.push(bytes[k]);
        proof {
            assert(ihdr_content@ =~= bytes@.subrange(12, k + 1));
        }
        k = k + 1;
    }
    let ihdr_crc = crc32(&ihdr_content);
    proof {
        lemma_be32_inject(bytes@[29], bytes@[30], bytes@[31], bytes@[32]);
        lemma_be32_roundtrip(ihdr_crc);
    }
    if read_be32(bytes, 29) != ihdr_crc {
        proof {
            assert(bytes@.subrange(29, 33) != be32(crc32_spec(bytes@.subrange(12, 29))));
        }
        return None;
    }
    proof {
        assert(bytes@.subrange(29, 33) =~= be32(crc32_spec(bytes@.subrange(12, 29))));
    }
    let w = read_be32(bytes, 16);
    let h = read_be32(bytes, 20);
    let ch: u32 = if bytes[25] == 0 {
        1
    } else {
        4
    };
    if w == 0 || h == 0 || w > MAX_DIM || h > MAX_DIM {
        return None;
    }
    let ilen32 = read_be32(bytes, 33);
    let ilen = ilen32 as usize;
    if n - 45 < ilen {
        return None;
    }
    if bytes[37] != 73 || bytes[38] != 68 || bytes[39] != 65 || bytes[40] != 84 {
        proof {
            assert(bytes@.subrange(37, 41) != idat_tag());
        }
        return None;
    }
    proof {
        assert(bytes@.subrange(37, 41) =~= idat_tag());
    }
    let mut idat_content: Vec<u8> = Vec::new();
    let mut k2: usize = 37;
    while k2 < 41 + ilen
        invariant
            37 <= k2 <= 41 + ilen,
            n == bytes@.len(),
            41 + ilen <= n,
            idat_content@ == bytes@.subrange(37, k2 as int),
        decreases 41 + ilen - k2,
    {
        idat_content.push(bytes[k2]);
        proof {
            assert(idat_content@ =~= bytes@.subrange(37, k2 + 1));
        }
        k2 = k2 + 1;
    }
    let idat_crc = crc32(&idat_content);
    proof {
        lemma_be32_inject(bytes@[41 + ilen as int], bytes@[42 + ilen as int], bytes@[43
            + ilen as int], bytes@[44 + ilen as int]);
        lemma_be32_roundtrip(idat_crc);
    }
    if read_be32(bytes, 41 + ilen) != idat_crc {
        proof {
            assert(bytes@.subrange(41 + ilen as int, 45 + ilen as int) != be32(crc32_spec(
                bytes@.subrange(37, 41 + ilen as int))));
        }
        return None;
    }
    proof {
        assert(bytes@.subrange(41 + ilen as int, 45 + ilen as int) =~= be32(crc32_spec(
            bytes@.subrange(37, 41 + ilen as int))));
    }
    // The zlib stream inside IDAT.
    let ghost zd = bytes@.subrange(41, 41 + ilen as int);
    if ilen < 2 {
        proof {
            assert(parse_zlib(zd) is None);
        }
        return None;
    }
    if bytes[41] != 120 || bytes[42] != 1 {
        proof {
            assert(zd[0] == bytes@[41] && zd[1] == bytes@[42]);
            assert(parse_zlib(zd) is None);
        }
        return None;
    }
    let mut zvec: Vec<u8> = Vec::new();
    let mut k3: usize = 41;
    while k3 < 41 + ilen
        invariant
            41 <= k3 <= 41 + ilen,
            n == bytes@.len(),
            41 + ilen <= n,
            zvec@ == bytes@.subrange(41, k3 as int),
        decreases 41 + ilen - k3,
    {
        zvec.push(bytes[k3]);
        proof {
            assert(zvec@ =~= bytes@.subrange(41, k3 + 1));
        }
        k3 = k3 + 1;
    }
    proof {
        assert(zvec@ =~= zd);
        assert(zd.skip(2) =~= zvec@.skip(2));
    }
    let raw_parsed = parse_stored_exec(&zvec, 2);
    let (raw, used_end) = match raw_parsed {
        None => {
            proof {
                assert(parse_zlib(zd) is None);
            }
            return None;
        },
        Some(p) => p,
    };
    let used = used_end - 2;
    if ilen != 2 + used + 4 {
        proof {
            assert(parse_zlib(zd) is None);
        }
        return None;
    }
    let adler = adler32(&raw);
    proof {
        lemma_be32_inject(bytes@[43 + used as int], bytes@[44 + used as int], bytes@[45
            + used as int], bytes@[46 + used as int]);
        lemma_be32_roundtrip(adler);
        assert(zd.subrange(2 + used as int, zd.len() as int) =~= bytes@.subrange(43 + used as int,
            47 + used as int));
    }
    if read_be32(bytes, 43 + used) != adler {
        proof {
            assert(zd.subrange(2 + used as int, zd.len() as int) != be32(adler32_spec(raw@)));
            assert(parse_zlib(zd) is None);
        }
        return None;
    }
    proof {
        assert(zd.subrange(2 + used as int, zd.len() as int) =~= be32(adler32_spec(raw@)));
        assert(parse_zlib(zd) == Some(raw@));
    }
    // Unfilter the scanlines.
    proof {
        assert(w as int * ch as int <= 16384 && w as int * ch as int >= 1) by (nonlinear_arith)
            requires
                1 <= w <= 4096,
                ch == 1 || ch == 4,
        ;
        assert(raw@.skip(0) =~= raw@);
    }
    let stride: usize = (w as usize) * (ch as usize);
    let pix = match unfilter_exec(&raw, 0, stride, h) {
        None => {
            return None;
        },
        Some(p) => p,
    };
    proof {
        assert((w as usize * ch as usize) * (h as usize) == w * h * ch) by (nonlinear_arith)
            requires
                w as usize * ch as usize == w * ch,
        ;
        assert(w * h * ch <= 67108864) by (nonlinear_arith)
            requires
                1 <= w <= 4096,
                1 <= h <= 4096,
                ch == 1 || ch == 4,
        ;
    }
    let expect: usize = stride * (h as usize);
    if pix.len() != expect {
        return None;
    }
    // The trailing IEND chunk.
    if n - 45 - ilen != 12 {
        return None;
    }
    let ghost iend = bytes@.subrange(45 + ilen as int, 57 + ilen as int);
    let ghost iend_expect = chunk_bytes(iend_tag(), Seq::<u8>::empty());
    proof {
        assert(iend_tag() + Seq::<u8>::empty() =~= iend_tag());
        assert(iend_expect.len() == 12);
        lemma_be32_inject(bytes@[45 + ilen as int], bytes@[46 + ilen as int], bytes@[47
            + ilen as int], bytes@[48 + ilen as int]);
        lemma_be32_inject(bytes@[53 + ilen as int], bytes@[54 + ilen as int], bytes@[55
            + ilen as int], bytes@[56 + ilen as int]);
    }
    if read_be32(bytes, 45 + ilen) != 0 {
        proof {
            lemma_be32_roundtrip(0u32);
            if iend == iend_expect {
                assert(iend[0] == iend_expect[0] && iend[1] == iend_expect[1] && iend[2]
                    == iend_expect[2] && iend[3] == iend_expect[3]);
                assert(bytes@[45 + ilen as int] == (0u32 >> 24) as u8 && bytes@[46 + ilen as int]
                    == (0u32 >> 16) as u8 && bytes@[47 + ilen as int] == (0u32 >> 8) as u8
                    && bytes@[48 + ilen as int] == 0u32 as u8);
                assert(false);
            }
        }
        return None;
    }
    if bytes[49 + ilen] != 73 || bytes[50 + ilen] != 69 || bytes[51 + ilen] != 78 || bytes[52
        + ilen] != 68 {
        proof {
            if iend == iend_expect {
                assert(iend[4] == iend_expect[4] && iend[5] == iend_expect[5] && iend[6]
                    == iend_expect[6] && iend[7] == iend_expect[7]);
                assert(false);
            }
        }
        return None;
    }
    let ie_tag = tag_vec(73, 69, 78, 68);
    proof {
        assert(ie_tag@ =~= iend_tag());
    }
    let ie_crc = crc32(&ie_tag);
    proof {
        lemma_be32_roundtrip(ie_crc);
    }
    if read_be32(bytes, 53 + ilen) != ie_crc {
        proof {
            if iend == iend_expect {
                assert(iend[8] == iend_expect[8] && iend[9] == iend_expect[9] && iend[10]
                    == iend_expect[10] && iend[11] == iend_expect[11]);
                assert(false);
            }
        }
        return None;
    }
    proof {
        assert(iend =~= iend_expect);
        assert(decode_spec(bytes@) == Some((w, h, ch, pix@)));
    }
    Some(Canvas { width: w, height: h, channels: ch, data: pix })
}

} // verus!
