//! The WebP container grammar: length-prefixed, padding-aware chunks inside a
//! `RIFF`/`WEBP` form, with the simple and the extended layouts.
use vstd::prelude::*;

verus! {

// Four-character codes, read as little-endian 32-bit integers.
/// `RIFF`
pub const TAG_RIFF: u32 = 0x4646_4952;
/// `WEBP`
pub const TAG_WEBP: u32 = 0x5042_4557;
/// `VP8 ` (with a trailing space)
pub const TAG_VP8: u32 = 0x2038_5056;
/// `VP8L`
pub const TAG_VP8L: u32 = 0x4C38_5056;
/// `VP8X`
pub const TAG_VP8X: u32 = 0x5838_5056;
/// `ICCP`
pub const TAG_ICCP: u32 = 0x5043_4349;
/// `ALPH`
pub const TAG_ALPH: u32 = 0x4850_4C41;
/// `EXIF`
pub const TAG_EXIF: u32 = 0x4649_5845;
/// `XMP ` (with a trailing space)
pub const TAG_XMP: u32 = 0x2050_4D58;

/// Why a container could not be read, or why decoding stopped.
#[derive(Debug, Clone, Copy, PartialEq, Eq, Structural)]
pub enum WebpError {
    /// Not enough bytes for a declared length or for a required tag.
    Truncated,
    /// A tag did not match; used to select between alternatives.
    TagMismatch,
    /// The `RIFF` or `WEBP` tag is absent.
    FormatError,
    /// No layout matched, or bytes were left over in the extended form.
    UnrecognizedContainer,
    /// The extended form has none of the three payload shapes.
    MissingPayload,
    /// A structurally valid payload that is not handled (lossless).
    UnsupportedFeature,
    /// The scanline cursor is past the last row.
    EndOfImage,
    /// The bitstream decoder refused the payload.
    DecodeFailed,
}

/// A half-open byte range `[start, end)` of the container buffer.
#[derive(Debug, Clone, Copy, PartialEq, Eq, Structural)]
pub struct Span {
    pub start: usize,
    pub end: usize,
}

/// The payload carried by a container, as ranges of its buffer.
#[derive(Debug, Clone, Copy, PartialEq, Eq, Structural)]
pub enum ImageData {
    Lossy(Span),
    Lossless(Span),
    /// Color bytes, then alpha bytes.
    LossyWithAlpha(Span, Span),
}

/// The unsigned little-endian integer held by the four bytes at `p`.
pub open spec fn le_u32_at(s: Seq<u8>, p: int) -> int {
    s[p] as int + 256 * (s[p + 1] as int) + 65536 * (s[p + 2] as int) + 16777216 * (
    s[p + 3] as int)
}

/// A chunk's length field at `p`, its body, and its padding byte when the
/// length is odd, all within `[p, end)`: the body and the position after it.
pub open spec fn spec_chunk_size(s: Seq<u8>, p: usize, end: usize) -> Result<
    (Span, usize),
    WebpError,
> {
    if p + 4 > end {
        Err(WebpError::Truncated)
    } else {
        let len = le_u32_at(s, p as int);
        let body_end = p + 4 + len;
        if body_end + len % 2 > end {
            Err(WebpError::Truncated)
        } else {
            Ok((Span { start: (p + 4) as usize, end: body_end as usize }, (body_end + len % 2) as usize))
        }
    }
}

/// A chunk with the given tag at `p`; on a wrong tag nothing is consumed.
pub open spec fn spec_tagged_chunk(s: Seq<u8>, p: usize, end: usize, tag: u32) -> Result<
    (Span, usize),
    WebpError,
> {
    if p + 4 > end {
        Err(WebpError::Truncated)
    } else if le_u32_at(s, p as int) != tag {
        Err(WebpError::TagMismatch)
    } else {
        spec_chunk_size(s, (p + 4) as usize, end)
    }
}

/// A bare `VP8 ` chunk, else a bare `VP8L` chunk; `TagMismatch` if neither tag.
pub open spec fn spec_simple(s: Seq<u8>, p: usize, end: usize) -> Result<
    (ImageData, usize),
    WebpError,
> {
    match spec_tagged_chunk(s, p, end, TAG_VP8) {
        Ok((c, q)) => Ok((ImageData::Lossy(c), q)),
        Err(WebpError::TagMismatch) => match spec_tagged_chunk(s, p, end, TAG_VP8L) {
            Ok((c, q)) => Ok((ImageData::Lossless(c), q)),
            Err(e) => Err(e),
        },
        Err(e) => Err(e),
    }
}

/// A bare `VP8 ` or `VP8L` chunk inside the extended form.
pub open spec fn spec_bare_payload(s: Seq<u8>, p: usize, end: usize) -> Result<
    (ImageData, usize),
    WebpError,
> {
    match spec_simple(s, p, end) {
        Err(WebpError::TagMismatch) => Err(WebpError::MissingPayload),
        r => r,
    }
}

/// The payload of the extended form: `ALPH` then `VP8 `, else a bare payload.
pub open spec fn spec_payload(s: Seq<u8>, p: usize, end: usize) -> Result<
    (ImageData, usize),
    WebpError,
> {
    match spec_tagged_chunk(s, p, end, TAG_ALPH) {
        Ok((a, q)) => match spec_tagged_chunk(s, q, end, TAG_VP8) {
            Ok((c, r)) => Ok((ImageData::LossyWithAlpha(c, a), r)),
            Err(WebpError::TagMismatch) => spec_bare_payload(s, p, end),
            Err(e) => Err(e),
        },
        Err(WebpError::TagMismatch) => spec_bare_payload(s, p, end),
        Err(e) => Err(e),
    }
}

/// An optional trailing chunk: the position after it, or `p` where it is
/// absent or incomplete.
pub open spec fn spec_optional(s: Seq<u8>, p: usize, end: usize, tag: u32) -> usize {
    match spec_tagged_chunk(s, p, end, tag) {
        Ok((_, q)) => q,
        Err(_) => p,
    }
}

/// The position after an optional `ICCP` chunk at `p`.
pub open spec fn spec_after_iccp(s: Seq<u8>, p: usize, end: usize) -> Result<usize, WebpError> {
    match spec_tagged_chunk(s, p, end, TAG_ICCP) {
        Ok((_, q)) => Ok(q),
        Err(WebpError::TagMismatch) => Ok(p),
        Err(e) => Err(e),
    }
}

/// `VP8X`, an optional `ICCP`, the payload, an optional `EXIF`, an optional
/// `XMP `, and then the end of the form.
pub open spec fn spec_extended(s: Seq<u8>, p: usize, end: usize) -> Result<ImageData, WebpError> {
    match spec_tagged_chunk(s, p, end, TAG_VP8X) {
        Err(e) => Err(e),
        Ok((_, q)) => match spec_after_iccp(s, q, end) {
            Err(e) => Err(e),
            Ok(q2) => match spec_payload(s, q2, end) {
                Err(e) => Err(e),
                Ok((img, q3)) => {
                    let q4 = spec_optional(s, q3, end, TAG_EXIF);
                    if spec_optional(s, q4, end, TAG_XMP) == end {
                        Ok(img)
                    } else {
                        Err(WebpError::UnrecognizedContainer)
                    }
                },
            },
        },
    }
}

/// The bytes of the form after `WEBP`: simple layout first, then extended.
#[verifier::opaque]
pub open spec fn spec_webp_body(s: Seq<u8>, p: usize, end: usize) -> Result<ImageData, WebpError> {
    match spec_simple(s, p, end) {
        Ok((img, _)) => Ok(img),
        Err(WebpError::TagMismatch) => match spec_extended(s, p, end) {
            Err(WebpError::TagMismatch) => Err(WebpError::UnrecognizedContainer),
            r => r,
        },
        Err(e) => Err(e),
    }
}

/// A whole container: `RIFF`, the form length, `WEBP`, and the form's body,
/// which ends where the form length says.
pub open spec fn spec_webp_file(s: Seq<u8>) -> Result<ImageData, WebpError> {
    if s.len() < 4 {
        Err(WebpError::Truncated)
    } else if le_u32_at(s, 0) != TAG_RIFF {
        Err(WebpError::FormatError)
    } else if s.len() < 8 {
        Err(WebpError::Truncated)
    } else if 8 + le_u32_at(s, 4) > s.len() || le_u32_at(s, 4) < 4 {
        Err(WebpError::Truncated)
    } else if le_u32_at(s, 8) != TAG_WEBP {
        Err(WebpError::FormatError)
    } else {
        spec_webp_body(s, 12, (8 + le_u32_at(s, 4)) as usize)
    }
}

/// Reads the little-endian `u32` at `p`.
pub fn read_le_u32(data: &[u8], p: usize) -> (r: u32)
    requires
        p + 4 <= data@.len(),
    ensures
        r as int == le_u32_at(data@, p as int),
{
    let b0 = data[p] as u32;
    let b1 = data[p + 1] as u32;
    let b2 = data[p + 2] as u32;
    let b3 = data[p + 3] as u32;
    b0 + b1 * 256 + b2 * 65536 + b3 * 16777216
}


/// The positions a chunk reading hands back lie in order within `[p, end]`.
pub open spec fn chunk_in_bounds(r: Result<(Span, usize), WebpError>, p: usize, end: usize) -> bool {
    r matches Ok((c, q)) ==> p <= c.start <= c.end <= q <= end
}

/// Reads a length field at `p` and takes that many bytes as the body, then
/// one padding byte when the length is odd.
pub fn chunk_size(data: &[u8], p: usize, end: usize) -> (r: Result<(Span, usize), WebpError>)
    requires
        p <= end <= data@.len(),
    ensures
        r == spec_chunk_size(data@, p, end),
        chunk_in_bounds(r, p, end),
{
    if end - p < 4 {
        return Err(WebpError::Truncated);
    }
    let len = read_le_u32(data, p);
    let avail = end - p - 4;
    let len_u = len as usize;
    if len_u > avail {
        return Err(WebpError::Truncated);
    }
    let pad: usize = if len % 2 == 1 {
        1
    } else {
        0
    };
    if pad > avail - len_u {
        return Err(WebpError::Truncated);
    }
    Ok((Span { start: p + 4, end: p + 4 + len_u }, p + 4 + len_u + pad))
}

/// Reads a chunk with the given tag at `p`. A wrong tag gives `TagMismatch`
/// and consumes nothing, so that the caller can try another tag at `p`.
pub fn tagged_chunk(data: &[u8], p: usize, end: usize, tag: u32) -> (r: Result<
    (Span, usize),
    WebpError,
>)
    requires
        p <= end <= data@.len(),
    ensures
        r == spec_tagged_chunk(data@, p, end, tag),
        chunk_in_bounds(r, p, end),
{
    if end - p < 4 {
        return Err(WebpError::Truncated);
    }
    if read_le_u32(data, p) != tag {
        return Err(WebpError::TagMismatch);
    }
    chunk_size(data, p + 4, end)
}

/// A bare `VP8 ` chunk, else a bare `VP8L` chunk.
fn simple(data: &[u8], p: usize, end: usize) -> (r: Result<(ImageData, usize), WebpError>)
    requires
        p <= end <= data@.len(),
    ensures
        r == spec_simple(data@, p, end),
        r matches Ok((_, q)) ==> p <= q <= end,
{
    match tagged_chunk(data, p, end, TAG_VP8) {
        Ok((c, q)) => Ok((ImageData::Lossy(c), q)),
        Err(WebpError::TagMismatch) => match tagged_chunk(data, p, end, TAG_VP8L) {
            Ok((c, q)) => Ok((ImageData::Lossless(c), q)),
            Err(e) => Err(e),
        },
        Err(e) => Err(e),
    }
}

/// A bare `VP8 ` or `VP8L` chunk inside the extended form.
fn bare_payload(data: &[u8], p: usize, end: usize) -> (r: Result<(ImageData, usize), WebpError>)
    requires
        p <= end <= data@.len(),
    ensures
        r == spec_bare_payload(data@, p, end),
        r matches Ok((_, q)) ==> p <= q <= end,
{
    match simple(data, p, end) {
        Err(WebpError::TagMismatch) => Err(WebpError::MissingPayload),
        r => r,
    }
}

/// The payload of the extended form.
fn payload(data: &[u8], p: usize, end: usize) -> (r: Result<(ImageData, usize), WebpError>)
    requires
        p <= end <= data@.len(),
    ensures
        r == spec_payload(data@, p, end),
        r matches Ok((_, q)) ==> p <= q <= end,
{
    match tagged_chunk(data, p, end, TAG_ALPH) {
        Ok((a, q)) => match tagged_chunk(data, q, end, TAG_VP8) {
            Ok((c, r)) => Ok((ImageData::LossyWithAlpha(c, a), r)),
            Err(WebpError::TagMismatch) => bare_payload(data, p, end),
            Err(e) => Err(e),
        },
        Err(WebpError::TagMismatch) => bare_payload(data, p, end),
        Err(e) => Err(e),
    }
}

/// Skips an optional chunk: where it is absent or incomplete, nothing is
/// consumed.
fn optional_chunk(data: &[u8], p: usize, end: usize, tag: u32) -> (q: usize)
    requires
        p <= end <= data@.len(),
    ensures
        q == spec_optional(data@, p, end, tag),
        p <= q <= end,
{
    match tagged_chunk(data, p, end, tag) {
        Ok((_, q)) => q,
        Err(_) => p,
    }
}

/// The extended form, from its `VP8X` chunk to the end of the form.
fn extended(data: &[u8], p: usize, end: usize) -> (r: Result<ImageData, WebpError>)
    requires
        p <= end <= data@.len(),
    ensures
        r == spec_extended(data@, p, end),
{
    let q = match tagged_chunk(data, p, end, TAG_VP8X) {
        Err(e) => return Err(e),
        Ok((_, q)) => q,
    };
    let q2 = match tagged_chunk(data, q, end, TAG_ICCP) {
        Ok((_, q2)) => q2,
        Err(WebpError::TagMismatch) => q,
        Err(e) => return Err(e),
    };
    let (img, q3) = match payload(data, q2, end) {
        Err(e) => return Err(e),
        Ok(x) => x,
    };
    let q4 = optional_chunk(data, q3, end, TAG_EXIF);
    let q5 = optional_chunk(data, q4, end, TAG_XMP);
    if q5 == end {
        Ok(img)
    } else {
        Err(WebpError::UnrecognizedContainer)
    }
}

/// The body of the `WEBP` form: the simple layout, else the extended one.
pub fn webp_body(data: &[u8], p: usize, end: usize) -> (r: Result<ImageData, WebpError>)
    requires
        p <= end <= data@.len(),
    ensures
        r == spec_webp_body(data@, p, end),
{
    reveal(spec_webp_body);
    match simple(data, p, end) {
        Ok((img, _)) => Ok(img),
        Err(WebpError::TagMismatch) => match extended(data, p, end) {
            Err(WebpError::TagMismatch) => Err(WebpError::UnrecognizedContainer),
            r => r,
        },
        Err(e) => Err(e),
    }
}


/// Every range of a payload lies in order within `[0, n]`.
pub open spec fn image_data_in_bounds(img: ImageData, n: int) -> bool {
    match img {
        ImageData::Lossy(c) => c.start <= c.end <= n,
        ImageData::Lossless(c) => c.start <= c.end <= n,
        ImageData::LossyWithAlpha(c, a) => c.start <= c.end <= n && a.start <= a.end <= n,
    }
}

proof fn lemma_tagged_bounds(s: Seq<u8>, end: usize)
    ensures
        forall|p: usize, tag: u32|
            p <= end ==> chunk_in_bounds(#[trigger] spec_tagged_chunk(s, p, end, tag), p, end),
        forall|p: usize, tag: u32|
            #[trigger] spec_tagged_chunk(s, p, end, tag) matches Err(e) ==> (e
                == WebpError::Truncated || e == WebpError::TagMismatch),
{
}

proof fn lemma_webp_body_in_bounds(s: Seq<u8>, p: usize, end: usize)
    requires
        p <= end,
    ensures
        spec_webp_body(s, p, end) matches Ok(img) ==> image_data_in_bounds(img, end as int),
        !(spec_webp_body(s, p, end) matches Err(WebpError::TagMismatch)),
{
    reveal(spec_webp_body);
    lemma_tagged_bounds(s, end);
}

/// Parses a whole container. Bytes after the declared form length are
/// ignored. The payload comes back as ranges of `data`.
pub fn webp_file(data: &[u8]) -> (r: Result<ImageData, WebpError>)
    ensures
        r == spec_webp_file(data@),
        r matches Ok(img) ==> image_data_in_bounds(img, data@.len() as int),
        !(r matches Err(WebpError::TagMismatch)),
{
    if data.len() < 4 {
        return Err(WebpError::Truncated);
    }
    if read_le_u32(data, 0) != TAG_RIFF {
        return Err(WebpError::FormatError);
    }
    if data.len() < 8 {
        return Err(WebpError::Truncated);
    }
    let form = read_le_u32(data, 4) as usize;
    if form > data.len() - 8 || form < 4 {
        return Err(WebpError::Truncated);
    }
    if read_le_u32(data, 8) != TAG_WEBP {
        return Err(WebpError::FormatError);
    }
    proof {
        lemma_webp_body_in_bounds(data@, 12, (8 + form) as usize);
    }
    webp_body(data, 12, 8 + form)
}

} // verus!
