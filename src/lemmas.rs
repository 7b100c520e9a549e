//! Laws of the container grammar and of the decode adapter, stated over
//! containers built from their parts.
use vstd::prelude::*;
use crate::decoder::{WebpDecoder, spec_scanline};
use crate::frame::Frame;
use crate::container::{
    ImageData, Span, WebpError, le_u32_at, spec_chunk_size, spec_tagged_chunk, spec_webp_file,
    spec_webp_body, TAG_RIFF, TAG_WEBP, TAG_VP8, TAG_VP8L, TAG_VP8X, TAG_ALPH, TAG_EXIF, TAG_XMP,
    TAG_ICCP,
};

verus! {

/// The four little-endian bytes of `v`.
pub open spec fn le_bytes(v: u32) -> Seq<u8> {
    seq![(v % 256) as u8, ((v / 256) % 256) as u8, ((v / 65536) % 256) as u8, (v / 16777216) as u8]
}

/// A chunk: tag, length, body, and a zero padding byte when the length is odd.
pub open spec fn chunk_bytes(tag: u32, body: Seq<u8>) -> Seq<u8> {
    le_bytes(tag) + le_bytes(body.len() as u32) + body + if body.len() % 2 == 1 {
        seq![0u8]
    } else {
        Seq::<u8>::empty()
    }
}

/// A container whose `WEBP` form holds `body`.
pub open spec fn container_bytes(body: Seq<u8>) -> Seq<u8> {
    le_bytes(TAG_RIFF) + le_bytes((body.len() + 4) as u32) + le_bytes(TAG_WEBP) + body
}

proof fn lemma_le_bytes(v: u32, s: Seq<u8>, p: int)
    requires
        0 <= p,
        p + 4 <= s.len(),
        s.subrange(p, p + 4) == le_bytes(v),
    ensures
        le_u32_at(s, p) == v,
{
    assert(s[p] == le_bytes(v)[0]);
    assert(s[p + 1] == le_bytes(v)[1]);
    assert(s[p + 2] == le_bytes(v)[2]);
    assert(s[p + 3] == le_bytes(v)[3]);
    let a = v % 256;
    let b = (v / 256) % 256;
    let c = (v / 65536) % 256;
    let d = v / 16777216;
    assert(a + 256 * b + 65536 * c + 16777216 * d == v) by (nonlinear_arith)
        requires
            a == v % 256,
            b == (v / 256) % 256,
            c == (v / 65536) % 256,
            d == v / 16777216,
    ;
}


/// The bytes `[p, p + n)` of `s` are `t`.
pub open spec fn holds_at(s: Seq<u8>, p: int, t: Seq<u8>) -> bool {
    0 <= p && p + t.len() <= s.len() && s.subrange(p, p + t.len()) == t
}

proof fn lemma_holds_at_part(s: Seq<u8>, p: int, t: Seq<u8>, i: int, j: int)
    requires
        holds_at(s, p, t),
        0 <= i <= j <= t.len(),
    ensures
        holds_at(s, p + i, t.subrange(i, j)),
{
    assert(s.subrange(p + i, p + j) =~= t.subrange(i, j)) by {
        assert forall|k: int| 0 <= k < j - i implies s.subrange(p + i, p + j)[k] == t.subrange(
            i,
            j,
        )[k] by {
            assert(s.subrange(p, p + t.len())[i + k] == t[i + k]);
        }
    }
}

/// Reading a chunk with tag `tag` where the chunk `chunk_bytes(t, body)`
/// stands: its body and the position after it where the tags agree, else
/// a tag mismatch that consumes nothing.
pub proof fn lemma_chunk_at(s: Seq<u8>, p: usize, end: usize, tag: u32, t: u32, body: Seq<u8>)
    requires
        body.len() <= 0xffff_ffff,
        holds_at(s, p as int, chunk_bytes(t, body)),
        p + chunk_bytes(t, body).len() <= end,
    ensures
        chunk_bytes(t, body).len() == 8 + body.len() + body.len() % 2,
        spec_tagged_chunk(s, p, end, tag) == if t == tag {
            Ok::<(Span, usize), WebpError>(
                (
                    Span { start: (p + 8) as usize, end: (p + 8 + body.len()) as usize },
                    (p + chunk_bytes(t, body).len()) as usize,
                ),
            )
        } else {
            Err(WebpError::TagMismatch)
        },
        s.subrange(p + 8, p + 8 + body.len()) == body,
{
    let cb = chunk_bytes(t, body);
    let n = body.len() as int;
    assert(cb.subrange(0, 4) =~= le_bytes(t));
    assert(cb.subrange(4, 8) =~= le_bytes(n as u32));
    assert(cb.subrange(8, 8 + n) =~= body);
    lemma_holds_at_part(s, p as int, cb, 0, 4);
    lemma_holds_at_part(s, p as int, cb, 4, 8);
    lemma_holds_at_part(s, p as int, cb, 8, 8 + n);
    lemma_le_bytes(t, s, p as int);
    lemma_le_bytes(n as u32, s, p + 4);
}


/// The sizes for which a form holding `body` can be written: its length
/// field is a `u32`, and the whole container fits in memory.
pub open spec fn form_fits(body: Seq<u8>) -> bool {
    body.len() + 4 <= 0xffff_ffff && body.len() + 12 <= usize::MAX
}

/// A container's envelope hands exactly its form's body to the dispatcher.
pub proof fn lemma_envelope(body: Seq<u8>)
    requires
        form_fits(body),
    ensures
        spec_webp_file(container_bytes(body)) == spec_webp_body(
            container_bytes(body),
            12,
            (12 + body.len()) as usize,
        ),
        holds_at(container_bytes(body), 12, body),
        container_bytes(body).len() == 12 + body.len(),
{
    let s = container_bytes(body);
    let size = (body.len() + 4) as u32;
    assert(s.subrange(0, 4) =~= le_bytes(TAG_RIFF));
    assert(s.subrange(4, 8) =~= le_bytes(size));
    assert(s.subrange(8, 12) =~= le_bytes(TAG_WEBP));
    assert(s.subrange(12, 12 + body.len() as int) =~= body);
    lemma_le_bytes(TAG_RIFF, s, 0);
    lemma_le_bytes(size, s, 4);
    lemma_le_bytes(TAG_WEBP, s, 8);
}

/// Where `whole` stands at `p`, its part `[i, j)` stands at `p + i`.
proof fn lemma_part(s: Seq<u8>, p: int, whole: Seq<u8>, i: int, j: int, part: Seq<u8>)
    requires
        holds_at(s, p, whole),
        0 <= i <= j <= whole.len(),
        whole.subrange(i, j) == part,
    ensures
        holds_at(s, p + i, part),
{
    lemma_holds_at_part(s, p, whole, i, j);
}

/// A chunk whose length is even is followed directly by the next byte; one
/// whose length is odd is followed by one padding byte, which lies outside
/// its body.
pub proof fn lemma_chunk_padding(s: Seq<u8>, p: usize, end: usize)
    requires
        p <= end <= s.len(),
    ensures
        spec_chunk_size(s, p, end) matches Ok((c, q)) ==> {
            &&& c.start == p + 4
            &&& c.end == c.start + le_u32_at(s, p as int)
            &&& le_u32_at(s, p as int) % 2 == 0 ==> q == c.end
            &&& le_u32_at(s, p as int) % 2 == 1 ==> q == c.end + 1
        },
{
}

/// A chunk that declares more bytes than remain before `end` is truncated,
/// never read short.
pub proof fn lemma_chunk_truncated(s: Seq<u8>, p: usize, end: usize)
    requires
        p + 4 <= end <= s.len(),
        end < p + 4 + le_u32_at(s, p as int),
    ensures
        spec_chunk_size(s, p, end) == Err::<(Span, usize), WebpError>(WebpError::Truncated),
{
}

/// A simple container of one even-length `VP8 ` chunk gives back exactly the
/// bytes it was built from, as a lossy payload.
pub proof fn lemma_simple_lossy_round_trip(b: Seq<u8>)
    requires
        b.len() % 2 == 0,
        form_fits(chunk_bytes(TAG_VP8, b)),
    ensures
        spec_webp_file(container_bytes(chunk_bytes(TAG_VP8, b))) == Ok::<ImageData, WebpError>(
            ImageData::Lossy(Span { start: 20, end: (20 + b.len()) as usize }),
        ),
        container_bytes(chunk_bytes(TAG_VP8, b)).subrange(20, 20 + b.len() as int) == b,
{
    let body = chunk_bytes(TAG_VP8, b);
    let s = container_bytes(body);
    lemma_envelope(body);
    lemma_chunk_at(s, 12, (12 + body.len()) as usize, TAG_VP8, TAG_VP8, b);
    reveal(spec_webp_body);
}


/// Where `u + v` stands at `p`, `u` stands at `p` and `v` right after it.
proof fn lemma_split(s: Seq<u8>, p: int, u: Seq<u8>, v: Seq<u8>)
    requires
        holds_at(s, p, u + v),
    ensures
        holds_at(s, p, u),
        holds_at(s, p + u.len(), v),
{
    assert((u + v).subrange(0, u.len() as int) =~= u);
    assert((u + v).subrange(u.len() as int, (u + v).len() as int) =~= v);
    lemma_part(s, p, u + v, 0, u.len() as int, u);
    lemma_part(s, p, u + v, u.len() as int, (u + v).len() as int, v);
}

/// An extended container of `VP8X`, `ALPH` and `VP8 ` gives a lossy payload
/// with alpha: the color bytes, then the alpha bytes, each exactly the body
/// of its chunk.
#[verifier::rlimit(50)]
pub proof fn lemma_alpha_payload(x: Seq<u8>, a: Seq<u8>, c: Seq<u8>)
    requires
        form_fits(chunk_bytes(TAG_VP8X, x) + chunk_bytes(TAG_ALPH, a) + chunk_bytes(TAG_VP8, c)),
    ensures
        ({
            let s = container_bytes(
                chunk_bytes(TAG_VP8X, x) + chunk_bytes(TAG_ALPH, a) + chunk_bytes(TAG_VP8, c),
            );
            let pa = 12 + chunk_bytes(TAG_VP8X, x).len() as int + 8;
            let pc = pa + chunk_bytes(TAG_ALPH, a).len() as int;
            &&& spec_webp_file(s) == Ok::<ImageData, WebpError>(
                ImageData::LossyWithAlpha(
                    Span { start: pc as usize, end: (pc + c.len()) as usize },
                    Span { start: pa as usize, end: (pa + a.len()) as usize },
                ),
            )
            &&& s.subrange(pc, pc + c.len() as int) == c
            &&& s.subrange(pa, pa + a.len() as int) == a
        }),
{
    let cx = chunk_bytes(TAG_VP8X, x);
    let ca = chunk_bytes(TAG_ALPH, a);
    let cc = chunk_bytes(TAG_VP8, c);
    let body = cx + ca + cc;
    let s = container_bytes(body);
    let end = (12 + body.len()) as usize;
    lemma_envelope(body);
    lemma_split(s, 12, cx + ca, cc);
    lemma_split(s, 12, cx, ca);
    let q = (12 + cx.len()) as usize;
    let q2 = (q + ca.len()) as usize;
    lemma_chunk_at(s, 12, end, TAG_VP8, TAG_VP8X, x);
    lemma_chunk_at(s, 12, end, TAG_VP8L, TAG_VP8X, x);
    lemma_chunk_at(s, 12, end, TAG_VP8X, TAG_VP8X, x);
    lemma_chunk_at(s, q, end, TAG_ICCP, TAG_ALPH, a);
    lemma_chunk_at(s, q, end, TAG_ALPH, TAG_ALPH, a);
    lemma_chunk_at(s, q2, end, TAG_VP8, TAG_VP8, c);
    reveal(spec_webp_body);
}

/// An extended container of `VP8X` and then `VP8L` gives a lossless payload.
pub proof fn lemma_extended_lossless(x: Seq<u8>, l: Seq<u8>)
    requires
        form_fits(chunk_bytes(TAG_VP8X, x) + chunk_bytes(TAG_VP8L, l)),
    ensures
        ({
            let s = container_bytes(chunk_bytes(TAG_VP8X, x) + chunk_bytes(TAG_VP8L, l));
            let pl = 12 + chunk_bytes(TAG_VP8X, x).len() as int + 8;
            &&& spec_webp_file(s) == Ok::<ImageData, WebpError>(
                ImageData::Lossless(Span { start: pl as usize, end: (pl + l.len()) as usize }),
            )
            &&& s.subrange(pl, pl + l.len() as int) == l
        }),
{
    let cx = chunk_bytes(TAG_VP8X, x);
    let cl = chunk_bytes(TAG_VP8L, l);
    let body = cx + cl;
    let s = container_bytes(body);
    let end = (12 + body.len()) as usize;
    lemma_envelope(body);
    lemma_split(s, 12, cx, cl);
    let q = (12 + cx.len()) as usize;
    lemma_chunk_at(s, 12, end, TAG_VP8, TAG_VP8X, x);
    lemma_chunk_at(s, 12, end, TAG_VP8L, TAG_VP8X, x);
    lemma_chunk_at(s, 12, end, TAG_VP8X, TAG_VP8X, x);
    lemma_chunk_at(s, q, end, TAG_ICCP, TAG_VP8L, l);
    lemma_chunk_at(s, q, end, TAG_ALPH, TAG_VP8L, l);
    lemma_chunk_at(s, q, end, TAG_VP8, TAG_VP8L, l);
    lemma_chunk_at(s, q, end, TAG_VP8L, TAG_VP8L, l);
    reveal(spec_webp_body);
}

/// `XMP ` before `EXIF` after the payload of an extended container leaves
/// the `EXIF` chunk unread, and the container is not recognized.
#[verifier::rlimit(50)]
pub proof fn lemma_metadata_out_of_order(x: Seq<u8>, c: Seq<u8>, m: Seq<u8>, e: Seq<u8>)
    requires
        form_fits(
            chunk_bytes(TAG_VP8X, x) + chunk_bytes(TAG_VP8, c) + chunk_bytes(TAG_XMP, m)
                + chunk_bytes(TAG_EXIF, e),
        ),
    ensures
        spec_webp_file(
            container_bytes(
                chunk_bytes(TAG_VP8X, x) + chunk_bytes(TAG_VP8, c) + chunk_bytes(TAG_XMP, m)
                    + chunk_bytes(TAG_EXIF, e),
            ),
        ) == Err::<ImageData, WebpError>(WebpError::UnrecognizedContainer),
{
    let cx = chunk_bytes(TAG_VP8X, x);
    let cc = chunk_bytes(TAG_VP8, c);
    let cm = chunk_bytes(TAG_XMP, m);
    let ce = chunk_bytes(TAG_EXIF, e);
    let body = cx + cc + cm + ce;
    let s = container_bytes(body);
    let end = (12 + body.len()) as usize;
    lemma_envelope(body);
    lemma_split(s, 12, cx + cc + cm, ce);
    lemma_split(s, 12, cx + cc, cm);
    lemma_split(s, 12, cx, cc);
    let q = (12 + cx.len()) as usize;
    let q3 = (q + cc.len()) as usize;
    let q5 = (q3 + cm.len()) as usize;
    lemma_chunk_at(s, 12, end, TAG_VP8, TAG_VP8X, x);
    lemma_chunk_at(s, 12, end, TAG_VP8L, TAG_VP8X, x);
    lemma_chunk_at(s, 12, end, TAG_VP8X, TAG_VP8X, x);
    lemma_chunk_at(s, q, end, TAG_ICCP, TAG_VP8, c);
    lemma_chunk_at(s, q, end, TAG_ALPH, TAG_VP8, c);
    lemma_chunk_at(s, q, end, TAG_VP8, TAG_VP8, c);
    lemma_chunk_at(s, q3, end, TAG_EXIF, TAG_XMP, m);
    lemma_chunk_at(s, q3, end, TAG_XMP, TAG_XMP, m);
    lemma_chunk_at(s, q5, end, TAG_EXIF, TAG_EXIF, e);
    reveal(spec_webp_body);
}


/// A `VP8 ` chunk whose body is one byte shorter than its length field says
/// is truncated, never read short.
pub proof fn lemma_truncated_payload(b: Seq<u8>, n: u32)
    requires
        b.len() + 1 == n,
        form_fits(le_bytes(TAG_VP8) + le_bytes(n) + b),
    ensures
        spec_webp_file(container_bytes(le_bytes(TAG_VP8) + le_bytes(n) + b)) == Err::<
            ImageData,
            WebpError,
        >(WebpError::Truncated),
{
    let body = le_bytes(TAG_VP8) + le_bytes(n) + b;
    let s = container_bytes(body);
    lemma_envelope(body);
    lemma_split(s, 12, le_bytes(TAG_VP8) + le_bytes(n), b);
    lemma_split(s, 12, le_bytes(TAG_VP8), le_bytes(n));
    lemma_le_bytes(TAG_VP8, s, 12);
    lemma_le_bytes(n, s, 16);
    reveal(spec_webp_body);
}

/// Input whose first four bytes are not `RIFF` is refused with
/// `FormatError`; input too short to hold them is truncated.
pub proof fn lemma_missing_riff(s: Seq<u8>)
    ensures
        s.len() < 4 ==> spec_webp_file(s) == Err::<ImageData, WebpError>(WebpError::Truncated),
        s.len() >= 4 && le_u32_at(s, 0) != TAG_RIFF ==> spec_webp_file(s) == Err::<
            ImageData,
            WebpError,
        >(WebpError::FormatError),
{
}

/// A container whose form is tagged otherwise than `WEBP` is refused with
/// `FormatError`, whatever the form holds.
pub proof fn lemma_form_not_webp(t: u32, body: Seq<u8>)
    requires
        t != TAG_WEBP,
        form_fits(body),
    ensures
        spec_webp_file(le_bytes(TAG_RIFF) + le_bytes((body.len() + 4) as u32) + le_bytes(t) + body)
            == Err::<ImageData, WebpError>(WebpError::FormatError),
{
    let size = (body.len() + 4) as u32;
    let s = le_bytes(TAG_RIFF) + le_bytes(size) + le_bytes(t) + body;
    assert(s.subrange(0, 4) =~= le_bytes(TAG_RIFF));
    assert(s.subrange(4, 8) =~= le_bytes(size));
    assert(s.subrange(8, 12) =~= le_bytes(t));
    lemma_le_bytes(TAG_RIFF, s, 0);
    lemma_le_bytes(size, s, 4);
    lemma_le_bytes(t, s, 8);
}

/// A decoder over an extended lossless container fails its first request
/// with `UnsupportedFeature` and holds no frame afterwards.
pub proof fn lemma_lossless_unsupported<D: Fn(Vec<u8>) -> Result<Frame, WebpError>>(
    dec: WebpDecoder<D>,
    x: Seq<u8>,
    l: Seq<u8>,
    frame: Frame,
    have: bool,
    r: Result<(), WebpError>,
)
    requires
        form_fits(chunk_bytes(TAG_VP8X, x) + chunk_bytes(TAG_VP8L, l)),
        dec.data() == container_bytes(chunk_bytes(TAG_VP8X, x) + chunk_bytes(TAG_VP8L, l)),
        !dec.have_frame(),
        dec.metadata_step(frame, have, r),
    ensures
        r == Err::<(), WebpError>(WebpError::UnsupportedFeature),
        !have,
{
    lemma_extended_lossless(x, l);
}

/// With the cursor at row `k` of a frame of height `h`, a scanline request
/// delivers row `k` and moves the cursor to `k + 1` while `k < h`; at `h` it
/// gives `EndOfImage`.
pub proof fn lemma_scanline_order(f: Frame, k: u32)
    requires
        k <= f@.1,
    ensures
        k < f@.1 ==> spec_scanline(f, k) == Ok::<u32, WebpError>((k + 1) as u32),
        k == f@.1 ==> spec_scanline(f, k) == Err::<u32, WebpError>(WebpError::EndOfImage),
{
}

} // verus!
