//! The streaming decode adapter: parses the container once, on the first
//! request, hands the color payload to a bitstream decoder, and serves
//! dimensions, scanlines and the whole image from the decoded frame.
use vstd::prelude::*;
use crate::container::{ImageData, Span, WebpError, spec_webp_file, webp_file};
use crate::frame::{Frame, spec_row};

verus! {

/// Pixel formats that the decoder reports.
#[derive(Debug, Clone, Copy, PartialEq, Eq, Structural)]
pub enum ColorType {
    /// One channel of the given bit depth.
    Gray(u8),
}

/// The range of color bytes that a payload hands to the bitstream decoder;
/// `None` for a lossless payload, which is not decoded here.
pub open spec fn color_span(img: ImageData) -> Option<Span> {
    match img {
        ImageData::Lossy(c) => Some(c),
        ImageData::LossyWithAlpha(c, _) => Some(c),
        ImageData::Lossless(_) => None,
    }
}

/// Success or the error of a result, without its value.
pub open spec fn status<T>(r: Result<T, WebpError>) -> Result<(), WebpError> {
    match r {
        Ok(_) => Ok(()),
        Err(e) => Err(e),
    }
}

/// What one scanline request returns with the cursor at `rows`: the new
/// cursor, or `EndOfImage` once every row has been delivered.
pub open spec fn spec_scanline(f: Frame, rows: u32) -> Result<u32, WebpError> {
    if rows < f@.1 {
        Ok((rows + 1) as u32)
    } else {
        Err(WebpError::EndOfImage)
    }
}

/// A decoder over the bytes of one container. `D` is the bitstream decoder
/// that turns the color bytes of a lossy payload into a frame.
pub struct WebpDecoder<D> {
    data: Vec<u8>,
    decode: D,
    frame: Frame,
    have_frame: bool,
    decoded_rows: u32,
}

impl<D: Fn(Vec<u8>) -> Result<Frame, WebpError>> WebpDecoder<D> {
    /// The container's bytes.
    pub closed spec fn data(&self) -> Seq<u8> {
        self.data@
    }

    /// The bitstream decoder.
    pub closed spec fn decoder(&self) -> D {
        self.decode
    }

    /// The cached frame; the empty frame until one has been decoded.
    pub closed spec fn frame(&self) -> Frame {
        self.frame
    }

    /// Whether the container has been parsed and its frame decoded.
    pub closed spec fn have_frame(&self) -> bool {
        self.have_frame
    }

    /// How many scanlines have been delivered.
    pub closed spec fn decoded_rows(&self) -> u32 {
        self.decoded_rows
    }

    /// The bitstream decoder accepts every input.
    pub open spec fn decoder_total(&self) -> bool {
        forall|v: Vec<u8>| call_requires(self.decoder(), (v,))
    }

    /// Where the decoder returned `res`: the frame and flag afterwards, and
    /// the outcome of the request.
    pub open spec fn decode_outcome(
        self,
        res: Result<Frame, WebpError>,
        frame: Frame,
        have: bool,
        r: Result<(), WebpError>,
    ) -> bool {
        match res {
            Ok(f) => r is Ok && have && frame == f,
            Err(e) => r == Err::<(), WebpError>(e) && !have && frame == self.frame(),
        }
    }

    /// The one-time parse: from this state, `frame` and `have` are the frame
    /// and flag afterwards and `r` the outcome. Once a frame is held nothing
    /// happens. Otherwise a container error is returned as it is, a lossless
    /// payload gives `UnsupportedFeature`, and the color bytes of a lossy
    /// payload go to the decoder, whose frame is kept or whose error is
    /// returned.
    pub open spec fn metadata_step(self, frame: Frame, have: bool, r: Result<(), WebpError>) -> bool {
        if self.have_frame() {
            r is Ok && have && frame == self.frame()
        } else {
            match spec_webp_file(self.data()) {
                Err(e) => r == Err::<(), WebpError>(e) && !have && frame == self.frame(),
                Ok(img) => match color_span(img) {
                    None => r == Err::<(), WebpError>(WebpError::UnsupportedFeature) && !have
                        && frame == self.frame(),
                    Some(c) => exists|v: Vec<u8>, res: Result<Frame, WebpError>|
                        v@ == self.data().subrange(c.start as int, c.end as int)
                            && #[trigger] call_ensures(self.decoder(), (v,), res)
                            && self.decode_outcome(res, frame, have, r),
                },
            }
        }
    }

    /// The parts that no request changes.
    pub open spec fn same_source(self, other: Self) -> bool {
        self.data() == other.data() && self.decoder() == other.decoder()
    }

    /// A decoder over the container bytes `data`; nothing is parsed yet.
    pub fn new(data: Vec<u8>, decode: D) -> (r: WebpDecoder<D>)
        ensures
            r.data() == data@,
            r.decoder() == decode,
            !r.have_frame(),
            r.decoded_rows() == 0,
            r.frame()@ == (0u32, 0u32, Seq::<u8>::empty()),
    {
        WebpDecoder { data, decode, frame: Frame::empty(), have_frame: false, decoded_rows: 0 }
    }

    /// Copies the color bytes of `span` and hands them to the decoder.
    fn read_vp8_frame(&mut self, span: Span) -> (r: Result<(), WebpError>)
        requires
            old(self).decoder_total(),
            span.start <= span.end <= old(self).data().len(),
        ensures
            final(self).same_source(*old(self)),
            final(self).decoded_rows() == old(self).decoded_rows(),
            exists|v: Vec<u8>, res: Result<Frame, WebpError>|
                v@ == old(self).data().subrange(span.start as int, span.end as int)
                    && #[trigger] call_ensures(old(self).decoder(), (v,), res)
                    && old(self).decode_outcome(res, final(self).frame(), final(self).have_frame(), r),
    {
        let mut framedata: Vec<u8> = Vec::new();
        let mut i: usize = span.start;
        while i < span.end
            invariant
                span.start <= i <= span.end <= self.data@.len(),
                framedata@ == self.data@.subrange(span.start as int, i as int),
            decreases span.end - i,
        {
            framedata.push(self.data[i]);
            i = i + 1;
            proof {
                assert(framedata@ =~= self.data@.subrange(span.start as int, i as int));
            }
        }
        let ghost v = framedata;
        let ghost old_self = *self;
        proof {
            assert(call_requires(self.decoder(), (framedata,)));
        }
        let res = (self.decode)(framedata);
        proof {
            assert(call_ensures(old_self.decoder(), (v,), res));
        }
        match res {
            Ok(f) => {
                self.frame = f;
                self.have_frame = true;
                Ok(())
            },
            Err(e) => {
                self.have_frame = false;
                Err(e)
            },
        }
    }
    /// Parses the container and decodes its frame, the first time only.
    pub fn read_metadata(&mut self) -> (r: Result<(), WebpError>)
        requires
            old(self).decoder_total(),
        ensures
            final(self).same_source(*old(self)),
            final(self).decoded_rows() == old(self).decoded_rows(),
            old(self).metadata_step(final(self).frame(), final(self).have_frame(), r),
    {
        if self.have_frame {
            return Ok(());
        }
        let img = match webp_file(self.data.as_slice()) {
            Ok(img) => img,
            Err(e) => return Err(e),
        };
        match img {
            ImageData::Lossy(vp8) => self.read_vp8_frame(vp8),
            ImageData::LossyWithAlpha(vp8, _) => self.read_vp8_frame(vp8),
            ImageData::Lossless(_) => Err(WebpError::UnsupportedFeature),
        }
    }

    /// Width and height of the frame.
    pub fn dimensions(&mut self) -> (r: Result<(u32, u32), WebpError>)
        requires
            old(self).decoder_total(),
        ensures
            final(self).same_source(*old(self)),
            final(self).decoded_rows() == old(self).decoded_rows(),
            old(self).metadata_step(final(self).frame(), final(self).have_frame(), status(r)),
            r matches Ok(d) ==> d == (final(self).frame()@.0, final(self).frame()@.1),
    {
        self.read_metadata()?;
        Ok((self.frame.width(), self.frame.height()))
    }

    /// The pixel format: one 8-bit channel.
    pub fn colortype(&mut self) -> (r: Result<ColorType, WebpError>)
        requires
            old(self).decoder_total(),
        ensures
            final(self).same_source(*old(self)),
            final(self).decoded_rows() == old(self).decoded_rows(),
            old(self).metadata_step(final(self).frame(), final(self).have_frame(), status(r)),
            r matches Ok(t) ==> t == ColorType::Gray(8),
    {
        self.read_metadata()?;
        Ok(ColorType::Gray(8))
    }

    /// The number of bytes in one row: the frame's width.
    pub fn row_len(&mut self) -> (r: Result<usize, WebpError>)
        requires
            old(self).decoder_total(),
        ensures
            final(self).same_source(*old(self)),
            final(self).decoded_rows() == old(self).decoded_rows(),
            old(self).metadata_step(final(self).frame(), final(self).have_frame(), status(r)),
            r matches Ok(n) ==> n == final(self).frame()@.0,
    {
        self.read_metadata()?;
        Ok(self.frame.width() as usize)
    }

    /// Puts the next row into `buf` and returns how many rows have been
    /// delivered; `EndOfImage` once all have been.
    pub fn read_scanline(&mut self, buf: &mut Vec<u8>) -> (r: Result<u32, WebpError>)
        requires
            old(self).decoder_total(),
        ensures
            final(self).same_source(*old(self)),
            old(self).metadata_step(
                final(self).frame(),
                final(self).have_frame(),
                if final(self).have_frame() {
                    Ok(())
                } else {
                    status(r)
                },
            ),
            !final(self).have_frame() ==> final(self).decoded_rows() == old(self).decoded_rows()
                && final(buf)@ == old(buf)@,
            final(self).have_frame() ==> r == spec_scanline(
                final(self).frame(),
                old(self).decoded_rows(),
            ),
            final(self).have_frame() && r is Ok ==> final(self).decoded_rows()
                == old(self).decoded_rows() + 1 && final(buf)@ == spec_row(
                final(self).frame()@.2,
                final(self).frame()@.0,
                old(self).decoded_rows() as int,
            ),
            final(self).have_frame() && r is Err ==> final(self).decoded_rows()
                == old(self).decoded_rows() && final(buf)@ == old(buf)@,
    {
        match self.read_metadata() {
            Ok(()) => {},
            Err(e) => return Err(e),
        }
        if self.decoded_rows >= self.frame.height() {
            return Err(WebpError::EndOfImage);
        }
        *buf = self.frame.row(self.decoded_rows);
        self.decoded_rows = self.decoded_rows + 1;
        Ok(self.decoded_rows)
    }

    /// All pixels of the frame, row after row, whatever the scanline cursor.
    pub fn read_image(&mut self) -> (r: Result<Vec<u8>, WebpError>)
        requires
            old(self).decoder_total(),
        ensures
            final(self).same_source(*old(self)),
            final(self).decoded_rows() == old(self).decoded_rows(),
            old(self).metadata_step(final(self).frame(), final(self).have_frame(), status(r)),
            r matches Ok(p) ==> p@ == final(self).frame()@.2,
    {
        self.read_metadata()?;
        Ok(self.frame.pixels().clone())
    }
}

} // verus!
