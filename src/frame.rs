//! A decoded image: its dimensions and its row-major single-channel pixels.
use vstd::prelude::*;

verus! {

/// A decoded frame. Its buffer always holds exactly `width * height` bytes.
#[derive(Debug)]
pub struct Frame {
    width: u32,
    height: u32,
    ybuf: Vec<u8>,
}

impl View for Frame {
    /// Width, height and pixels.
    type V = (u32, u32, Seq<u8>);

    closed spec fn view(&self) -> (u32, u32, Seq<u8>) {
        (self.width, self.height, self.ybuf@)
    }
}

/// Row `k` of a `width`-wide row-major buffer.
pub open spec fn spec_row(pixels: Seq<u8>, width: u32, k: int) -> Seq<u8> {
    pixels.subrange(k * width, k * width + width)
}

impl Frame {
    #[verifier::type_invariant]
    spec fn well_formed(self) -> bool {
        self.ybuf@.len() == self.width as int * self.height as int
    }

    /// A frame of the given size over `ybuf`, or `None` where the buffer
    /// does not hold exactly `width * height` bytes.
    pub fn new(width: u32, height: u32, ybuf: Vec<u8>) -> (r: Option<Frame>)
        ensures
            (ybuf@.len() == width as int * height as int) <==> r is Some,
            r matches Some(f) ==> f@ == (width, height, ybuf@),
    {
        proof {
            assert(width as int * height as int <= 0xffff_ffff * 0xffff_ffff) by (nonlinear_arith);
        }
        let size = width as u64 * height as u64;
        if ybuf.len() as u64 != size {
            return None;
        }
        Some(Frame { width, height, ybuf })
    }

    /// The empty frame, which a decoder holds before anything is decoded.
    pub fn empty() -> (r: Frame)
        ensures
            r@ == (0u32, 0u32, Seq::<u8>::empty()),
    {
        Frame { width: 0, height: 0, ybuf: Vec::new() }
    }

    pub fn width(&self) -> (r: u32)
        ensures
            r == self@.0,
    {
        self.width
    }

    pub fn height(&self) -> (r: u32)
        ensures
            r == self@.1,
    {
        self.height
    }

    /// A copy of row `k`.
    pub fn row(&self, k: u32) -> (r: Vec<u8>)
        requires
            k < self@.1,
        ensures
            r@ == spec_row(self@.2, self@.0, k as int),
    {
        proof {
            use_type_invariant(self);
            assert(k as int * self.width as int + self.width as int <= self.width as int
                * self.height as int) by (nonlinear_arith)
                requires
                    k < self.height,
            ;
        }
        let n = self.ybuf.len();
        let start = k as usize * self.width as usize;
        let mut r: Vec<u8> = Vec::new();
        let mut i: usize = 0;
        while i < self.width as usize
            invariant
                i <= self.width,
                start == k as int * self.width as int,
                start + self.width <= n,
                n == self.ybuf@.len(),
                r@ == self.ybuf@.subrange(start as int, start + i),
            decreases self.width - i,
        {
            r.push(self.ybuf[start + i]);
            i = i + 1;
            proof {
                assert(r@ =~= self.ybuf@.subrange(start as int, start + i));
            }
        }
        proof {
            assert(r@ =~= spec_row(self@.2, self@.0, k as int));
        }
        r
    }

    /// The pixels, row after row.
    pub fn pixels(&self) -> (r: &Vec<u8>)
        ensures
            r@ == self@.2,
    {
        &self.ybuf
    }
}

} // verus!
