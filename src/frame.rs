use vstd::prelude::*;

verus! {

/// The per-channel average colour of a region in one frame.
#[derive(Clone, Copy, Debug, PartialEq, Eq, Structural)]
pub struct ColorSample {
    pub r: u8,
    pub g: u8,
    pub b: u8,
}

/// Errors of the decoding pipeline.
#[derive(Clone, Copy, Debug, PartialEq, Eq, Structural)]
pub enum DecodeError {
    /// The frame source could not be opened or started.
    SourceUnavailable,
    /// A region falls outside the frame or has no extent.
    InvalidRegion,
}

/// An immutable grid of colour samples, stored row by row:
/// the pixel at column `x` and row `y` is `pixels[y * width + x]`.
pub struct Frame {
    width: usize,
    height: usize,
    pixels: Vec<ColorSample>,
}

/// A half-open rectangle `[x_min, x_max) x [y_min, y_max)` of frame coordinates.
#[derive(Clone, Copy, Debug, PartialEq, Eq, Structural)]
pub struct Region {
    pub x_min: usize,
    pub x_max: usize,
    pub y_min: usize,
    pub y_max: usize,
}

impl Frame {
    pub closed spec fn spec_width(&self) -> nat {
        self.width as nat
    }

    pub closed spec fn spec_height(&self) -> nat {
        self.height as nat
    }

    pub closed spec fn wf(&self) -> bool {
        self.pixels@.len() == self.width * self.height
    }

    /// The colour at column `x`, row `y`.
    pub closed spec fn pixel_spec(&self, x: int, y: int) -> ColorSample {
        self.pixels@[y * self.width + x]
    }

    /// Builds a frame of `width * height` pixels given row by row; `None`
    /// when the number of pixels does not match the dimensions.
    pub fn new(width: usize, height: usize, pixels: Vec<ColorSample>) -> (r: Option<Frame>)
        ensures
            r is Some <==> pixels@.len() == width * height,
            r matches Some(f) ==> {
                &&& f.wf()
                &&& f.spec_width() == width
                &&& f.spec_height() == height
                &&& forall|x: int, y: int|
                    0 <= x < width && 0 <= y < height ==> #[trigger] f.pixel_spec(x, y)
                        == pixels@[y * width + x]
            },
    {
        let len = pixels.len();
        match width.checked_mul(height) {
            Some(n) => {
                if len == n {
                    Some(Frame { width, height, pixels })
                } else {
                    None
                }
            },
            None => None,
        }
    }

    pub fn width(&self) -> (r: usize)
        ensures
            r == self.spec_width(),
    {
        self.width
    }

    pub fn height(&self) -> (r: usize)
        ensures
            r == self.spec_height(),
    {
        self.height
    }

    /// The colour at column `x`, row `y`.
    pub fn pixel(&self, x: usize, y: usize) -> (r: ColorSample)
        requires
            self.wf(),
            x < self.spec_width(),
            y < self.spec_height(),
        ensures
            r == self.pixel_spec(x as int, y as int),
    {
        let len = self.pixels.len();
        proof {
            lemma_index_in_grid(x as int, y as int, self.width as int, self.height as int);
        }
        self.pixels[y * self.width + x]
    }
}

proof fn lemma_index_in_grid(x: int, y: int, w: int, h: int)
    requires
        0 <= x < w,
        0 <= y < h,
    ensures
        0 <= y * w + x < w * h,
{
    assert(y * w <= (h - 1) * w) by (nonlinear_arith)
        requires
            0 <= y <= h - 1,
            0 <= w,
    ;
    assert((h - 1) * w + w == w * h) by (nonlinear_arith);
    assert(0 <= y * w) by (nonlinear_arith)
        requires
            0 <= y,
            0 <= w,
    ;
}

impl Region {
    /// The region lies inside a `width` x `height` frame and is non-empty in both axes.
    pub open spec fn fits(&self, width: nat, height: nat) -> bool {
        &&& self.x_min < self.x_max
        &&& self.x_max <= width
        &&& self.y_min < self.y_max
        &&& self.y_max <= height
    }

    pub open spec fn contains(&self, x: int, y: int) -> bool {
        self.x_min <= x < self.x_max && self.y_min <= y < self.y_max
    }

    pub fn fits_in(&self, frame: &Frame) -> (r: bool)
        ensures
            r == self.fits(frame.spec_width(), frame.spec_height()),
    {
        self.x_min < self.x_max && self.x_max <= frame.width && self.y_min < self.y_max
            && self.y_max <= frame.height
    }
}

} // verus!
