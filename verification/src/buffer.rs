//! Pixel buffers and their mathematical models.
//!
//! A buffer stores its samples row by row in one vector. Its view is a plane:
//! the two dimensions and the sequence of samples.

use vstd::prelude::*;

verus! {

/// Whether a `width` by `height` image with `bytes` bytes for each point stays
/// within the largest allocation that the machine allows.
pub open spec fn fits(width: int, height: int, bytes: int) -> bool {
    bytes * (width * height) <= isize::MAX
}

/// Whether a `width` by `height` image with `bytes` bytes for each point stays
/// within the largest allocation that the machine allows.
pub fn fits_memory(width: u32, height: u32, bytes: u8) -> (ok: bool)
    ensures
        ok == fits(width as int, height as int, bytes as int),
{
    assert(width * height <= u64::MAX) by (nonlinear_arith)
        requires
            width <= u32::MAX,
            height <= u32::MAX,
    ;
    let points: u128 = ((width as u64) * (height as u64)) as u128;
    assert(bytes * points <= u128::MAX) by (nonlinear_arith)
        requires
            bytes <= 255,
            points <= u64::MAX,
    ;
    (bytes as u128) * points <= isize::MAX as u128
}

/// The position of sample `(x, y)` in a row-major plane of the given width.
pub open spec fn flat_index(width: int, x: int, y: int) -> int {
    y * width + x
}

/// A sample inside a `width` by `height` plane has a position inside the
/// plane's sequence.
pub proof fn lemma_flat_index_bounds(width: int, height: int, x: int, y: int)
    requires
        0 <= x < width,
        0 <= y < height,
    ensures
        0 <= flat_index(width, x, y) < width * height,
        flat_index(width, x, y) % width == x,
        flat_index(width, x, y) / width == y,
{
    assert(0 <= y * width && y * width + width <= width * height) by (nonlinear_arith)
        requires
            0 <= y < height,
            0 < width,
    ;
    vstd::arithmetic::div_mod::lemma_fundamental_div_mod_converse(y * width + x, width, y, x);
}

/// A position inside the sequence of a `width` by `height` plane belongs to
/// exactly one sample `(i % width, i / width)` inside the plane.
pub proof fn lemma_flat_index_split(width: int, height: int, i: int)
    requires
        0 < width,
        0 <= i < width * height,
    ensures
        0 <= i % width < width,
        0 <= i / width < height,
        flat_index(width, i % width, i / width) == i,
{
    vstd::arithmetic::div_mod::lemma_fundamental_div_mod(i, width);
    let q = i / width;
    let r = i % width;
    assert(q < height) by (nonlinear_arith)
        requires
            q * width + r == i,
            0 <= r,
            i < width * height,
            0 < width,
    ;
}

/// The model of a grayscale image.
pub struct GrayPlane {
    pub width: nat,
    pub height: nat,
    pub samples: Seq<u8>,
}

impl GrayPlane {
    /// There is one sample for each point of the plane.
    pub open spec fn wf(self) -> bool {
        self.samples.len() == self.width * self.height
    }

    /// The luminance at column `x` of row `y`.
    pub open spec fn at(self, x: int, y: int) -> u8 {
        self.samples[flat_index(self.width as int, x, y)]
    }

    /// The plane whose sample at `(x, y)` is `f(x, y)`.
    pub open spec fn from_fn(width: nat, height: nat, f: spec_fn(int, int) -> u8) -> GrayPlane {
        GrayPlane {
            width,
            height,
            samples: Seq::new(width * height, |i: int| f(i % (width as int), i / (width as int))),
        }
    }

    /// `from_fn` yields a well-formed plane that holds `f(x, y)` at `(x, y)`.
    pub proof fn lemma_from_fn(width: nat, height: nat, f: spec_fn(int, int) -> u8)
        ensures
            Self::from_fn(width, height, f).wf(),
            Self::from_fn(width, height, f).width == width,
            Self::from_fn(width, height, f).height == height,
            forall|x: int, y: int|
                0 <= x < width && 0 <= y < height ==> #[trigger] Self::from_fn(width, height, f).at(
                    x,
                    y,
                ) == f(x, y),
    {
        let p = Self::from_fn(width, height, f);
        assert forall|x: int, y: int| 0 <= x < width && 0 <= y < height implies #[trigger] p.at(
            x,
            y,
        ) == f(x, y) by {
            lemma_flat_index_bounds(width as int, height as int, x, y);
        }
    }
}

/// A grayscale image: one byte of luminance for each point, row by row.
#[derive(Clone, Debug)]
pub struct GrayBuffer {
    pub width: u32,
    pub height: u32,
    pub data: Vec<u8>,
}

impl View for GrayBuffer {
    type V = GrayPlane;

    open spec fn view(&self) -> GrayPlane {
        GrayPlane { width: self.width as nat, height: self.height as nat, samples: self.data@ }
    }
}

impl GrayBuffer {
    /// The vector holds exactly one sample for each point.
    pub open spec fn wf(&self) -> bool {
        self@.wf()
    }

    /// Wraps `data` as an image of the given size, if it holds exactly one
    /// sample for each point.
    pub fn from_raw(width: u32, height: u32, data: Vec<u8>) -> (buffer: Option<GrayBuffer>)
        ensures
            buffer is Some <==> data@.len() == width * height,
            buffer matches Some(b) ==> b.wf() && b.width == width && b.height == height && b.data@
                == data@,
    {
        assert(width * height <= u64::MAX) by (nonlinear_arith)
            requires
                width <= u32::MAX,
                height <= u32::MAX,
        ;
        let expected: u64 = (width as u64) * (height as u64);
        if data.len() as u64 == expected {
            Some(GrayBuffer { width, height, data })
        } else {
            None
        }
    }

    /// Whether the vector holds exactly one sample for each point.
    pub fn is_well_formed(&self) -> (ok: bool)
        ensures
            ok == self.wf(),
    {
        assert(self.width * self.height <= u64::MAX) by (nonlinear_arith)
            requires
                self.width <= u32::MAX,
                self.height <= u32::MAX,
        ;
        self.data.len() as u64 == (self.width as u64) * (self.height as u64)
    }

    /// The position of sample `(x, y)` in the vector.
    pub fn offset(&self, x: u32, y: u32) -> (i: usize)
        requires
            self.wf(),
            x < self.width,
            y < self.height,
        ensures
            i == flat_index(self.width as int, x as int, y as int),
            i < self.data@.len(),
    {
        let len = self.data.len();
        proof {
            lemma_flat_index_bounds(self.width as int, self.height as int, x as int, y as int);
            assert(y * self.width + x < len);
        }
        (y as usize) * (self.width as usize) + (x as usize)
    }

    /// The luminance at column `x` of row `y`.
    pub fn get(&self, x: u32, y: u32) -> (v: u8)
        requires
            self.wf(),
            x < self.width,
            y < self.height,
        ensures
            v == self@.at(x as int, y as int),
    {
        let i = self.offset(x, y);
        self.data[i]
    }
}

/// The model of a colour image with transparency: four samples for each
/// point, in the order red, green, blue, alpha.
pub struct RgbaPlane {
    pub width: nat,
    pub height: nat,
    pub samples: Seq<u8>,
}

impl RgbaPlane {
    /// There are four samples for each point of the plane.
    pub open spec fn wf(self) -> bool {
        self.samples.len() == 4 * (self.width * self.height)
    }

    /// The four samples of the pixel at column `x` of row `y`.
    pub open spec fn pixel(self, x: int, y: int) -> Seq<u8> {
        self.samples.subrange(
            4 * flat_index(self.width as int, x, y),
            4 * flat_index(self.width as int, x, y) + 4,
        )
    }

    /// Two well-formed planes of one size that agree at every pixel are equal.
    pub proof fn lemma_ext(self, other: RgbaPlane)
        requires
            self.wf(),
            other.wf(),
            self.width == other.width,
            self.height == other.height,
            forall|x: int, y: int|
                0 <= x < self.width && 0 <= y < self.height ==> self.pixel(x, y) == other.pixel(
                    x,
                    y,
                ),
        ensures
            self == other,
    {
        assert forall|i: int| 0 <= i < self.samples.len() implies self.samples[i]
            == other.samples[i] by {
            let k = i / 4;
            let c = i % 4;
            assert(self.width > 0) by (nonlinear_arith)
                requires
                    0 <= i < 4 * (self.width * self.height),
            ;
            lemma_flat_index_split(self.width as int, self.height as int, k);
            let x = k % (self.width as int);
            let y = k / (self.width as int);
            lemma_flat_index_bounds(self.width as int, self.height as int, x, y);
            assert(self.pixel(x, y) == other.pixel(x, y));
            assert(self.pixel(x, y)[c] == self.samples[i]);
            assert(other.pixel(x, y)[c] == other.samples[i]);
        }
        assert(self.samples =~= other.samples);
    }
}

/// A colour image with transparency: four bytes for each point, row by row,
/// in the order red, green, blue, alpha.
#[derive(Clone, Debug)]
pub struct RgbaBuffer {
    pub width: u32,
    pub height: u32,
    pub data: Vec<u8>,
}

impl View for RgbaBuffer {
    type V = RgbaPlane;

    open spec fn view(&self) -> RgbaPlane {
        RgbaPlane { width: self.width as nat, height: self.height as nat, samples: self.data@ }
    }
}

impl RgbaBuffer {
    /// The vector holds exactly four samples for each point.
    pub open spec fn wf(&self) -> bool {
        self@.wf()
    }

    /// Wraps `data` as an image of the given size, if it holds exactly four
    /// samples for each point.
    pub fn from_raw(width: u32, height: u32, data: Vec<u8>) -> (buffer: Option<RgbaBuffer>)
        ensures
            buffer is Some <==> data@.len() == 4 * (width * height),
            buffer matches Some(b) ==> b.wf() && b.width == width && b.height == height && b.data@
                == data@,
    {
        assert(width * height <= u64::MAX) by (nonlinear_arith)
            requires
                width <= u32::MAX,
                height <= u32::MAX,
        ;
        let expected: u128 = 4 * ((width as u64) * (height as u64)) as u128;
        if data.len() as u128 == expected {
            Some(RgbaBuffer { width, height, data })
        } else {
            None
        }
    }

    /// Whether the vector holds exactly four samples for each point.
    pub fn is_well_formed(&self) -> (ok: bool)
        ensures
            ok == self.wf(),
    {
        assert(self.width * self.height <= u64::MAX) by (nonlinear_arith)
            requires
                self.width <= u32::MAX,
                self.height <= u32::MAX,
        ;
        self.data.len() as u128 == 4 * ((self.width as u64) * (self.height as u64)) as u128
    }

    /// A fully transparent image of the given size: every sample is zero.
    pub fn blank(width: u32, height: u32) -> (buffer: RgbaBuffer)
        requires
            fits(width as int, height as int, 4),
        ensures
            buffer.wf(),
            buffer.width == width,
            buffer.height == height,
            forall|i: int| 0 <= i < buffer.data@.len() ==> buffer.data@[i] == 0,
    {
        let n: usize = 4 * ((width as usize) * (height as usize));
        RgbaBuffer { width, height, data: vec![0u8; n] }
    }
}

} // verus!
