//! Wrappers around RGB-like pixel buffers.

use super::arch::Rgb8SourceLayout;
use vstd::prelude::*;

verus! {

/// Source of RGB8 data for fast pixel access.
///
/// A type that exposes contiguous rows of pixels, each pixel holding one byte for
/// red, green and blue at fixed offsets, can be converted with the fast integer path.
pub trait RGB8Source {
    /// The size `(w, h)` that [`Self::dimensions`] returns.
    open spec fn spec_dimensions(&self) -> (usize, usize) {
        arbitrary()
    }

    /// The padded size that [`Self::dimensions_padded`] returns.
    open spec fn spec_dimensions_padded(&self) -> (usize, usize) {
        arbitrary()
    }

    /// The bytes that [`Self::rgb8_data`] returns.
    open spec fn spec_rgb8_data(&self) -> Seq<u8> {
        arbitrary()
    }

    /// The pixel stride that [`Self::pixel_stride`] returns.
    open spec fn spec_pixel_stride(&self) -> usize {
        arbitrary()
    }

    /// The channel offsets that [`Self::rgb_channel_offsets`] returns.
    open spec fn spec_rgb_channel_offsets(&self) -> (usize, usize, usize) {
        arbitrary()
    }

    /// Returns the visible image size as `(w, h)`.
    fn dimensions(&self) -> (d: (usize, usize))
        ensures
            d == self.spec_dimensions(),
    ;

    /// Returns padded dimensions of the underlying slice.
    ///
    /// For example, the data might have a display format of 100x100, but the
    /// underlying RGB8 array is of size 128x100.
    fn dimensions_padded(&self) -> (d: (usize, usize))
        ensures
            d == self.spec_dimensions_padded(),
    ;

    /// Slice of RGB8 data, with given padding.
    fn rgb8_data(&self) -> (data: &[u8])
        ensures
            data@ == self.spec_rgb8_data(),
    ;

    /// Number of bytes per pixel.
    fn pixel_stride(&self) -> (s: usize)
        ensures
            s == self.spec_pixel_stride(),
    ;

    /// Offsets of the red, green and blue bytes within a pixel.
    fn rgb_channel_offsets(&self) -> (o: (usize, usize, usize))
        ensures
            o == self.spec_rgb_channel_offsets(),
    ;
}

/// An [`RGB8Source`] whose pixels are `[R G B A]`.
pub trait RGBA8Source: RGB8Source {}

/// An [`RGB8Source`] whose pixels are `[B G R A]`.
pub trait BGRA8Source: RGB8Source {}

/// The layout that an [`RGB8Source`] describes.
pub open spec fn source_layout<R: RGB8Source>(rgb: &R) -> Rgb8SourceLayout {
    Rgb8SourceLayout {
        dimensions: rgb.spec_dimensions(),
        dimensions_padded: rgb.spec_dimensions_padded(),
        pixel_stride: rgb.spec_pixel_stride(),
        rgb_offsets: rgb.spec_rgb_channel_offsets(),
    }
}

/// Container for a slice of contiguous `[R G B R G B ...]` data.<sup>⭐</sup>
///
/// This is the preferred format for reading data, for use with `_rgb8` methods.
#[derive(Copy, Clone, Debug)]
pub struct RgbSliceU8<'a> {
    data: &'a [u8],
    dimensions: (usize, usize),
}

impl<'a> RgbSliceU8<'a> {
    /// The bytes of the image.
    pub closed spec fn bytes(self) -> Seq<u8> {
        self.data@
    }

    /// The image size `(w, h)`.
    pub closed spec fn size(self) -> (usize, usize) {
        self.dimensions
    }

    /// Creates a new instance given the byte slice and dimensions.
    ///
    /// Both dimensions must be even, and the slice must hold exactly `w * h * 3` bytes.
    pub fn new(data: &'a [u8], dimensions: (usize, usize)) -> (s: Self)
        requires
            data@.len() == dimensions.0 * dimensions.1 * 3,
            dimensions.0 % 2 == 0,
            dimensions.1 % 2 == 0,
        ensures
            s.bytes() == data@,
            s.size() == dimensions,
    {
        Self { data, dimensions }
    }

    /// Returns the image size as `(w, h)`.
    pub fn dimensions(&self) -> (d: (usize, usize))
        ensures
            d == self.size(),
    {
        self.dimensions
    }

    /// The red, green and blue bytes of pixel `(x, y)`.
    pub fn pixel_u8(&self, x: usize, y: usize) -> (p: (u8, u8, u8))
        requires
            (x + y * self.size().0) * 3 + 2 < self.bytes().len(),
        ensures
            p.0 == self.bytes()[(x + y * self.size().0) * 3 + 0],
            p.1 == self.bytes()[(x + y * self.size().0) * 3 + 1],
            p.2 == self.bytes()[(x + y * self.size().0) * 3 + 2],
    {
        let len = self.data.len();
        proof {
            assert(0 <= y * self.size().0) by (nonlinear_arith);
            assert(len == self.bytes().len());
        }
        let base_pos = (x + y * self.dimensions.0) * 3;
        (self.data[base_pos + 0], self.data[base_pos + 1], self.data[base_pos + 2])
    }
}

/// Container for a slice of contiguous `[B G R B G R ...]` data.
#[derive(Copy, Clone, Debug)]
pub struct BgrSliceU8<'a> {
    data: &'a [u8],
    dimensions: (usize, usize),
}

impl<'a> BgrSliceU8<'a> {
    /// The bytes of the image.
    pub closed spec fn bytes(self) -> Seq<u8> {
        self.data@
    }

    /// The image size `(w, h)`.
    pub closed spec fn size(self) -> (usize, usize) {
        self.dimensions
    }

    /// Creates a new instance given the byte slice and dimensions.
    ///
    /// Both dimensions must be even, and the slice must hold exactly `w * h * 3` bytes.
    pub fn new(data: &'a [u8], dimensions: (usize, usize)) -> (s: Self)
        requires
            data@.len() == dimensions.0 * dimensions.1 * 3,
            dimensions.0 % 2 == 0,
            dimensions.1 % 2 == 0,
        ensures
            s.bytes() == data@,
            s.size() == dimensions,
    {
        Self { data, dimensions }
    }

    /// Returns the image size as `(w, h)`.
    pub fn dimensions(&self) -> (d: (usize, usize))
        ensures
            d == self.size(),
    {
        self.dimensions
    }

    /// The red, green and blue bytes of pixel `(x, y)`.
    pub fn pixel_u8(&self, x: usize, y: usize) -> (p: (u8, u8, u8))
        requires
            (x + y * self.size().0) * 3 + 2 < self.bytes().len(),
        ensures
            p.0 == self.bytes()[(x + y * self.size().0) * 3 + 2],
            p.1 == self.bytes()[(x + y * self.size().0) * 3 + 1],
            p.2 == self.bytes()[(x + y * self.size().0) * 3 + 0],
    {
        let len = self.data.len();
        proof {
            assert(0 <= y * self.size().0) by (nonlinear_arith);
            assert(len == self.bytes().len());
        }
        let base_pos = (x + y * self.dimensions.0) * 3;
        (self.data[base_pos + 2], self.data[base_pos + 1], self.data[base_pos + 0])
    }
}

/// Container for a slice of contiguous `[R G B A R G B A ...]` data.
#[derive(Copy, Clone, Debug)]
pub struct RgbaSliceU8<'a> {
    data: &'a [u8],
    dimensions: (usize, usize),
}

impl<'a> RgbaSliceU8<'a> {
    /// The bytes of the image.
    pub closed spec fn bytes(self) -> Seq<u8> {
        self.data@
    }

    /// The image size `(w, h)`.
    pub closed spec fn size(self) -> (usize, usize) {
        self.dimensions
    }

    /// Creates a new instance given the byte slice and dimensions.
    ///
    /// Both dimensions must be even, and the slice must hold exactly `w * h * 4` bytes.
    pub fn new(data: &'a [u8], dimensions: (usize, usize)) -> (s: Self)
        requires
            data@.len() == dimensions.0 * dimensions.1 * 4,
            dimensions.0 % 2 == 0,
            dimensions.1 % 2 == 0,
        ensures
            s.bytes() == data@,
            s.size() == dimensions,
    {
        Self { data, dimensions }
    }

    /// Returns the image size as `(w, h)`.
    pub fn dimensions(&self) -> (d: (usize, usize))
        ensures
            d == self.size(),
    {
        self.dimensions
    }

    /// The red, green and blue bytes of pixel `(x, y)`.
    pub fn pixel_u8(&self, x: usize, y: usize) -> (p: (u8, u8, u8))
        requires
            (x + y * self.size().0) * 4 + 2 < self.bytes().len(),
        ensures
            p.0 == self.bytes()[(x + y * self.size().0) * 4 + 0],
            p.1 == self.bytes()[(x + y * self.size().0) * 4 + 1],
            p.2 == self.bytes()[(x + y * self.size().0) * 4 + 2],
    {
        let len = self.data.len();
        proof {
            assert(0 <= y * self.size().0) by (nonlinear_arith);
            assert(len == self.bytes().len());
        }
        let base_pos = (x + y * self.dimensions.0) * 4;
        (self.data[base_pos + 0], self.data[base_pos + 1], self.data[base_pos + 2])
    }
}

/// Container for a slice of contiguous `[B G R A B G R A ...]` data.
#[derive(Copy, Clone, Debug)]
pub struct BgraSliceU8<'a> {
    data: &'a [u8],
    dimensions: (usize, usize),
}

impl<'a> BgraSliceU8<'a> {
    /// The bytes of the image.
    pub closed spec fn bytes(self) -> Seq<u8> {
        self.data@
    }

    /// The image size `(w, h)`.
    pub closed spec fn size(self) -> (usize, usize) {
        self.dimensions
    }

    /// Creates a new instance given the byte slice and dimensions.
    ///
    /// Both dimensions must be even, and the slice must hold exactly `w * h * 4` bytes.
    pub fn new(data: &'a [u8], dimensions: (usize, usize)) -> (s: Self)
        requires
            data@.len() == dimensions.0 * dimensions.1 * 4,
            dimensions.0 % 2 == 0,
            dimensions.1 % 2 == 0,
        ensures
            s.bytes() == data@,
            s.size() == dimensions,
    {
        Self { data, dimensions }
    }

    /// Returns the image size as `(w, h)`.
    pub fn dimensions(&self) -> (d: (usize, usize))
        ensures
            d == self.size(),
    {
        self.dimensions
    }

    /// The red, green and blue bytes of pixel `(x, y)`.
    pub fn pixel_u8(&self, x: usize, y: usize) -> (p: (u8, u8, u8))
        requires
            (x + y * self.size().0) * 4 + 2 < self.bytes().len(),
        ensures
            p.0 == self.bytes()[(x + y * self.size().0) * 4 + 2],
            p.1 == self.bytes()[(x + y * self.size().0) * 4 + 1],
            p.2 == self.bytes()[(x + y * self.size().0) * 4 + 0],
    {
        let len = self.data.len();
        proof {
            assert(0 <= y * self.size().0) by (nonlinear_arith);
            assert(len == self.bytes().len());
        }
        let base_pos = (x + y * self.dimensions.0) * 4;
        (self.data[base_pos + 2], self.data[base_pos + 1], self.data[base_pos + 0])
    }
}

/// Container for a slice of contiguous `[A B G R A B G R ...]` data.
#[derive(Copy, Clone, Debug)]
pub struct AbgrSliceU8<'a> {
    data: &'a [u8],
    dimensions: (usize, usize),
}

impl<'a> AbgrSliceU8<'a> {
    /// The bytes of the image.
    pub closed spec fn bytes(self) -> Seq<u8> {
        self.data@
    }

    /// The image size `(w, h)`.
    pub closed spec fn size(self) -> (usize, usize) {
        self.dimensions
    }

    /// Creates a new instance given the byte slice and dimensions.
    ///
    /// Both dimensions must be even, and the slice must hold exactly `w * h * 4` bytes.
    pub fn new(data: &'a [u8], dimensions: (usize, usize)) -> (s: Self)
        requires
            data@.len() == dimensions.0 * dimensions.1 * 4,
            dimensions.0 % 2 == 0,
            dimensions.1 % 2 == 0,
        ensures
            s.bytes() == data@,
            s.size() == dimensions,
    {
        Self { data, dimensions }
    }

    /// Returns the image size as `(w, h)`.
    pub fn dimensions(&self) -> (d: (usize, usize))
        ensures
            d == self.size(),
    {
        self.dimensions
    }

    /// The red, green and blue bytes of pixel `(x, y)`.
    pub fn pixel_u8(&self, x: usize, y: usize) -> (p: (u8, u8, u8))
        requires
            (x + y * self.size().0) * 4 + 3 < self.bytes().len(),
        ensures
            p.0 == self.bytes()[(x + y * self.size().0) * 4 + 3],
            p.1 == self.bytes()[(x + y * self.size().0) * 4 + 2],
            p.2 == self.bytes()[(x + y * self.size().0) * 4 + 1],
    {
        let len = self.data.len();
        proof {
            assert(0 <= y * self.size().0) by (nonlinear_arith);
            assert(len == self.bytes().len());
        }
        let base_pos = (x + y * self.dimensions.0) * 4;
        (self.data[base_pos + 3], self.data[base_pos + 2], self.data[base_pos + 1])
    }
}

/// Container for a slice of contiguous `[A R G B A R G B ...]` data.
#[derive(Copy, Clone, Debug)]
pub struct ArgbSliceU8<'a> {
    data: &'a [u8],
    dimensions: (usize, usize),
}

impl<'a> ArgbSliceU8<'a> {
    /// The bytes of the image.
    pub closed spec fn bytes(self) -> Seq<u8> {
        self.data@
    }

    /// The image size `(w, h)`.
    pub closed spec fn size(self) -> (usize, usize) {
        self.dimensions
    }

    /// Creates a new instance given the byte slice and dimensions.
    ///
    /// Both dimensions must be even, and the slice must hold exactly `w * h * 4` bytes.
    pub fn new(data: &'a [u8], dimensions: (usize, usize)) -> (s: Self)
        requires
            data@.len() == dimensions.0 * dimensions.1 * 4,
            dimensions.0 % 2 == 0,
            dimensions.1 % 2 == 0,
        ensures
            s.bytes() == data@,
            s.size() == dimensions,
    {
        Self { data, dimensions }
    }

    /// Returns the image size as `(w, h)`.
    pub fn dimensions(&self) -> (d: (usize, usize))
        ensures
            d == self.size(),
    {
        self.dimensions
    }

    /// The red, green and blue bytes of pixel `(x, y)`.
    pub fn pixel_u8(&self, x: usize, y: usize) -> (p: (u8, u8, u8))
        requires
            (x + y * self.size().0) * 4 + 3 < self.bytes().len(),
        ensures
            p.0 == self.bytes()[(x + y * self.size().0) * 4 + 1],
            p.1 == self.bytes()[(x + y * self.size().0) * 4 + 2],
            p.2 == self.bytes()[(x + y * self.size().0) * 4 + 3],
    {
        let len = self.data.len();
        proof {
            assert(0 <= y * self.size().0) by (nonlinear_arith);
            assert(len == self.bytes().len());
        }
        let base_pos = (x + y * self.dimensions.0) * 4;
        (self.data[base_pos + 1], self.data[base_pos + 2], self.data[base_pos + 3])
    }
}

/// Container for a slice of contiguous `[RGBA RGBA ...]` data.
///
/// The platform endianness of the data is irrelevant: R is the highest byte and A is the lowest.
#[derive(Copy, Clone, Debug)]
pub struct RgbaSliceU32<'a> {
    data: &'a [u32],
    dimensions: (usize, usize),
}

impl<'a> RgbaSliceU32<'a> {
    /// The pixels of the image.
    pub closed spec fn pixels(self) -> Seq<u32> {
        self.data@
    }

    /// The image size `(w, h)`.
    pub closed spec fn size(self) -> (usize, usize) {
        self.dimensions
    }

    /// Creates a new instance given the data slice and dimensions.
    ///
    /// Both dimensions must be even, and the slice must hold exactly `w * h` pixels.
    pub fn new(data: &'a [u32], dimensions: (usize, usize)) -> (s: Self)
        requires
            data@.len() == dimensions.0 * dimensions.1,
            dimensions.0 % 2 == 0,
            dimensions.1 % 2 == 0,
        ensures
            s.pixels() == data@,
            s.size() == dimensions,
    {
        Self { data, dimensions }
    }

    /// Returns the image size as `(w, h)`.
    pub fn dimensions(&self) -> (d: (usize, usize))
        ensures
            d == self.size(),
    {
        self.dimensions
    }

    /// The red, green and blue bytes of pixel `(x, y)`.
    pub fn pixel_u8(&self, x: usize, y: usize) -> (p: (u8, u8, u8))
        requires
            x + y * self.size().0 < self.pixels().len(),
        ensures
            p.0 == channel_byte(self.pixels()[x + y * self.size().0], 24),
            p.1 == channel_byte(self.pixels()[x + y * self.size().0], 16),
            p.2 == channel_byte(self.pixels()[x + y * self.size().0], 8),
    {
        let len = self.data.len();
        proof {
            assert(0 <= y * self.size().0) by (nonlinear_arith);
            assert(len == self.pixels().len());
        }
        let px = self.data[x + y * self.dimensions.0];
        (((px >> 24u32) & 0xFF) as u8, ((px >> 16u32) & 0xFF) as u8, ((px >> 8u32) & 0xFF) as u8)
    }
}

/// Container for a slice of contiguous `[BGRA BGRA ...]` data.
///
/// The platform endianness of the data is irrelevant: B is the highest byte and A is the lowest.
#[derive(Copy, Clone, Debug)]
pub struct BgraSliceU32<'a> {
    data: &'a [u32],
    dimensions: (usize, usize),
}

impl<'a> BgraSliceU32<'a> {
    /// The pixels of the image.
    pub closed spec fn pixels(self) -> Seq<u32> {
        self.data@
    }

    /// The image size `(w, h)`.
    pub closed spec fn size(self) -> (usize, usize) {
        self.dimensions
    }

    /// Creates a new instance given the data slice and dimensions.
    ///
    /// Both dimensions must be even, and the slice must hold exactly `w * h` pixels.
    pub fn new(data: &'a [u32], dimensions: (usize, usize)) -> (s: Self)
        requires
            data@.len() == dimensions.0 * dimensions.1,
            dimensions.0 % 2 == 0,
            dimensions.1 % 2 == 0,
        ensures
            s.pixels() == data@,
            s.size() == dimensions,
    {
        Self { data, dimensions }
    }

    /// Returns the image size as `(w, h)`.
    pub fn dimensions(&self) -> (d: (usize, usize))
        ensures
            d == self.size(),
    {
        self.dimensions
    }

    /// The red, green and blue bytes of pixel `(x, y)`.
    pub fn pixel_u8(&self, x: usize, y: usize) -> (p: (u8, u8, u8))
        requires
            x + y * self.size().0 < self.pixels().len(),
        ensures
            p.0 == channel_byte(self.pixels()[x + y * self.size().0], 8),
            p.1 == channel_byte(self.pixels()[x + y * self.size().0], 16),
            p.2 == channel_byte(self.pixels()[x + y * self.size().0], 24),
    {
        let len = self.data.len();
        proof {
            assert(0 <= y * self.size().0) by (nonlinear_arith);
            assert(len == self.pixels().len());
        }
        let px = self.data[x + y * self.dimensions.0];
        (((px >> 8u32) & 0xFF) as u8, ((px >> 16u32) & 0xFF) as u8, ((px >> 24u32) & 0xFF) as u8)
    }
}

/// Container for a slice of contiguous `[ABGR ABGR ...]` data.
///
/// The platform endianness of the data is irrelevant: A is the highest byte and R is the lowest.
#[derive(Copy, Clone, Debug)]
pub struct AbgrSliceU32<'a> {
    data: &'a [u32],
    dimensions: (usize, usize),
}

impl<'a> AbgrSliceU32<'a> {
    /// The pixels of the image.
    pub closed spec fn pixels(self) -> Seq<u32> {
        self.data@
    }

    /// The image size `(w, h)`.
    pub closed spec fn size(self) -> (usize, usize) {
        self.dimensions
    }

    /// Creates a new instance given the data slice and dimensions.
    ///
    /// Both dimensions must be even, and the slice must hold exactly `w * h` pixels.
    pub fn new(data: &'a [u32], dimensions: (usize, usize)) -> (s: Self)
        requires
            data@.len() == dimensions.0 * dimensions.1,
            dimensions.0 % 2 == 0,
            dimensions.1 % 2 == 0,
        ensures
            s.pixels() == data@,
            s.size() == dimensions,
    {
        Self { data, dimensions }
    }

    /// Returns the image size as `(w, h)`.
    pub fn dimensions(&self) -> (d: (usize, usize))
        ensures
            d == self.size(),
    {
        self.dimensions
    }

    /// The red, green and blue bytes of pixel `(x, y)`.
    pub fn pixel_u8(&self, x: usize, y: usize) -> (p: (u8, u8, u8))
        requires
            x + y * self.size().0 < self.pixels().len(),
        ensures
            p.0 == channel_byte(self.pixels()[x + y * self.size().0], 0),
            p.1 == channel_byte(self.pixels()[x + y * self.size().0], 8),
            p.2 == channel_byte(self.pixels()[x + y * self.size().0], 16),
    {
        let len = self.data.len();
        proof {
            assert(0 <= y * self.size().0) by (nonlinear_arith);
            assert(len == self.pixels().len());
        }
        let px = self.data[x + y * self.dimensions.0];
        (((px >> 0u32) & 0xFF) as u8, ((px >> 8u32) & 0xFF) as u8, ((px >> 16u32) & 0xFF) as u8)
    }
}

/// Container for a slice of contiguous `[ARGB ARGB ...]` data.
///
/// The platform endianness of the data is irrelevant: A is the highest byte and B is the lowest.
#[derive(Copy, Clone, Debug)]
pub struct ArgbSliceU32<'a> {
    data: &'a [u32],
    dimensions: (usize, usize),
}

impl<'a> ArgbSliceU32<'a> {
    /// The pixels of the image.
    pub closed spec fn pixels(self) -> Seq<u32> {
        self.data@
    }

    /// The image size `(w, h)`.
    pub closed spec fn size(self) -> (usize, usize) {
        self.dimensions
    }

    /// Creates a new instance given the data slice and dimensions.
    ///
    /// Both dimensions must be even, and the slice must hold exactly `w * h` pixels.
    pub fn new(data: &'a [u32], dimensions: (usize, usize)) -> (s: Self)
        requires
            data@.len() == dimensions.0 * dimensions.1,
            dimensions.0 % 2 == 0,
            dimensions.1 % 2 == 0,
        ensures
            s.pixels() == data@,
            s.size() == dimensions,
    {
        Self { data, dimensions }
    }

    /// Returns the image size as `(w, h)`.
    pub fn dimensions(&self) -> (d: (usize, usize))
        ensures
            d == self.size(),
    {
        self.dimensions
    }

    /// The red, green and blue bytes of pixel `(x, y)`.
    pub fn pixel_u8(&self, x: usize, y: usize) -> (p: (u8, u8, u8))
        requires
            x + y * self.size().0 < self.pixels().len(),
        ensures
            p.0 == channel_byte(self.pixels()[x + y * self.size().0], 16),
            p.1 == channel_byte(self.pixels()[x + y * self.size().0], 8),
            p.2 == channel_byte(self.pixels()[x + y * self.size().0], 0),
    {
        let len = self.data.len();
        proof {
            assert(0 <= y * self.size().0) by (nonlinear_arith);
            assert(len == self.pixels().len());
        }
        let px = self.data[x + y * self.dimensions.0];
        (((px >> 16u32) & 0xFF) as u8, ((px >> 8u32) & 0xFF) as u8, ((px >> 0u32) & 0xFF) as u8)
    }
}

/// The byte of `px` that starts at bit `shift`.
pub open spec fn channel_byte(px: u32, shift: u32) -> u8 {
    ((px >> shift) & 0xFF) as u8
}

impl RGB8Source for RgbSliceU8<'_> {
    open spec fn spec_dimensions(&self) -> (usize, usize) {
        self.size()
    }

    open spec fn spec_dimensions_padded(&self) -> (usize, usize) {
        self.size()
    }

    open spec fn spec_rgb8_data(&self) -> Seq<u8> {
        self.bytes()
    }

    open spec fn spec_pixel_stride(&self) -> usize {
        3
    }

    open spec fn spec_rgb_channel_offsets(&self) -> (usize, usize, usize) {
        (0, 1, 2)
    }

    fn dimensions(&self) -> (d: (usize, usize)) {
        self.dimensions
    }

    fn dimensions_padded(&self) -> (d: (usize, usize)) {
        self.dimensions
    }

    fn rgb8_data(&self) -> (data: &[u8]) {
        self.data
    }

    fn pixel_stride(&self) -> (s: usize) {
        3
    }

    fn rgb_channel_offsets(&self) -> (o: (usize, usize, usize)) {
        (0, 1, 2)
    }
}

impl RGB8Source for RgbaSliceU8<'_> {
    open spec fn spec_dimensions(&self) -> (usize, usize) {
        self.size()
    }

    open spec fn spec_dimensions_padded(&self) -> (usize, usize) {
        self.size()
    }

    open spec fn spec_rgb8_data(&self) -> Seq<u8> {
        self.bytes()
    }

    open spec fn spec_pixel_stride(&self) -> usize {
        4
    }

    open spec fn spec_rgb_channel_offsets(&self) -> (usize, usize, usize) {
        (0, 1, 2)
    }

    fn dimensions(&self) -> (d: (usize, usize)) {
        self.dimensions
    }

    fn dimensions_padded(&self) -> (d: (usize, usize)) {
        self.dimensions
    }

    fn rgb8_data(&self) -> (data: &[u8]) {
        self.data
    }

    fn pixel_stride(&self) -> (s: usize) {
        4
    }

    fn rgb_channel_offsets(&self) -> (o: (usize, usize, usize)) {
        (0, 1, 2)
    }
}

impl RGBA8Source for RgbaSliceU8<'_> {}

impl RGB8Source for BgraSliceU8<'_> {
    open spec fn spec_dimensions(&self) -> (usize, usize) {
        self.size()
    }

    open spec fn spec_dimensions_padded(&self) -> (usize, usize) {
        self.size()
    }

    open spec fn spec_rgb8_data(&self) -> Seq<u8> {
        self.bytes()
    }

    open spec fn spec_pixel_stride(&self) -> usize {
        4
    }

    open spec fn spec_rgb_channel_offsets(&self) -> (usize, usize, usize) {
        (2, 1, 0)
    }

    fn dimensions(&self) -> (d: (usize, usize)) {
        self.dimensions
    }

    fn dimensions_padded(&self) -> (d: (usize, usize)) {
        self.dimensions
    }

    fn rgb8_data(&self) -> (data: &[u8]) {
        self.data
    }

    fn pixel_stride(&self) -> (s: usize) {
        4
    }

    fn rgb_channel_offsets(&self) -> (o: (usize, usize, usize)) {
        (2, 1, 0)
    }
}

impl BGRA8Source for BgraSliceU8<'_> {}

/// The packed sources have no row padding and read red, green and blue at the positions their
/// names give: `[R G B]` pixels of three bytes, `[R G B A]` and `[B G R A]` pixels of four.
pub proof fn law_packed_source_layouts(a: RgbSliceU8, b: RgbaSliceU8, c: BgraSliceU8)
    ensures
        source_layout(&a).dimensions == a.size(),
        source_layout(&a).dimensions_padded == a.size(),
        source_layout(&a).pixel_stride == 3,
        source_layout(&a).rgb_offsets == (0usize, 1usize, 2usize),
        source_layout(&b).dimensions == b.size(),
        source_layout(&b).dimensions_padded == b.size(),
        source_layout(&b).pixel_stride == 4,
        source_layout(&b).rgb_offsets == (0usize, 1usize, 2usize),
        source_layout(&c).dimensions == c.size(),
        source_layout(&c).dimensions_padded == c.size(),
        source_layout(&c).pixel_stride == 4,
        source_layout(&c).rgb_offsets == (2usize, 1usize, 0usize),
{
}

} // verus!
