//! YUV 4:2:0 images as the encoder consumes them.

use super::arch::scalar::write_planes;
use super::arch::{Rgb8SourceLayout, law_planes_depend_on_visible_pixels, same_visible_pixels};
use super::rgb::{BGRA8Source, RGB8Source, RGBA8Source, source_layout};
use vstd::prelude::*;
use vstd::slice::slice_subrange;

verus! {

/// Allows the encoder to be generic over a YUV source.
pub trait YUVSource {
    /// The size `(w, h)` that [`Self::dimensions`] returns.
    open spec fn spec_dimensions(&self) -> (usize, usize) {
        arbitrary()
    }

    /// The strides `(y, u, v)` that [`Self::strides`] returns.
    open spec fn spec_strides(&self) -> (usize, usize, usize) {
        arbitrary()
    }

    /// The bytes that [`Self::y`] returns.
    open spec fn spec_y(&self) -> Seq<u8> {
        arbitrary()
    }

    /// The bytes that [`Self::u`] returns.
    open spec fn spec_u(&self) -> Seq<u8> {
        arbitrary()
    }

    /// The bytes that [`Self::v`] returns.
    open spec fn spec_v(&self) -> Seq<u8> {
        arbitrary()
    }

    /// Size of the image as `(w, h)`, each converted with `as i32`.
    fn dimensions_i32(&self) -> (d: (i32, i32))
        ensures
            d == (self.spec_dimensions().0 as i32, self.spec_dimensions().1 as i32),
    {
        let (w, h) = self.dimensions();
        (w as i32, h as i32)
    }

    /// Size of the image as `(w, h)`.
    fn dimensions(&self) -> (d: (usize, usize))
        ensures
            d == self.spec_dimensions(),
    ;

    /// YUV strides as `(y, u, v)`.
    ///
    /// For now you should make sure `u == v`.
    fn strides(&self) -> (s: (usize, usize, usize))
        ensures
            s == self.spec_strides(),
    ;

    /// YUV strides as `(y, u, v)`, each converted with `as i32`.
    fn strides_i32(&self) -> (s: (i32, i32, i32))
        ensures
            s == (self.spec_strides().0 as i32, self.spec_strides().1 as i32, self.spec_strides().2 as i32),
    {
        let (y, u, v) = self.strides();
        (y as i32, u as i32, v as i32)
    }

    /// Y buffer, should be of size `dimension.1 * strides.0`.
    fn y(&self) -> (p: &[u8])
        ensures
            p@ == self.spec_y(),
    ;

    /// U buffer, should be of size `dimension.1 * strides.1`.
    fn u(&self) -> (p: &[u8])
        ensures
            p@ == self.spec_u(),
    ;

    /// V buffer, should be of size `dimension.1 * strides.2`.
    fn v(&self) -> (p: &[u8])
        ensures
            p@ == self.spec_v(),
    ;

    /// Estimates how many bytes you'll need to store this YUV in an `&[u8]` RGB array: `w * h * 3`.
    fn estimate_rgb_u8_size(&self) -> (n: usize)
        requires
            self.spec_dimensions().0 * self.spec_dimensions().1 * 3 <= usize::MAX,
        ensures
            n == self.spec_dimensions().0 * self.spec_dimensions().1 * 3,
    {
        let (w, h) = self.dimensions();
        proof {
            assert(0 <= w * h <= w * h * 3) by (nonlinear_arith);
        }
        w * h * 3
    }

    /// Estimates how many bytes you'll need to store this YUV in an `&[u8]` RGBA array: `w * h * 4`.
    fn estimate_rgba_u8_size(&self) -> (n: usize)
        requires
            self.spec_dimensions().0 * self.spec_dimensions().1 * 4 <= usize::MAX,
        ensures
            n == self.spec_dimensions().0 * self.spec_dimensions().1 * 4,
    {
        let (w, h) = self.dimensions();
        proof {
            assert(0 <= w * h <= w * h * 4) by (nonlinear_arith);
        }
        w * h * 4
    }
}

/// An I420 image held in one buffer: the Y plane, then the U plane, then the V plane.
pub struct YUVBuffer {
    yuv: Vec<u8>,
    width: usize,
    height: usize,
}

/// The number of bytes an I420 image of `w * h` pixels takes.
pub open spec fn i420_len(w: int, h: int) -> int {
    (3 * (w * h)) / 2
}

impl View for YUVBuffer {
    type V = Seq<u8>;

    closed spec fn view(&self) -> Seq<u8> {
        self.yuv@
    }
}

impl YUVBuffer {
    #[verifier::type_invariant]
    spec fn well_formed(self) -> bool {
        &&& self.width % 2 == 0
        &&& self.height % 2 == 0
        &&& 3 * (self.width * self.height) <= usize::MAX
        &&& self.yuv@.len() == i420_len(self.width as int, self.height as int)
    }

    /// The image width.
    pub closed spec fn width(self) -> usize {
        self.width
    }

    /// The image height.
    pub closed spec fn height(self) -> usize {
        self.height
    }

    /// Number of luma bytes, `w * h`.
    pub open spec fn luma_len(self) -> int {
        self.width() * self.height()
    }

    /// Number of bytes of each chroma plane, `w * h / 4`.
    pub open spec fn chroma_len(self) -> int {
        self.luma_len() / 4
    }

    /// Creates a new YUV buffer from the given vec.
    ///
    /// The vec's length must be `3 * (width * height) / 2`, and both sizes must be even.
    pub fn from_vec(yuv: Vec<u8>, width: usize, height: usize) -> (b: Self)
        requires
            width % 2 == 0,
            height % 2 == 0,
            3 * (width * height) <= usize::MAX,
            yuv@.len() == i420_len(width as int, height as int),
        ensures
            b@ == yuv@,
            b.width() == width,
            b.height() == height,
    {
        Self { yuv, width, height }
    }

    /// Allocates a new, zeroed YUV buffer with the given width and height.
    ///
    /// Both dimensions must be even.
    pub fn new(width: usize, height: usize) -> (b: Self)
        requires
            width % 2 == 0,
            height % 2 == 0,
            3 * (width * height) <= usize::MAX,
        ensures
            b@ == Seq::new(i420_len(width as int, height as int) as nat, |i: int| 0u8),
            b.width() == width,
            b.height() == height,
    {
        proof {
            assert(0 <= width * height <= 3 * (width * height)) by (nonlinear_arith);
        }
        let yuv = vec![0u8; (3 * (width * height)) / 2];
        proof {
            assert(yuv@ =~= Seq::new(i420_len(width as int, height as int) as nat, |i: int| 0u8));
        }
        Self { yuv, width, height }
    }

    /// Allocates a new YUV buffer with the size and the converted content of an RGB8 source.
    ///
    /// This is the faster way of converting RGB data, through integer arithmetic.
    pub fn from_rgb8_source<R: RGB8Source>(rgb: R) -> (b: Self)
        requires
            3 * (rgb.spec_dimensions().0 * rgb.spec_dimensions().1) <= usize::MAX,
            Self::readable(&rgb),
        ensures
            b.width() == rgb.spec_dimensions().0,
            b.height() == rgb.spec_dimensions().1,
            b@ == Self::converted(&rgb),
    {
        let (width, height) = rgb.dimensions();
        let mut rval = Self::new(width, height);
        rval.read_rgb8(rgb);
        rval
    }

    /// Allocates a new YUV buffer from an RGBA8 source.
    pub fn from_rgba8_source<R: RGBA8Source>(rgb: R) -> (b: Self)
        requires
            3 * (rgb.spec_dimensions().0 * rgb.spec_dimensions().1) <= usize::MAX,
            Self::readable(&rgb),
        ensures
            b.width() == rgb.spec_dimensions().0,
            b.height() == rgb.spec_dimensions().1,
            b@ == Self::converted(&rgb),
    {
        Self::from_rgb8_source(rgb)
    }

    /// Allocates a new YUV buffer from a BGRA8 source.
    pub fn from_bgra8_source<R: BGRA8Source>(rgb: R) -> (b: Self)
        requires
            3 * (rgb.spec_dimensions().0 * rgb.spec_dimensions().1) <= usize::MAX,
            Self::readable(&rgb),
        ensures
            b.width() == rgb.spec_dimensions().0,
            b.height() == rgb.spec_dimensions().1,
            b@ == Self::converted(&rgb),
    {
        Self::from_rgb8_source(rgb)
    }

    /// The source can be read by a conversion into a buffer of its own size.
    pub open spec fn readable<R: RGB8Source>(rgb: &R) -> bool {
        let w = rgb.spec_dimensions().0 as int;
        let h = rgb.spec_dimensions().1 as int;
        source_layout(rgb).fits(rgb.spec_rgb8_data().len() as int, w * h, (w * h) / 4, (w * h) / 4)
    }

    /// The I420 bytes of the converted source: its Y, U and V planes one after the other.
    pub open spec fn converted<R: RGB8Source>(rgb: &R) -> Seq<u8> {
        source_layout(rgb).y_plane(rgb.spec_rgb8_data()) + source_layout(rgb).u_plane(rgb.spec_rgb8_data())
            + source_layout(rgb).v_plane(rgb.spec_rgb8_data())
    }

    /// Reads an RGB8 buffer, converts it to YUV and stores it.
    ///
    /// The source must have the size of this buffer.
    pub fn read_rgb8<R: RGB8Source>(&mut self, rgb: R)
        requires
            rgb.spec_dimensions() == (old(self).width(), old(self).height()),
            Self::readable(&rgb),
        ensures
            final(self).width() == old(self).width(),
            final(self).height() == old(self).height(),
            final(self)@ == Self::converted(&rgb),
    {
        proof {
            use_type_invariant(&*self);
        }
        let dimensions = (self.width, self.height);
        let u_base = self.width * self.height;
        let v_base = u_base / 4;
        let ghost w = self.width as int;
        let ghost h = self.height as int;
        proof {
            assert(w * h == 4 * ((w / 2) * (h / 2))) by (nonlinear_arith)
                requires w % 2 == 0, h % 2 == 0;
            assert(0 <= w * h) by (nonlinear_arith)
                requires w >= 0, h >= 0;
        }
        let mut yuv = vec![0u8; self.yuv.len()];
        {
            let (y_buf, uv_buf) = yuv.as_mut_slice().split_at_mut(u_base);
            let (u_buf, v_buf) = uv_buf.split_at_mut(v_base);
            write_yuv_planes(&rgb, dimensions, y_buf, u_buf, v_buf);
        }
        proof {
            let layout = source_layout(&rgb);
            assert(layout.luma_len() == u_base);
            assert(layout.chroma_len() == v_base);
            assert(yuv@ =~= Self::converted(&rgb));
        }
        self.yuv = yuv;
    }

    /// Reads an RGBA8 buffer, converts it to YUV and stores it.
    pub fn read_rgba8<R: RGBA8Source>(&mut self, rgb: R)
        requires
            rgb.spec_dimensions() == (old(self).width(), old(self).height()),
            Self::readable(&rgb),
        ensures
            final(self).width() == old(self).width(),
            final(self).height() == old(self).height(),
            final(self)@ == Self::converted(&rgb),
    {
        self.read_rgb8(rgb)
    }

    /// Reads a BGRA8 buffer, converts it to YUV and stores it.
    pub fn read_bgra8<R: BGRA8Source>(&mut self, rgb: R)
        requires
            rgb.spec_dimensions() == (old(self).width(), old(self).height()),
            Self::readable(&rgb),
        ensures
            final(self).width() == old(self).width(),
            final(self).height() == old(self).height(),
            final(self)@ == Self::converted(&rgb),
    {
        self.read_rgb8(rgb)
    }
}

/// Converts `rgb` into the three planes, as `write_yuv` does, from a borrowed source.
fn write_yuv_planes<R: RGB8Source>(rgb: &R, dimensions: (usize, usize), y_buf: &mut [u8], u_buf: &mut [u8], v_buf: &mut [u8])
    requires
        rgb.spec_dimensions() == dimensions,
        source_layout(rgb).fits(
            rgb.spec_rgb8_data().len() as int,
            old(y_buf)@.len() as int,
            old(u_buf)@.len() as int,
            old(v_buf)@.len() as int,
        ),
    ensures
        final(y_buf)@ == source_layout(rgb).y_plane(rgb.spec_rgb8_data()) + old(y_buf)@.skip(source_layout(rgb).luma_len()),
        final(u_buf)@ == source_layout(rgb).u_plane(rgb.spec_rgb8_data()) + old(u_buf)@.skip(source_layout(rgb).chroma_len()),
        final(v_buf)@ == source_layout(rgb).v_plane(rgb.spec_rgb8_data()) + old(v_buf)@.skip(source_layout(rgb).chroma_len()),
{
    let layout = Rgb8SourceLayout {
        dimensions,
        dimensions_padded: rgb.dimensions_padded(),
        pixel_stride: rgb.pixel_stride(),
        rgb_offsets: rgb.rgb_channel_offsets(),
    };
    write_planes(rgb.rgb8_data(), layout, y_buf, u_buf, v_buf);
}

impl YUVSource for YUVBuffer {
    open spec fn spec_dimensions(&self) -> (usize, usize) {
        (self.width(), self.height())
    }

    open spec fn spec_strides(&self) -> (usize, usize, usize) {
        (self.width(), (self.width() / 2) as usize, (self.width() / 2) as usize)
    }

    open spec fn spec_y(&self) -> Seq<u8> {
        self@.subrange(0, self.luma_len())
    }

    open spec fn spec_u(&self) -> Seq<u8> {
        self@.subrange(self.luma_len(), self.luma_len() + self.chroma_len())
    }

    open spec fn spec_v(&self) -> Seq<u8> {
        self@.subrange(self.luma_len() + self.chroma_len(), self@.len() as int)
    }

    fn dimensions(&self) -> (d: (usize, usize)) {
        (self.width, self.height)
    }

    fn strides(&self) -> (s: (usize, usize, usize)) {
        (self.width, self.width / 2, self.width / 2)
    }

    fn y(&self) -> (p: &[u8]) {
        proof {
            use_type_invariant(self);
            assert(0 <= self.width * self.height <= 3 * (self.width * self.height)) by (nonlinear_arith);
        }
        slice_subrange(self.yuv.as_slice(), 0, self.width * self.height)
    }

    fn u(&self) -> (p: &[u8]) {
        proof {
            use_type_invariant(self);
            assert(0 <= self.width * self.height <= 3 * (self.width * self.height)) by (nonlinear_arith);
        }
        let base_u = self.width * self.height;
        slice_subrange(self.yuv.as_slice(), base_u, base_u + base_u / 4)
    }

    fn v(&self) -> (p: &[u8]) {
        proof {
            use_type_invariant(self);
            assert(0 <= self.width * self.height <= 3 * (self.width * self.height)) by (nonlinear_arith);
        }
        let base_u = self.width * self.height;
        let base_v = base_u + base_u / 4;
        slice_subrange(self.yuv.as_slice(), base_v, self.yuv.len())
    }
}

/// The Y, U and V planes of a buffer, one after the other, are the whole buffer; the U and V
/// planes are a quarter of the Y plane each.
pub proof fn law_planes_make_up_buffer(b: YUVBuffer)
    requires
        b.width() % 2 == 0,
        b.height() % 2 == 0,
        b@.len() == i420_len(b.width() as int, b.height() as int),
    ensures
        b.spec_y() + b.spec_u() + b.spec_v() == b@,
        b.spec_y().len() == b.width() * b.height(),
        b.spec_u().len() == b.spec_v().len(),
        b.spec_u().len() * 4 == b.spec_y().len(),
{
    let w = b.width() as int;
    let h = b.height() as int;
    assert(w * h == 4 * ((w / 2) * (h / 2))) by (nonlinear_arith)
        requires
            w % 2 == 0,
            h % 2 == 0,
    ;
    assert(0 <= w * h) by (nonlinear_arith)
        requires
            w >= 0,
            h >= 0,
    ;
    assert(b.spec_y() + b.spec_u() + b.spec_v() =~= b@);
}

/// Convenience wrapper if you already have YUV-sliced data from some other place.
pub struct YUVSlices<'a> {
    dimensions: (usize, usize),
    yuv: (&'a [u8], &'a [u8], &'a [u8]),
    strides: (usize, usize, usize),
}

impl<'a> YUVSlices<'a> {
    /// Creates a new YUV slice in 4:2:0 format.
    ///
    /// Assume you have some dimension `(w, h)` that is your actual image size. In addition,
    /// you will have strides `(sy, su, sv)` that specify how many pixels / bytes per row
    /// are actually used. Strides must be larger or equal than `w` (y) or `w / 2` (uv)
    /// respectively, and the planes must hold exactly `h` (y) or `h / 2` (uv) rows.
    pub fn new(yuv: (&'a [u8], &'a [u8], &'a [u8]), dimensions: (usize, usize), strides: (usize, usize, usize)) -> (s: Self)
        requires
            strides.0 >= dimensions.0,
            strides.1 >= dimensions.0 / 2,
            strides.2 >= dimensions.0 / 2,
            dimensions.1 * strides.0 == yuv.0@.len(),
            (dimensions.1 / 2) * strides.1 == yuv.1@.len(),
            (dimensions.1 / 2) * strides.2 == yuv.2@.len(),
        ensures
            s.spec_dimensions() == dimensions,
            s.spec_strides() == strides,
            s.spec_y() == yuv.0@,
            s.spec_u() == yuv.1@,
            s.spec_v() == yuv.2@,
    {
        Self { dimensions, yuv, strides }
    }
}

impl YUVSource for YUVSlices<'_> {
    closed spec fn spec_dimensions(&self) -> (usize, usize) {
        self.dimensions
    }

    closed spec fn spec_strides(&self) -> (usize, usize, usize) {
        self.strides
    }

    closed spec fn spec_y(&self) -> Seq<u8> {
        self.yuv.0@
    }

    closed spec fn spec_u(&self) -> Seq<u8> {
        self.yuv.1@
    }

    closed spec fn spec_v(&self) -> Seq<u8> {
        self.yuv.2@
    }

    fn dimensions(&self) -> (d: (usize, usize)) {
        self.dimensions
    }

    fn strides(&self) -> (s: (usize, usize, usize)) {
        self.strides
    }

    fn y(&self) -> (p: &[u8]) {
        self.yuv.0
    }

    fn u(&self) -> (p: &[u8]) {
        self.yuv.1
    }

    fn v(&self) -> (p: &[u8]) {
        self.yuv.2
    }
}

/// Converting two sources of the same size whose visible pixels have the same red, green and
/// blue values gives the same I420 bytes, whatever their row padding, bytes per pixel or channel
/// order: a source with padded rows converts as its packed copy does.
pub proof fn law_packed_and_padded_agree<R1: RGB8Source, R2: RGB8Source>(r1: &R1, r2: &R2)
    requires
        same_visible_pixels(
            source_layout(r1),
            r1.spec_rgb8_data(),
            source_layout(r2),
            r2.spec_rgb8_data(),
        ),
    ensures
        YUVBuffer::converted(r1) == YUVBuffer::converted(r2),
{
    law_planes_depend_on_visible_pixels(
        source_layout(r1),
        r1.spec_rgb8_data(),
        source_layout(r2),
        r2.spec_rgb8_data(),
    );
}

} // verus!
