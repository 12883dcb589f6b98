//! Conversion of RGB sources into I420 planes.

use super::arch::scalar::write_planes;
use super::arch::Rgb8SourceLayout;
use super::rgb::{RGB8Source, source_layout};
use vstd::prelude::*;

verus! {

/// Writes a contiguous RGB8-compatible source into 420 Y, U, and V buffers.
///
/// The first `w * h` bytes of `y_buf` and the first `w * h / 4` bytes of `u_buf` and
/// `v_buf` receive the converted image; the rest is left as it was.
pub fn write_yuv<R: RGB8Source>(rgb: R, dimensions: (usize, usize), y_buf: &mut [u8], u_buf: &mut [u8], v_buf: &mut [u8])
    requires
        rgb.spec_dimensions() == dimensions,
        source_layout(&rgb).fits(
            rgb.spec_rgb8_data().len() as int,
            old(y_buf)@.len() as int,
            old(u_buf)@.len() as int,
            old(v_buf)@.len() as int,
        ),
    ensures
        final(y_buf)@ == source_layout(&rgb).y_plane(rgb.spec_rgb8_data()) + old(y_buf)@.skip(
            source_layout(&rgb).luma_len(),
        ),
        final(u_buf)@ == source_layout(&rgb).u_plane(rgb.spec_rgb8_data()) + old(u_buf)@.skip(
            source_layout(&rgb).chroma_len(),
        ),
        final(v_buf)@ == source_layout(&rgb).v_plane(rgb.spec_rgb8_data()) + old(v_buf)@.skip(
            source_layout(&rgb).chroma_len(),
        ),
{
    let dimensions_padded = rgb.dimensions_padded();
    let rgb8_data = rgb.rgb8_data();
    let layout = Rgb8SourceLayout {
        dimensions,
        dimensions_padded,
        pixel_stride: rgb.pixel_stride(),
        rgb_offsets: rgb.rgb_channel_offsets(),
    };
    write_planes(rgb8_data, layout, y_buf, u_buf, v_buf);
}

} // verus!
