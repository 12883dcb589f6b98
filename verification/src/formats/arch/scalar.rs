//! Portable conversion of packed RGB-like pixels to I420 planes.

use super::{Rgb8SourceLayout, Yuv420Planes, luma, chroma_u, chroma_v, average4};
use vstd::prelude::*;
use vstd::arithmetic::div_mod::lemma_fundamental_div_mod_converse;

verus! {

/// Pixel `(x, y)` and its channel byte `c` lie inside the source buffer, and the
/// products used to address it do not overflow.
proof fn lemma_byte_in_bounds(x: int, y: int, c: int, stride: int, w: int, pw: int, h: int, row_len: int, data_len: int)
    by (nonlinear_arith)
    requires
        0 <= x < w,
        w <= pw,
        0 <= y < h,
        0 <= c < stride,
        row_len == pw * stride,
        row_len * h <= data_len,
    ensures
        0 <= x * stride,
        x * stride + c < row_len,
        0 <= y * row_len,
        y * row_len + row_len <= row_len * h,
        y * row_len + x * stride + c < data_len,
{
}

/// The three colour bytes of pixel `(px, py)` lie inside the source buffer.
proof fn lemma_pixel_bytes(layout: Rgb8SourceLayout, data_len: int, yl: int, ul: int, vl: int, px: int, py: int)
    requires
        layout.fits(data_len, yl, ul, vl),
        0 <= px < layout.width(),
        0 <= py < layout.height(),
    ensures
        0 <= px * layout.pixel_stride,
        px * layout.pixel_stride + layout.pixel_stride <= layout.row_len(),
        0 <= py * layout.row_len(),
        py * layout.row_len() + layout.row_len() <= layout.row_len() * layout.height(),
        0 <= layout.byte_index(px, py, layout.rgb_offsets.0 as int) < data_len,
        0 <= layout.byte_index(px, py, layout.rgb_offsets.1 as int) < data_len,
        0 <= layout.byte_index(px, py, layout.rgb_offsets.2 as int) < data_len,
{
    let s = layout.pixel_stride as int;
    let w = layout.width();
    let h = layout.height();
    let pw = layout.dimensions_padded.0 as int;
    let rl = layout.row_len();
    lemma_byte_in_bounds(px, py, layout.rgb_offsets.0 as int, s, w, pw, h, rl, data_len);
    lemma_byte_in_bounds(px, py, layout.rgb_offsets.1 as int, s, w, pw, h, rl, data_len);
    lemma_byte_in_bounds(px, py, layout.rgb_offsets.2 as int, s, w, pw, h, rl, data_len);
    assert(px * s + s <= rl) by (nonlinear_arith)
        requires 0 <= px < w, w <= pw, rl == pw * s, s >= 0;
}

/// Row `y` of `h` rows of `row_len` bytes starts (and ends) within `row_len * h`.
proof fn lemma_row_base(y: int, h: int, row_len: int)
    by (nonlinear_arith)
    requires
        0 <= y < h,
        0 <= row_len,
    ensures
        0 <= y * row_len,
        y * row_len + row_len <= row_len * h,
{
}

/// Position `row * w + x` of a `w`-wide row-major plane of `h` rows lies before `w * h`
/// and maps back to `(x, row)`.
proof fn lemma_plane_index(row: int, x: int, w: int, h: int)
    requires
        0 <= row < h,
        0 <= x < w,
    ensures
        0 <= row * w,
        row * w + x < w * h,
        row * w + w <= w * h,
        (row * w + x) % w == x,
        (row * w + x) / w == row,
{
    assert(row * w + w <= w * h) by (nonlinear_arith)
        requires 0 <= row < h, 0 <= x < w;
    assert(0 <= row * w) by (nonlinear_arith)
        requires 0 <= row, 0 <= w;
    lemma_fundamental_div_mod_converse(row * w + x, w, row, x);
}

/// For even `w` and `h`, a quarter of `w * h` is `(w / 2) * (h / 2)`.
proof fn lemma_quarter(w: int, h: int)
    requires
        w >= 0,
        h >= 0,
        w % 2 == 0,
        h % 2 == 0,
    ensures
        (w / 2) * (h / 2) == (w * h) / 4,
{
    let a = w / 2;
    let b = h / 2;
    assert(w * h == 4 * (a * b)) by (nonlinear_arith)
        requires w == 2 * a, h == 2 * b;
    lemma_fundamental_div_mod_converse(w * h, 4, a * b, 0);
}

proof fn lemma_shr8_u32(x: u32)
    ensures
        (x >> 8u32) as int == x as int / 256,
{
    assert((x >> 8u32) == x / 256) by (bit_vector);
}

proof fn lemma_shr8_i16(x: i16)
    ensures
        (x >> 8u16) as int == x as int / 256,
{
    assert((x >> 8u16) as int == (x as int) / 256) by (bit_vector);
}

/// Luma of one pixel.
pub fn rgb_to_y(r: u8, g: u8, b: u8) -> (y: u8)
    ensures
        y as int == luma(r as int, g as int, b as int),
{
    let sum: u32 = 66 * (r as u32) + 129 * (g as u32) + 25 * (b as u32);
    proof {
        lemma_shr8_u32(sum);
    }
    ((sum >> 8u32) + 16) as u8
}

/// Rounded average of a 2x2 block of samples.
pub fn average_2x2(a: u8, b: u8, c: u8, d: u8) -> (avg: i16)
    ensures
        avg as int == average4(a as int, b as int, c as int, d as int),
        0 <= avg <= 255,
{
    (a as i16 + b as i16 + c as i16 + d as i16 + 2) / 4
}

/// U sample of averaged red, green and blue values.
fn chroma_u_of(r: i16, g: i16, b: i16) -> (u: u8)
    requires
        0 <= r <= 255,
        0 <= g <= 255,
        0 <= b <= 255,
    ensures
        u as int == chroma_u(r as int, g as int, b as int),
{
    assert(-9690 <= -38 * r <= 0 && 0 <= 112 * b <= 28560 && 0 <= 74 * g <= 18870) by (nonlinear_arith)
        requires 0 <= r <= 255, 0 <= g <= 255, 0 <= b <= 255;
    let t: i16 = -38 * r + 112 * b - 74 * g;
    proof {
        lemma_shr8_i16(t);
    }
    ((t >> 8u16) + 128) as u8
}

/// V sample of averaged red, green and blue values.
fn chroma_v_of(r: i16, g: i16, b: i16) -> (v: u8)
    requires
        0 <= r <= 255,
        0 <= g <= 255,
        0 <= b <= 255,
    ensures
        v as int == chroma_v(r as int, g as int, b as int),
{
    assert(0 <= 112 * r <= 28560 && 0 <= 18 * b <= 4590 && 0 <= 94 * g <= 23970) by (nonlinear_arith)
        requires 0 <= r <= 255, 0 <= g <= 255, 0 <= b <= 255;
    let t: i16 = 112 * r - 18 * b - 94 * g;
    proof {
        lemma_shr8_i16(t);
    }
    ((t >> 8u16) + 128) as u8
}

/// Writes an RGB-compatible source to I420 using portable scalar operations.
///
/// Every luma sample is computed from its own pixel; every chroma sample from the rounded
/// average of a 2x2 block. Bytes of the planes past `w * h` (luma) and `w * h / 4` (chroma)
/// are left as they were.
pub fn write_rgb8_to_yuv420(rgb_data: &[u8], layout: Rgb8SourceLayout, target: &mut Yuv420Planes<'_>)
    requires
        layout.fits(rgb_data@.len() as int, old(target).y@.len() as int, old(target).u@.len() as int, old(target).v@.len() as int),
    ensures
        final(target).y@ == layout.y_plane(rgb_data@) + old(target).y@.skip(layout.luma_len()),
        final(target).u@ == layout.u_plane(rgb_data@) + old(target).u@.skip(layout.chroma_len()),
        final(target).v@ == layout.v_plane(rgb_data@) + old(target).v@.skip(layout.chroma_len()),
{
    write_planes(rgb_data, layout, target.y, target.u, target.v);
}

/// Converts the image that `layout` describes in `rgb_data` into the three given planes.
pub(crate) fn write_planes(rgb_data: &[u8], layout: Rgb8SourceLayout, y_out: &mut [u8], u_out: &mut [u8], v_out: &mut [u8])
    requires
        layout.fits(rgb_data@.len() as int, old(y_out)@.len() as int, old(u_out)@.len() as int, old(v_out)@.len() as int),
    ensures
        final(y_out)@ == layout.y_plane(rgb_data@) + old(y_out)@.skip(layout.luma_len()),
        final(u_out)@ == layout.u_plane(rgb_data@) + old(u_out)@.skip(layout.chroma_len()),
        final(v_out)@ == layout.v_plane(rgb_data@) + old(v_out)@.skip(layout.chroma_len()),
{
    let (width, height) = layout.dimensions;
    let (padded_width, _padded_height) = layout.dimensions_padded;
    let (r_offset, g_offset, b_offset) = layout.rgb_offsets;
    let stride = layout.pixel_stride;
    let source_row_len = padded_width * stride;
    let ghost data = rgb_data@;
    let ghost y0 = y_out@;
    let ghost u0 = u_out@;
    let ghost v0 = v_out@;
    let ghost w = width as int;
    let ghost h = height as int;

    let mut row: usize = 0;
    while row < height
        invariant
            layout.fits(data.len() as int, y0.len() as int, u0.len() as int, v0.len() as int),
            data == rgb_data@,
            width == layout.dimensions.0,
            height == layout.dimensions.1,
            padded_width == layout.dimensions_padded.0,
            stride == layout.pixel_stride,
            (r_offset, g_offset, b_offset) == layout.rgb_offsets,
            source_row_len as int == layout.row_len(),
            w == width,
            h == height,
            0 <= row <= height,
            y_out@.len() == y0.len(),
            u_out@ == u0,
            v_out@ == v0,
            forall|k: int| 0 <= k < row * w ==> y_out@[k] == layout.y_plane(data)[k],
            forall|k: int| row * w <= k < y0.len() ==> y_out@[k] == y0[k],
        decreases height - row,
    {
        proof {
            lemma_row_base(row as int, h, source_row_len as int);
        }
        let base = row * source_row_len;
        let mut x: usize = 0;
        while x < width
            invariant
                layout.fits(data.len() as int, y0.len() as int, u0.len() as int, v0.len() as int),
                data == rgb_data@,
                width == layout.dimensions.0,
                height == layout.dimensions.1,
                padded_width == layout.dimensions_padded.0,
                stride == layout.pixel_stride,
                (r_offset, g_offset, b_offset) == layout.rgb_offsets,
                source_row_len as int == layout.row_len(),
                w == width,
                h == height,
                0 <= row < height,
                base == row * source_row_len,
                0 <= x <= width,
                y_out@.len() == y0.len(),
                u_out@ == u0,
                v_out@ == v0,
                forall|k: int| 0 <= k < row * w + x ==> y_out@[k] == layout.y_plane(data)[k],
                forall|k: int| row * w + x <= k < y0.len() ==> y_out@[k] == y0[k],
            decreases width - x,
        {
            proof {
                lemma_byte_in_bounds(x as int, row as int, r_offset as int, stride as int, w, padded_width as int, h, source_row_len as int, data.len() as int);
                lemma_byte_in_bounds(x as int, row as int, g_offset as int, stride as int, w, padded_width as int, h, source_row_len as int, data.len() as int);
                lemma_byte_in_bounds(x as int, row as int, b_offset as int, stride as int, w, padded_width as int, h, source_row_len as int, data.len() as int);
                lemma_plane_index(row as int, x as int, w, h);
            }
            let p = base + x * stride;
            let value = rgb_to_y(rgb_data[p + r_offset], rgb_data[p + g_offset], rgb_data[p + b_offset]);
            let idx = row * width + x;
            y_out[idx] = value;
            proof {
                assert(layout.y_plane(data)[idx as int] == layout.luma_at(data, x as int, row as int));
            }
            x += 1;
        }
        assert((row + 1) * w == row * w + w) by (nonlinear_arith);
        row += 1;
    }
    proof {
        assert(h * w == layout.luma_len()) by (nonlinear_arith)
            requires h == layout.height(), w == layout.width();
        assert(y_out@ =~= layout.y_plane(data) + y0.skip(layout.luma_len()));
    }

    let half_width = width / 2;
    let half_height = height / 2;
    let ghost hw = half_width as int;
    proof {
        lemma_quarter(w, h);
    }
    let mut j: usize = 0;
    while j < half_height
        invariant
            layout.fits(data.len() as int, y0.len() as int, u0.len() as int, v0.len() as int),
            data == rgb_data@,
            width == layout.dimensions.0,
            height == layout.dimensions.1,
            padded_width == layout.dimensions_padded.0,
            stride == layout.pixel_stride,
            (r_offset, g_offset, b_offset) == layout.rgb_offsets,
            source_row_len as int == layout.row_len(),
            w == width,
            h == height,
            half_width == width / 2,
            half_height == height / 2,
            hw == half_width,
            layout.chroma_len() == layout.luma_len() / 4,
            0 <= j <= half_height,
            y_out@ == layout.y_plane(data) + y0.skip(layout.luma_len()),
            u_out@.len() == u0.len(),
            v_out@.len() == v0.len(),
            forall|k: int| 0 <= k < j * hw ==> u_out@[k] == layout.u_plane(data)[k],
            forall|k: int| j * hw <= k < u0.len() ==> u_out@[k] == u0[k],
            forall|k: int| 0 <= k < j * hw ==> v_out@[k] == layout.v_plane(data)[k],
            forall|k: int| j * hw <= k < v0.len() ==> v_out@[k] == v0[k],
        decreases half_height - j,
    {
        let row0 = 2 * j;
        proof {
            lemma_row_base(row0 as int, h, source_row_len as int);
            lemma_row_base(row0 as int + 1, h, source_row_len as int);
        }
        let base0 = row0 * source_row_len;
        let base1 = (row0 + 1) * source_row_len;
        let mut x: usize = 0;
        while x < half_width
            invariant
                layout.fits(data.len() as int, y0.len() as int, u0.len() as int, v0.len() as int),
                data == rgb_data@,
                width == layout.dimensions.0,
                height == layout.dimensions.1,
                padded_width == layout.dimensions_padded.0,
                stride == layout.pixel_stride,
                (r_offset, g_offset, b_offset) == layout.rgb_offsets,
                source_row_len as int == layout.row_len(),
                w == width,
                h == height,
                half_width == width / 2,
                half_height == height / 2,
                hw == half_width,
                layout.chroma_len() == layout.luma_len() / 4,
                0 <= j < half_height,
                row0 == 2 * j,
                base0 == row0 * source_row_len,
                base1 == (row0 + 1) * source_row_len,
                0 <= x <= half_width,
                y_out@ == layout.y_plane(data) + y0.skip(layout.luma_len()),
                u_out@.len() == u0.len(),
                v_out@.len() == v0.len(),
                forall|k: int| 0 <= k < j * hw + x ==> u_out@[k] == layout.u_plane(data)[k],
                forall|k: int| j * hw + x <= k < u0.len() ==> u_out@[k] == u0[k],
                forall|k: int| 0 <= k < j * hw + x ==> v_out@[k] == layout.v_plane(data)[k],
                forall|k: int| j * hw + x <= k < v0.len() ==> v_out@[k] == v0[k],
            decreases half_width - x,
        {
            proof {
                lemma_pixel_bytes(layout, data.len() as int, y0.len() as int, u0.len() as int, v0.len() as int, 2 * x as int, row0 as int);
                lemma_pixel_bytes(layout, data.len() as int, y0.len() as int, u0.len() as int, v0.len() as int, 2 * x as int + 1, row0 as int);
                lemma_pixel_bytes(layout, data.len() as int, y0.len() as int, u0.len() as int, v0.len() as int, 2 * x as int, row0 as int + 1);
                lemma_pixel_bytes(layout, data.len() as int, y0.len() as int, u0.len() as int, v0.len() as int, 2 * x as int + 1, row0 as int + 1);
                lemma_plane_index(j as int, x as int, hw, h / 2);
                assert((2 * x + 1) * stride == (2 * x) * stride + stride) by (nonlinear_arith);
            }
            let first = 2 * x * stride;
            let second = first + stride;
            let r = average_2x2(
                rgb_data[base0 + first + r_offset],
                rgb_data[base0 + second + r_offset],
                rgb_data[base1 + first + r_offset],
                rgb_data[base1 + second + r_offset],
            );
            let g = average_2x2(
                rgb_data[base0 + first + g_offset],
                rgb_data[base0 + second + g_offset],
                rgb_data[base1 + first + g_offset],
                rgb_data[base1 + second + g_offset],
            );
            let b = average_2x2(
                rgb_data[base0 + first + b_offset],
                rgb_data[base0 + second + b_offset],
                rgb_data[base1 + first + b_offset],
                rgb_data[base1 + second + b_offset],
            );
            let idx = j * half_width + x;
            u_out[idx] = chroma_u_of(r, g, b);
            v_out[idx] = chroma_v_of(r, g, b);
            proof {
                assert(layout.u_plane(data)[idx as int] == layout.u_at(data, x as int, j as int));
                assert(layout.v_plane(data)[idx as int] == layout.v_at(data, x as int, j as int));
            }
            x += 1;
        }
        assert((j + 1) * hw == j * hw + hw) by (nonlinear_arith);
        j += 1;
    }
    proof {
        assert((h / 2) * hw == layout.chroma_len()) by (nonlinear_arith)
            requires h == layout.height(), w == layout.width(), hw == w / 2;
        assert(u_out@ =~= layout.u_plane(data) + u0.skip(layout.chroma_len()));
        assert(v_out@ =~= layout.v_plane(data) + v0.skip(layout.chroma_len()));
    }
}

} // verus!
