use openh264::formats::arch::fixed::{fixed_pixel, write_yuv420_to_rgb_fixed};
use openh264::formats::arch::scalar::write_rgb8_to_yuv420;
use openh264::formats::arch::{Rgb8SourceLayout, Yuv420Planes};
use openh264::formats::rgb2yuv::write_yuv;
use openh264::formats::{
    AbgrSliceU32, ArgbSliceU32, BGRA8Source, BgrSliceU8, BgraSliceU32, BgraSliceU8, RGB8Source, RGBA8Source,
    RgbSliceU8, RgbaSliceU32, RgbaSliceU8, YUVBuffer, YUVSlices, YUVSource,
};

fn as_f32(p: (u8, u8, u8)) -> (f32, f32, f32) {
    (f32::from(p.0), f32::from(p.1), f32::from(p.2))
}

#[derive(Copy, Clone)]
struct PaddedRgbSliceU8<'a> {
    data: &'a [u8],
    dimensions: (usize, usize),
    stride: usize,
}

impl RGB8Source for PaddedRgbSliceU8<'_> {
    fn dimensions(&self) -> (usize, usize) {
        self.dimensions
    }

    fn dimensions_padded(&self) -> (usize, usize) {
        (self.stride, self.dimensions.1)
    }

    fn rgb8_data(&self) -> &[u8] {
        self.data
    }

    fn pixel_stride(&self) -> usize {
        3
    }

    fn rgb_channel_offsets(&self) -> (usize, usize, usize) {
        (0, 1, 2)
    }
}

#[derive(Copy, Clone)]
struct PaddedRgbaSliceU8<'a> {
    data: &'a [u8],
    dimensions: (usize, usize),
    stride: usize,
}

impl RGB8Source for PaddedRgbaSliceU8<'_> {
    fn dimensions(&self) -> (usize, usize) {
        self.dimensions
    }

    fn dimensions_padded(&self) -> (usize, usize) {
        (self.stride, self.dimensions.1)
    }

    fn rgb8_data(&self) -> &[u8] {
        self.data
    }

    fn pixel_stride(&self) -> usize {
        4
    }

    fn rgb_channel_offsets(&self) -> (usize, usize, usize) {
        (0, 1, 2)
    }
}

impl RGBA8Source for PaddedRgbaSliceU8<'_> {}

#[derive(Copy, Clone)]
struct PaddedBgraSliceU8<'a> {
    data: &'a [u8],
    dimensions: (usize, usize),
    stride: usize,
}

impl RGB8Source for PaddedBgraSliceU8<'_> {
    fn dimensions(&self) -> (usize, usize) {
        self.dimensions
    }

    fn dimensions_padded(&self) -> (usize, usize) {
        (self.stride, self.dimensions.1)
    }

    fn rgb8_data(&self) -> &[u8] {
        self.data
    }

    fn pixel_stride(&self) -> usize {
        4
    }

    fn rgb_channel_offsets(&self) -> (usize, usize, usize) {
        (2, 1, 0)
    }
}

impl BGRA8Source for PaddedBgraSliceU8<'_> {}

#[test]
fn rgb_slice_4x4() {
    let vec: Vec<u8> = (0..4 * 4 * 3).collect();
    let slice = RgbSliceU8::new(&vec, (4, 4));
    assert_eq!(as_f32(slice.pixel_u8(0, 0)), (0., 1., 2.));
    assert_eq!(as_f32(slice.pixel_u8(1, 0)), (3., 4., 5.));
    assert_eq!(as_f32(slice.pixel_u8(2, 0)), (6., 7., 8.));
    assert_eq!(as_f32(slice.pixel_u8(0, 1)), (12., 13., 14.));
    assert_eq!(as_f32(slice.pixel_u8(1, 1)), (15., 16., 17.));
    assert_eq!(as_f32(slice.pixel_u8(2, 1)), (18., 19., 20.));
    assert_eq!(as_f32(slice.pixel_u8(0, 2)), (24., 25., 26.));
    assert_eq!(as_f32(slice.pixel_u8(1, 2)), (27., 28., 29.));
    assert_eq!(as_f32(slice.pixel_u8(2, 2)), (30., 31., 32.));
}

#[test]
fn bgr_slice_4x4() {
    let vec: Vec<u8> = (0..4 * 4 * 3).collect();
    let slice = BgrSliceU8::new(&vec, (4, 4));
    assert_eq!(as_f32(slice.pixel_u8(0, 0)), (2., 1., 0.));
    assert_eq!(as_f32(slice.pixel_u8(1, 0)), (5., 4., 3.));
    assert_eq!(as_f32(slice.pixel_u8(2, 0)), (8., 7., 6.));
    assert_eq!(as_f32(slice.pixel_u8(0, 1)), (14.0, 13.0, 12.0));
    assert_eq!(as_f32(slice.pixel_u8(1, 1)), (17.0, 16.0, 15.0));
    assert_eq!(as_f32(slice.pixel_u8(2, 1)), (20.0, 19.0, 18.0));
    assert_eq!(as_f32(slice.pixel_u8(0, 2)), (26.0, 25.0, 24.0));
    assert_eq!(as_f32(slice.pixel_u8(1, 2)), (29.0, 28.0, 27.0));
    assert_eq!(as_f32(slice.pixel_u8(2, 2)), (32.0, 31.0, 30.0));
}

#[test]
fn rgba_slice_2x2() {
    let data: [u32; 5] = [0xFF000102, 0xFF010002, 0xFF000201, 0xFF020001, 0xAABBCCDD];
    let slice = RgbaSliceU32::new(&data[1..], (2, 2));
    assert_eq!(as_f32(slice.pixel_u8(0, 0)), (255., 1., 0.));
    assert_eq!(as_f32(slice.pixel_u8(1, 0)), (255., 0., 2.));
    assert_eq!(as_f32(slice.pixel_u8(0, 1)), (255., 2., 0.));
    assert_eq!(as_f32(slice.pixel_u8(1, 1)), (170., 187., 204.));
}

#[test]
fn argb_slice_2x2() {
    let data: [u32; 5] = [0xFF000102, 0xFF010002, 0xFF000201, 0xFF020001, 0xAABBCCDD];
    let slice = ArgbSliceU32::new(&data[1..], (2, 2));
    assert_eq!(as_f32(slice.pixel_u8(0, 0)), (1., 0., 2.));
    assert_eq!(as_f32(slice.pixel_u8(1, 0)), (0., 2., 1.));
    assert_eq!(as_f32(slice.pixel_u8(0, 1)), (2., 0., 1.));
    assert_eq!(as_f32(slice.pixel_u8(1, 1)), (187., 204., 221.));
}

#[test]
fn bgra_slice_2x2() {
    let data: [u32; 5] = [0xFF000102, 0xFF010002, 0xFF000201, 0xFF020001, 0xAABBCCDD];
    let slice = BgraSliceU32::new(&data[1..], (2, 2));
    assert_eq!(as_f32(slice.pixel_u8(0, 0)), (0., 1., 255.));
    assert_eq!(as_f32(slice.pixel_u8(1, 0)), (2., 0., 255.));
    assert_eq!(as_f32(slice.pixel_u8(0, 1)), (0., 2., 255.));
    assert_eq!(as_f32(slice.pixel_u8(1, 1)), (204., 187., 170.));
}

#[test]
fn abgr_slice_2x2() {
    let data: [u32; 5] = [0xFF000102, 0xFF010002, 0xFF000201, 0xFF020001, 0xAABBCCDD];
    let slice = AbgrSliceU32::new(&data[1..], (2, 2));
    assert_eq!(as_f32(slice.pixel_u8(0, 0)), (2., 0., 1.));
    assert_eq!(as_f32(slice.pixel_u8(1, 0)), (1., 2., 0.));
    assert_eq!(as_f32(slice.pixel_u8(0, 1)), (1., 0., 2.));
    assert_eq!(as_f32(slice.pixel_u8(1, 1)), (221., 204., 187.));
}

#[test]
fn accelerated_rgb24_matches_scalar_for_packed_and_padded_rows() {
    const DIMENSIONS: (usize, usize) = (74, 4);
    const STRIDE: usize = 80;
    let padded_data = (0..STRIDE * DIMENSIONS.1 * 3)
        .map(|index| (index.wrapping_mul(47) % 251) as u8)
        .collect::<Vec<_>>();
    let packed_data = (0..DIMENSIONS.1)
        .flat_map(|row| &padded_data[row * STRIDE * 3..row * STRIDE * 3 + DIMENSIONS.0 * 3])
        .copied()
        .collect::<Vec<_>>();
    let packed = RgbSliceU8::new(&packed_data, DIMENSIONS);
    let padded = PaddedRgbSliceU8 {
        data: &padded_data,
        dimensions: DIMENSIONS,
        stride: STRIDE,
    };

    let mut y_reference = vec![0; DIMENSIONS.0 * DIMENSIONS.1];
    let mut u_reference = vec![0; DIMENSIONS.0 * DIMENSIONS.1 / 4];
    let mut v_reference = vec![0; DIMENSIONS.0 * DIMENSIONS.1 / 4];
    let layout = Rgb8SourceLayout {
        dimensions: DIMENSIONS,
        dimensions_padded: packed.dimensions_padded(),
        pixel_stride: packed.pixel_stride(),
        rgb_offsets: packed.rgb_channel_offsets(),
    };
    let mut target = Yuv420Planes {
        y: &mut y_reference,
        u: &mut u_reference,
        v: &mut v_reference,
    };
    write_rgb8_to_yuv420(packed.rgb8_data(), layout, &mut target);

    let mut y_packed = vec![0; y_reference.len()];
    let mut u_packed = vec![0; u_reference.len()];
    let mut v_packed = vec![0; v_reference.len()];
    write_yuv(packed, DIMENSIONS, &mut y_packed, &mut u_packed, &mut v_packed);

    let mut y_padded = vec![0; y_reference.len()];
    let mut u_padded = vec![0; u_reference.len()];
    let mut v_padded = vec![0; v_reference.len()];
    write_yuv(padded, DIMENSIONS, &mut y_padded, &mut u_padded, &mut v_padded);

    assert_eq!(y_packed, y_reference);
    assert_eq!(u_packed, u_reference);
    assert_eq!(v_packed, v_reference);
    assert_eq!(y_padded, y_reference);
    assert_eq!(u_padded, u_reference);
    assert_eq!(v_padded, v_reference);
}

#[test]
fn test_new_valid() {
    let y = vec![0u8; 20];
    let u = vec![0u8; 5];
    let v = vec![0u8; 5];
    let _ = YUVSlices::new((&y, &u, &v), (10, 2), (10, 5, 5));
}

#[test]
fn rgb8_conversion_handles_padded_rows() {
    let dimensions = (4, 2);
    let stride = 6;
    let padded_data: Vec<u8> = (0..stride * dimensions.1 * 3).map(|value| value as u8).collect();
    let packed_data = [
        &padded_data[0..dimensions.0 * 3],
        &padded_data[stride * 3..(stride + dimensions.0) * 3],
    ]
    .concat();
    let padded = PaddedRgbSliceU8 {
        data: &padded_data,
        dimensions,
        stride,
    };
    let packed = RgbSliceU8::new(&packed_data, dimensions);

    let mut padded_yuv = YUVBuffer::new(dimensions.0, dimensions.1);
    padded_yuv.read_rgb8(padded);
    let packed_yuv = YUVBuffer::from_rgb8_source(packed);

    assert_eq!(padded_yuv.y(), packed_yuv.y());
    assert_eq!(padded_yuv.u(), packed_yuv.u());
    assert_eq!(padded_yuv.v(), packed_yuv.v());
}

#[test]
fn rgba_and_bgra_conversion_have_exact_i420_values() {
    let rgba = RgbaSliceU8::new(&[255, 0, 0, 7, 255, 0, 0, 9, 255, 0, 0, 11, 255, 0, 0, 13], (2, 2));
    let bgra = BgraSliceU8::new(&[0, 0, 255, 17, 0, 0, 255, 19, 0, 0, 255, 23, 0, 0, 255, 29], (2, 2));

    for actual in [YUVBuffer::from_rgba8_source(rgba), YUVBuffer::from_bgra8_source(bgra)] {
        assert_eq!(actual.y(), [81, 81, 81, 81]);
        assert_eq!(actual.u(), [90]);
        assert_eq!(actual.v(), [239]);
    }
}

#[test]
fn rgba_and_bgra_conversions_match_rgb8_for_packed_and_padded_rows() {
    const DIMENSIONS: (usize, usize) = (74, 4);
    const STRIDE: usize = 80;
    let mut packed_rgb = vec![0; DIMENSIONS.0 * DIMENSIONS.1 * 3];
    let mut packed_rgba = vec![0; DIMENSIONS.0 * DIMENSIONS.1 * 4];
    let mut packed_bgra = vec![0; DIMENSIONS.0 * DIMENSIONS.1 * 4];
    let mut padded_rgba = vec![255; STRIDE * DIMENSIONS.1 * 4];
    let mut padded_bgra = vec![255; STRIDE * DIMENSIONS.1 * 4];

    for y in 0..DIMENSIONS.1 {
        for x in 0..DIMENSIONS.0 {
            let r = ((x * 37 + y * 19) % 256) as u8;
            let g = ((x * 11 + y * 53) % 256) as u8;
            let b = ((x * 71 + y * 7) % 256) as u8;
            let rgb_offset = (y * DIMENSIONS.0 + x) * 3;
            let packed_offset = (y * DIMENSIONS.0 + x) * 4;
            let padded_offset = (y * STRIDE + x) * 4;
            packed_rgb[rgb_offset..rgb_offset + 3].copy_from_slice(&[r, g, b]);
            packed_rgba[packed_offset..packed_offset + 4].copy_from_slice(&[r, g, b, 17]);
            packed_bgra[packed_offset..packed_offset + 4].copy_from_slice(&[b, g, r, 19]);
            padded_rgba[padded_offset..padded_offset + 4].copy_from_slice(&[r, g, b, 23]);
            padded_bgra[padded_offset..padded_offset + 4].copy_from_slice(&[b, g, r, 29]);
        }
    }

    let reference = YUVBuffer::from_rgb8_source(RgbSliceU8::new(&packed_rgb, DIMENSIONS));
    let rgba = YUVBuffer::from_rgba8_source(RgbaSliceU8::new(&packed_rgba, DIMENSIONS));
    let bgra = YUVBuffer::from_bgra8_source(BgraSliceU8::new(&packed_bgra, DIMENSIONS));
    let padded_rgba = PaddedRgbaSliceU8 {
        data: &padded_rgba,
        dimensions: DIMENSIONS,
        stride: STRIDE,
    };
    let padded_bgra = PaddedBgraSliceU8 {
        data: &padded_bgra,
        dimensions: DIMENSIONS,
        stride: STRIDE,
    };
    let mut read_rgba = YUVBuffer::new(DIMENSIONS.0, DIMENSIONS.1);
    let mut read_bgra = YUVBuffer::new(DIMENSIONS.0, DIMENSIONS.1);
    read_rgba.read_rgba8(padded_rgba);
    read_bgra.read_bgra8(padded_bgra);

    for actual in [&rgba, &bgra, &read_rgba, &read_bgra] {
        assert_eq!(actual.y(), reference.y());
        assert_eq!(actual.u(), reference.u());
        assert_eq!(actual.v(), reference.v());
    }
}

#[test]
fn fixed_point_pixels_match_bt601_corners() {
    assert_eq!(fixed_pixel(16, 128, 128), (0, 0, 0));
    assert_eq!(fixed_pixel(235, 128, 128), (255, 255, 255));
    assert_eq!(fixed_pixel(81, 90, 240), (255, 0, 0));
    assert_eq!(fixed_pixel(0, 0, 0), (0, 135, 0));
    assert_eq!(fixed_pixel(255, 255, 255), (255, 125, 255));
}

#[test]
fn fixed_point_conversion_covers_whole_blocks_only() {
    let (w, h) = (20usize, 2usize);
    let y: Vec<u8> = (0..w * h).map(|i| (16 + i * 7 % 200) as u8).collect();
    let u: Vec<u8> = (0..w / 2).map(|i| (100 + i * 3) as u8).collect();
    let v: Vec<u8> = (0..w / 2).map(|i| (140 - i * 5) as u8).collect();
    let mut target = vec![7u8; w * h * 4];
    let done = write_yuv420_to_rgb_fixed(&y, &u, &v, (w, h), (w, w / 2, w / 2), &mut target, 4);
    assert_eq!(done, 16);
    for row in 0..h {
        for x in 0..w {
            let px = &target[(row * w + x) * 4..(row * w + x) * 4 + 4];
            if x < done {
                let (r, g, b) = fixed_pixel(y[row * w + x], u[x / 2], v[x / 2]);
                assert_eq!(px, &[r, g, b, 255]);
            } else {
                assert_eq!(px, &[7, 7, 7, 7]);
            }
        }
    }
}

#[test]
fn buffer_is_its_planes_in_order() {
    let data: Vec<u8> = (0..24).collect();
    let buf = YUVBuffer::from_vec(data.clone(), 4, 4);
    assert_eq!(buf.y().len(), 16);
    assert_eq!(buf.u().len(), 4);
    assert_eq!(buf.v().len(), 4);
    assert_eq!([buf.y(), buf.u(), buf.v()].concat(), data);
    assert_eq!(buf.strides(), (4, 2, 2));
}
