//! Integer (fixed-point) conversion of I420 planes to RGB or RGBA pixels, in blocks of
//! sixteen pixels per row; the remaining pixels of a row are left to the floating-point path.

use vstd::prelude::*;
use vstd::arithmetic::div_mod::lemma_fundamental_div_mod_converse;

verus! {

/// Pixels converted together.
pub const BLOCK: usize = 16;

/// `x` clamped to the range of an `i16`.
pub open spec fn sat_i16(x: int) -> int {
    if x < -32768 {
        -32768
    } else if x > 32767 {
        32767
    } else {
        x
    }
}

/// `x` clamped to `0..=255`.
pub open spec fn clamp_u8(x: int) -> u8 {
    if x < 0 {
        0
    } else if x > 255 {
        255
    } else {
        x as u8
    }
}

/// One output channel: the scaled luma plus two chroma terms and the rounding bias, each sum
/// saturated to an `i16`, divided by 64 rounding down, and clamped to a byte.
pub open spec fn fixed_mix(y: int, a: int, b: int) -> u8 {
    clamp_u8(sat_i16(sat_i16(y + a) + sat_i16(b + 32)) / 64)
}

/// The luma term, scaled by 64: `(y - 16) * 74.5`, the half rounded down.
pub open spec fn fixed_luma(y: u8) -> int {
    (y - 16) * 74 + (y - 16) / 2
}

/// The red, green and blue bytes of a pixel in limited-range BT.601, computed in fixed point.
pub open spec fn fixed_rgb(y: u8, u: u8, v: u8) -> (u8, u8, u8) {
    let yv = fixed_luma(y);
    let us = u - 128;
    let vs = v - 128;
    (
        fixed_mix(yv, 0, vs * 102 + vs / 4),
        fixed_mix(yv, us * -25, vs * -52),
        fixed_mix(yv, us * 129, 0),
    )
}

/// Byte `c` of the output pixel for the samples `y`, `u`, `v`: red, green, blue, then an opaque
/// alpha.
pub open spec fn fixed_byte(y: u8, u: u8, v: u8, c: int) -> u8 {
    if c == 0 {
        fixed_rgb(y, u, v).0
    } else if c == 1 {
        fixed_rgb(y, u, v).1
    } else if c == 2 {
        fixed_rgb(y, u, v).2
    } else {
        255
    }
}

/// How many pixels of each row of width `w` the block conversion covers.
pub open spec fn block_end(w: int) -> int {
    w - w % (BLOCK as int)
}

/// The planes hold every row that the conversion reads: `w` luma bytes per row and `w / 2`
/// chroma bytes per pair of rows, at the given strides.
pub open spec fn planes_cover(
    y_len: int,
    u_len: int,
    v_len: int,
    w: int,
    h: int,
    strides: (usize, usize, usize),
) -> bool {
    h == 0 || {
        &&& (h - 1) * strides.0 + w <= y_len
        &&& ((h - 1) / 2) * strides.1 + w / 2 <= u_len
        &&& ((h - 1) / 2) * strides.2 + w / 2 <= v_len
    }
}

/// The target after converting the blocks: for each byte, its pixel `(x, row)` and channel `c`;
/// pixels before `block_end(w)` are converted, the others keep what `old` held.
pub open spec fn fixed_image(
    y_plane: Seq<u8>,
    u_plane: Seq<u8>,
    v_plane: Seq<u8>,
    w: int,
    strides: (usize, usize, usize),
    pixel_len: int,
    old: Seq<u8>,
) -> Seq<u8> {
    Seq::new(
        old.len(),
        |k: int|
            {
                let p = k / pixel_len;
                let c = k % pixel_len;
                let x = p % w;
                let row = p / w;
                if x < block_end(w) {
                    fixed_byte(
                        y_plane[row * strides.0 + x],
                        u_plane[(row / 2) * strides.1 + x / 2],
                        v_plane[(row / 2) * strides.2 + x / 2],
                        c,
                    )
                } else {
                    old[k]
                }
            },
    )
}

/// Saturates an `i32` to the range of an `i16`.
fn saturate(x: i32) -> (r: i32)
    ensures
        r == sat_i16(x as int),
{
    if x < -32768 {
        -32768
    } else if x > 32767 {
        32767
    } else {
        x
    }
}

/// One output channel; see [`fixed_mix`].
fn mix(y: i32, a: i32, b: i32) -> (r: u8)
    requires
        -20000 <= y <= 20000,
        -20000 <= a <= 20000,
        -20000 <= b <= 20000,
    ensures
        r == fixed_mix(y as int, a as int, b as int),
{
    let s = saturate(saturate(y + a) + saturate(b + 32));
    let shifted = ((s + 32768) as u32 / 64) as i32 - 512;
    proof {
        assert(shifted == s / 64);
    }
    if shifted < 0 {
        0
    } else if shifted > 255 {
        255
    } else {
        shifted as u8
    }
}

/// The red, green and blue bytes of one pixel; see [`fixed_rgb`].
pub fn fixed_pixel(y: u8, u: u8, v: u8) -> (rgb: (u8, u8, u8))
    ensures
        rgb == fixed_rgb(y, u, v),
{
    let yv = (y as i32 - 16) * 74 + (y / 2) as i32 - 8;
    let us = u as i32 - 128;
    let vs = v as i32 - 128;
    let rv = vs * 102 + (v / 4) as i32 - 32;
    let gu = 0 - us * 25;
    let gv = 0 - vs * 52;
    let bu = us * 129;
    proof {
        assert(yv == fixed_luma(y));
        assert(rv == vs * 102 + vs / 4);
        assert(gu == us * -25);
        assert(gv == vs * -52);
    }
    (mix(yv, 0, rv), mix(yv, gu, gv), mix(yv, bu, 0))
}

/// Byte `k = (row * w + x) * pixel_len + c` of the target belongs to pixel `(x, row)`, channel
/// `c`, and lies before `w * h * pixel_len`.
proof fn lemma_target_index(row: int, x: int, c: int, w: int, h: int, pixel_len: int)
    requires
        0 <= row < h,
        0 <= x < w,
        0 <= c < pixel_len,
    ensures
        0 <= (row * w + x) * pixel_len,
        ((row * w + x) * pixel_len + c) / pixel_len == row * w + x,
        ((row * w + x) * pixel_len + c) % pixel_len == c,
        (row * w + x) % w == x,
        (row * w + x) / w == row,
        (row * w + x) * pixel_len + pixel_len <= w * h * pixel_len,
{
    assert(0 <= row * w) by (nonlinear_arith)
        requires
            0 <= row,
            0 <= w,
    ;
    assert(0 <= (row * w + x) * pixel_len) by (nonlinear_arith)
        requires
            0 <= row * w + x,
            0 <= pixel_len,
    ;
    lemma_fundamental_div_mod_converse((row * w + x) * pixel_len + c, pixel_len, row * w + x, c);
    lemma_fundamental_div_mod_converse(row * w + x, w, row, x);
    assert((row * w + x) * pixel_len + pixel_len <= w * h * pixel_len) by (nonlinear_arith)
        requires
            0 <= row < h,
            0 <= x < w,
            0 < pixel_len,
    ;
}

/// Row `row` starts within the planes, and its reads stay inside them.
proof fn lemma_rows_in_planes(
    row: int,
    h: int,
    w: int,
    strides: (usize, usize, usize),
    y_len: int,
    u_len: int,
    v_len: int,
)
    requires
        0 <= row < h,
        0 <= w,
        planes_cover(y_len, u_len, v_len, w, h, strides),
    ensures
        0 <= row * strides.0,
        row * strides.0 + w <= y_len,
        0 <= (row / 2) * strides.1,
        (row / 2) * strides.1 + w / 2 <= u_len,
        0 <= (row / 2) * strides.2,
        (row / 2) * strides.2 + w / 2 <= v_len,
{
    let s0 = strides.0 as int;
    let s1 = strides.1 as int;
    let s2 = strides.2 as int;
    assert(0 <= row * s0 <= (h - 1) * s0) by (nonlinear_arith)
        requires
            0 <= row <= h - 1,
            0 <= s0,
    ;
    assert(0 <= row / 2 <= (h - 1) / 2);
    assert(0 <= (row / 2) * s1 <= ((h - 1) / 2) * s1) by (nonlinear_arith)
        requires
            0 <= row / 2 <= (h - 1) / 2,
            0 <= s1,
    ;
    assert(0 <= (row / 2) * s2 <= ((h - 1) / 2) * s2) by (nonlinear_arith)
        requires
            0 <= row / 2 <= (h - 1) / 2,
            0 <= s2,
    ;
}

/// Converts the pixels of each row up to the last whole block of sixteen, in fixed point, into
/// `target` (`pixel_len` bytes per pixel: RGB or RGBA with opaque alpha); the other pixels of
/// each row keep what they held. Returns how many pixels of each row were converted.
pub fn write_yuv420_to_rgb_fixed(
    y_plane: &[u8],
    u_plane: &[u8],
    v_plane: &[u8],
    dim: (usize, usize),
    strides: (usize, usize, usize),
    target: &mut [u8],
    pixel_len: usize,
) -> (done: usize)
    requires
        pixel_len == 3 || pixel_len == 4,
        old(target)@.len() == dim.0 * dim.1 * pixel_len,
        planes_cover(
            y_plane@.len() as int,
            u_plane@.len() as int,
            v_plane@.len() as int,
            dim.0 as int,
            dim.1 as int,
            strides,
        ),
    ensures
        done == block_end(dim.0 as int),
        final(target)@ == fixed_image(
            y_plane@,
            u_plane@,
            v_plane@,
            dim.0 as int,
            strides,
            pixel_len as int,
            old(target)@,
        ),
{
    let (width, height) = dim;
    let done = width - width % BLOCK;
    let y_len = y_plane.len();
    let u_len = u_plane.len();
    let v_len = v_plane.len();
    let t_len = target.len();
    let ghost t0 = target@;
    let ghost w = width as int;
    let ghost h = height as int;
    let ghost pl = pixel_len as int;
    let ghost expected = fixed_image(y_plane@, u_plane@, v_plane@, w, strides, pl, t0);
    let mut row: usize = 0;
    while row < height
        invariant
            pixel_len == 3 || pixel_len == 4,
            w == width,
            h == height,
            pl == pixel_len,
            (width, height) == dim,
            done == block_end(w),
            t0.len() == w * h * pl,
            planes_cover(y_plane@.len() as int, u_plane@.len() as int, v_plane@.len() as int, w, h, strides),
            expected == fixed_image(y_plane@, u_plane@, v_plane@, w, strides, pl, t0),
            0 <= row <= height,
            y_len == y_plane@.len(),
            u_len == u_plane@.len(),
            v_len == v_plane@.len(),
            t_len == t0.len(),
            target@.len() == t0.len(),
            forall|k: int| 0 <= k < row * w * pl ==> target@[k] == expected[k],
            forall|k: int| row * w * pl <= k < t0.len() ==> target@[k] == t0[k],
        decreases height - row,
    {
        proof {
            lemma_rows_in_planes(
                row as int,
                h,
                w,
                strides,
                y_plane@.len() as int,
                u_plane@.len() as int,
                v_plane@.len() as int,
            );
        }
        let y_base = row * strides.0;
        let u_base = (row / 2) * strides.1;
        let v_base = (row / 2) * strides.2;
        let mut x: usize = 0;
        while x < width
            invariant
                pixel_len == 3 || pixel_len == 4,
                w == width,
                h == height,
                pl == pixel_len,
                done == block_end(w),
                t0.len() == w * h * pl,
                expected == fixed_image(y_plane@, u_plane@, v_plane@, w, strides, pl, t0),
                0 <= row < height,
                0 <= x <= width,
                y_base == row * strides.0,
                u_base == (row / 2) * strides.1,
                v_base == (row / 2) * strides.2,
                y_base + w <= y_plane@.len(),
                u_base + w / 2 <= u_plane@.len(),
                v_base + w / 2 <= v_plane@.len(),
                y_len == y_plane@.len(),
                u_len == u_plane@.len(),
                v_len == v_plane@.len(),
                t_len == t0.len(),
                target@.len() == t0.len(),
                forall|k: int| 0 <= k < (row * w + x) * pl ==> target@[k] == expected[k],
                forall|k: int| (row * w + x) * pl <= k < t0.len() ==> target@[k] == t0[k],
            decreases width - x,
        {
            let ghost before = target@;
            proof {
                lemma_target_index(row as int, x as int, 0, w, h, pl);
                assert(row * w * pl == (row * w) * pl) by (nonlinear_arith);
            }
            let front = (row * width + x) * pixel_len;
            if x < done {
                proof {
                    assert(done % 16 == 0 && done <= width);
                    assert(x / 2 < w / 2);
                }
                let (r, g, b) = fixed_pixel(y_plane[y_base + x], u_plane[u_base + x / 2], v_plane[v_base + x / 2]);
                target[front] = r;
                target[front + 1] = g;
                target[front + 2] = b;
                if pixel_len == 4 {
                    target[front + 3] = 255;
                }
            }
            proof {
                assert forall|k: int| 0 <= k < (row * w + x + 1) * pl implies target@[k] == expected[k] by {
                    if k >= front {
                        let c = k - front;
                        assert((row * w + x + 1) * pl == (row * w + x) * pl + pl) by (nonlinear_arith);
                        lemma_target_index(row as int, x as int, c, w, h, pl);
                    }
                }
                assert forall|k: int| (row * w + x + 1) * pl <= k < t0.len() implies target@[k] == t0[k] by {
                    assert((row * w + x + 1) * pl == (row * w + x) * pl + pl) by (nonlinear_arith);
                }
            }
            x += 1;
        }
        proof {
            assert((row * w + w) * pl == (row + 1) * w * pl) by (nonlinear_arith);
        }
        row += 1;
    }
    proof {
        assert(target@ =~= expected);
    }
    done
}

/// The bytes of a pixel converted in fixed point are the limited-range BT.601 inverse, scaled by
/// 64: with `Y = (y - 16) * 74 + (y - 16) / 2` (that is `(y - 16) * 74.5`, the half rounded
/// down), `U = u - 128` and `V = v - 128`, each byte is `(Y + chroma + 32) / 64`, rounded down
/// and clamped to 0..=255, where the chroma is `102 * V + V / 4` for red, `-25 * U - 52 * V` for
/// green and `129 * U` for blue. So red does not depend on `u`, nor blue on `v`.
pub proof fn law_fixed_pixel_bt601(y: u8, u: u8, v: u8, other_u: u8, other_v: u8)
    ensures
        ({
            let yy = (y - 16) * 74 + (y - 16) / 2;
            let us = u - 128;
            let vs = v - 128;
            let r = (yy + 102 * vs + vs / 4 + 32) / 64;
            let g = (yy - 25 * us - 52 * vs + 32) / 64;
            let b = (yy + 129 * us + 32) / 64;
            &&& fixed_rgb(y, u, v).0 as int == if r < 0 {
                0
            } else if r > 255 {
                255
            } else {
                r
            }
            &&& fixed_rgb(y, u, v).1 as int == if g < 0 {
                0
            } else if g > 255 {
                255
            } else {
                g
            }
            &&& fixed_rgb(y, u, v).2 as int == if b < 0 {
                0
            } else if b > 255 {
                255
            } else {
                b
            }
        }),
        fixed_rgb(y, u, v).0 == fixed_rgb(y, other_u, v).0,
        fixed_rgb(y, u, v).2 == fixed_rgb(y, u, other_v).2,
{
    let yy = (y - 16) * 74 + (y - 16) / 2;
    let us = u - 128;
    let vs = v - 128;
    assert(-1192 <= yy <= 17805);
    assert(-128 <= us <= 127 && -128 <= vs <= 127);
    assert(-13088 <= 102 * vs + vs / 4 <= 12985);
    let b = (yy + 129 * us + 32) / 64;
    if yy + 129 * us > 32767 {
        assert(b > 255);
        assert(sat_i16(yy + 129 * us) == 32767);
        assert(sat_i16(32767 + sat_i16(0int + 32)) / 64 == 511);
    }
}

/// In the converted image, pixel `(x, row)` of a block takes its red, green and blue bytes, in
/// that order, from its own luma sample and from the chroma samples of its 2x2 block (row
/// `row / 2`, column `x / 2` of the U and V planes), and, with four bytes per pixel, an opaque
/// alpha of 255; a pixel past the last whole block keeps its bytes.
pub proof fn law_fixed_image_pixel(
    y_plane: Seq<u8>,
    u_plane: Seq<u8>,
    v_plane: Seq<u8>,
    w: int,
    h: int,
    strides: (usize, usize, usize),
    pixel_len: int,
    old: Seq<u8>,
    x: int,
    row: int,
)
    requires
        pixel_len == 3 || pixel_len == 4,
        old.len() == w * h * pixel_len,
        0 <= x < w,
        0 <= row < h,
    ensures
        ({
            let img = fixed_image(y_plane, u_plane, v_plane, w, strides, pixel_len, old);
            let at = (row * w + x) * pixel_len;
            let rgb = fixed_rgb(
                y_plane[row * strides.0 + x],
                u_plane[(row / 2) * strides.1 + x / 2],
                v_plane[(row / 2) * strides.2 + x / 2],
            );
            &&& x < block_end(w) ==> img[at] == rgb.0 && img[at + 1] == rgb.1 && img[at + 2]
                == rgb.2
            &&& x < block_end(w) && pixel_len == 4 ==> img[at + 3] == 255
            &&& x >= block_end(w) ==> forall|c: int|
                0 <= c < pixel_len ==> #[trigger] img[at + c] == old[at + c]
        }),
{
    let img = fixed_image(y_plane, u_plane, v_plane, w, strides, pixel_len, old);
    let at = (row * w + x) * pixel_len;
    lemma_target_index(row, x, 0, w, h, pixel_len);
    lemma_target_index(row, x, 1, w, h, pixel_len);
    lemma_target_index(row, x, 2, w, h, pixel_len);
    if pixel_len == 4 {
        lemma_target_index(row, x, 3, w, h, pixel_len);
    }
    assert forall|c: int| 0 <= c < pixel_len && x >= block_end(w) implies #[trigger] img[at + c]
        == old[at + c] by {
        lemma_target_index(row, x, c, w, h, pixel_len);
    }
}

} // verus!
