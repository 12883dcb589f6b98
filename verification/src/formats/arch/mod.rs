//! Layout descriptions shared by the RGB to YUV 4:2:0 conversion routines.

pub mod fixed;
pub mod scalar;

use vstd::prelude::*;
use vstd::arithmetic::div_mod::lemma_fundamental_div_mod_converse;

verus! {

/// Luma of an RGB triple in limited-range BT.601 fixed-point arithmetic.
pub open spec fn luma(r: int, g: int, b: int) -> int {
    (66 * r + 129 * g + 25 * b) / 256 + 16
}

/// Blue-difference chroma of an (averaged) RGB triple; `/` floors like an arithmetic shift.
pub open spec fn chroma_u(r: int, g: int, b: int) -> int {
    (-38 * r + 112 * b - 74 * g) / 256 + 128
}

/// Red-difference chroma of an (averaged) RGB triple; `/` floors like an arithmetic shift.
pub open spec fn chroma_v(r: int, g: int, b: int) -> int {
    (112 * r - 18 * b - 94 * g) / 256 + 128
}

/// Rounded average of the four samples of a 2x2 block.
pub open spec fn average4(a: int, b: int, c: int, d: int) -> int {
    (a + b + c + d + 2) / 4
}

/// Describes where the red, green and blue bytes of each pixel lie in a packed RGB-like buffer.
#[derive(Copy, Clone)]
pub struct Rgb8SourceLayout {
    /// Visible size `(w, h)` of the image.
    pub dimensions: (usize, usize),
    /// Size `(w, h)` of the buffer including row padding.
    pub dimensions_padded: (usize, usize),
    /// Bytes per pixel.
    pub pixel_stride: usize,
    /// Byte offsets of red, green and blue within a pixel.
    pub rgb_offsets: (usize, usize, usize),
}

/// The three destination planes of an I420 image.
pub struct Yuv420Planes<'a> {
    /// Luma plane, `w * h` bytes are written.
    pub y: &'a mut [u8],
    /// Blue-difference plane, `w * h / 4` bytes are written.
    pub u: &'a mut [u8],
    /// Red-difference plane, `w * h / 4` bytes are written.
    pub v: &'a mut [u8],
}

impl Rgb8SourceLayout {
    pub open spec fn width(self) -> int {
        self.dimensions.0 as int
    }

    pub open spec fn height(self) -> int {
        self.dimensions.1 as int
    }

    /// Number of bytes in one (padded) source row.
    pub open spec fn row_len(self) -> int {
        self.dimensions_padded.0 * self.pixel_stride
    }

    /// Number of luma samples written.
    pub open spec fn luma_len(self) -> int {
        self.width() * self.height()
    }

    /// Number of samples written to each chroma plane.
    pub open spec fn chroma_len(self) -> int {
        (self.width() / 2) * (self.height() / 2)
    }

    /// Index of byte `c` of pixel `(x, y)` in the source buffer.
    pub open spec fn byte_index(self, x: int, y: int, c: int) -> int {
        y * self.row_len() + x * self.pixel_stride + c
    }

    /// Value of byte `c` of pixel `(x, y)`.
    pub open spec fn channel(self, data: Seq<u8>, x: int, y: int, c: int) -> int {
        data[self.byte_index(x, y, c)] as int
    }

    /// Luma of pixel `(x, y)`.
    pub open spec fn luma_at(self, data: Seq<u8>, x: int, y: int) -> u8 {
        luma(
            self.channel(data, x, y, self.rgb_offsets.0 as int),
            self.channel(data, x, y, self.rgb_offsets.1 as int),
            self.channel(data, x, y, self.rgb_offsets.2 as int),
        ) as u8
    }

    /// Rounded average of channel byte `c` over the 2x2 block whose top-left pixel is `(2i, 2j)`.
    pub open spec fn block_average(self, data: Seq<u8>, i: int, j: int, c: int) -> int {
        average4(
            self.channel(data, 2 * i, 2 * j, c),
            self.channel(data, 2 * i + 1, 2 * j, c),
            self.channel(data, 2 * i, 2 * j + 1, c),
            self.channel(data, 2 * i + 1, 2 * j + 1, c),
        )
    }

    /// U sample of the 2x2 block `(i, j)`.
    pub open spec fn u_at(self, data: Seq<u8>, i: int, j: int) -> u8 {
        chroma_u(
            self.block_average(data, i, j, self.rgb_offsets.0 as int),
            self.block_average(data, i, j, self.rgb_offsets.1 as int),
            self.block_average(data, i, j, self.rgb_offsets.2 as int),
        ) as u8
    }

    /// V sample of the 2x2 block `(i, j)`.
    pub open spec fn v_at(self, data: Seq<u8>, i: int, j: int) -> u8 {
        chroma_v(
            self.block_average(data, i, j, self.rgb_offsets.0 as int),
            self.block_average(data, i, j, self.rgb_offsets.1 as int),
            self.block_average(data, i, j, self.rgb_offsets.2 as int),
        ) as u8
    }

    /// The luma plane, row by row, of the image in `data`.
    pub open spec fn y_plane(self, data: Seq<u8>) -> Seq<u8> {
        Seq::new(self.luma_len() as nat, |k: int| self.luma_at(data, k % self.width(), k / self.width()))
    }

    /// The U plane, row by row, of the image in `data`.
    pub open spec fn u_plane(self, data: Seq<u8>) -> Seq<u8> {
        Seq::new(
            self.chroma_len() as nat,
            |k: int| self.u_at(data, k % (self.width() / 2), k / (self.width() / 2)),
        )
    }

    /// The V plane, row by row, of the image in `data`.
    pub open spec fn v_plane(self, data: Seq<u8>) -> Seq<u8> {
        Seq::new(
            self.chroma_len() as nat,
            |k: int| self.v_at(data, k % (self.width() / 2), k / (self.width() / 2)),
        )
    }

    /// The conditions under which a conversion reads and writes only within the given buffers.
    pub open spec fn fits(self, data_len: int, y_len: int, u_len: int, v_len: int) -> bool {
        &&& self.width() % 2 == 0
        &&& self.height() % 2 == 0
        &&& self.dimensions_padded.0 >= self.dimensions.0
        &&& self.dimensions_padded.1 >= self.dimensions.1
        &&& self.rgb_offsets.0 < self.pixel_stride
        &&& self.rgb_offsets.1 < self.pixel_stride
        &&& self.rgb_offsets.2 < self.pixel_stride
        &&& self.row_len() <= usize::MAX
        &&& self.row_len() * self.height() <= usize::MAX
        &&& self.luma_len() <= usize::MAX
        &&& data_len >= self.row_len() * self.height()
        &&& y_len >= self.luma_len()
        &&& u_len >= self.luma_len() / 4
        &&& v_len >= self.luma_len() / 4
    }
}

/// Row and column of entry `k` of a plane `w` samples wide and `h` rows high.
proof fn lemma_plane_entry(k: int, w: int, h: int)
    requires
        0 <= k < w * h,
        0 < w,
    ensures
        0 <= k % w < w,
        0 <= k / w < h,
{
    assert(0 <= k % w < w) by (nonlinear_arith)
        requires
            0 < w,
    ;
    assert(0 <= k / w < h) by (nonlinear_arith)
        requires
            0 <= k < w * h,
            0 < w,
    ;
}

/// Whether the red, green and blue bytes of every visible pixel agree between two images of
/// the same size.
pub open spec fn same_visible_pixels(l1: Rgb8SourceLayout, d1: Seq<u8>, l2: Rgb8SourceLayout, d2: Seq<u8>) -> bool {
    &&& l1.dimensions == l2.dimensions
    &&& forall|x: int, y: int|
        0 <= x < l1.width() && 0 <= y < l1.height() ==> {
            &&& #[trigger] l1.channel(d1, x, y, l1.rgb_offsets.0 as int) == l2.channel(
                d2,
                x,
                y,
                l2.rgb_offsets.0 as int,
            )
            &&& l1.channel(d1, x, y, l1.rgb_offsets.1 as int) == l2.channel(
                d2,
                x,
                y,
                l2.rgb_offsets.1 as int,
            )
            &&& l1.channel(d1, x, y, l1.rgb_offsets.2 as int) == l2.channel(
                d2,
                x,
                y,
                l2.rgb_offsets.2 as int,
            )
        }
}

/// The converted planes depend on the visible pixels alone: two images of the same size whose
/// pixels have the same red, green and blue values give the same Y, U and V planes, whatever
/// their row padding, bytes per pixel or channel order.
pub proof fn law_planes_depend_on_visible_pixels(
    l1: Rgb8SourceLayout,
    d1: Seq<u8>,
    l2: Rgb8SourceLayout,
    d2: Seq<u8>,
)
    requires
        same_visible_pixels(l1, d1, l2, d2),
    ensures
        l1.y_plane(d1) == l2.y_plane(d2),
        l1.u_plane(d1) == l2.u_plane(d2),
        l1.v_plane(d1) == l2.v_plane(d2),
{
    let w = l1.width();
    let h = l1.height();
    assert forall|k: int| 0 <= k < l1.luma_len() implies l1.y_plane(d1)[k] == l2.y_plane(d2)[k] by {
        lemma_plane_entry(k, w, h);
        let x = k % w;
        let y = k / w;
        assert(l1.channel(d1, x, y, l1.rgb_offsets.0 as int) == l2.channel(d2, x, y, l2.rgb_offsets.0 as int));
    }
    assert(l1.y_plane(d1) =~= l2.y_plane(d2));
    let hw = w / 2;
    let hh = h / 2;
    assert forall|k: int| 0 <= k < l1.chroma_len() implies l1.u_plane(d1)[k] == l2.u_plane(d2)[k]
        && l1.v_plane(d1)[k] == l2.v_plane(d2)[k] by {
        assert(hw > 0) by (nonlinear_arith)
            requires
                0 <= k < hw * hh,
                hw >= 0,
                hh >= 0,
        ;
        lemma_plane_entry(k, hw, hh);
        let i = k % hw;
        let j = k / hw;
        assert(2 * i + 1 < w && 2 * j + 1 < h);
        assert(l1.channel(d1, 2 * i, 2 * j, l1.rgb_offsets.0 as int) == l2.channel(d2, 2 * i, 2 * j, l2.rgb_offsets.0 as int));
        assert(l1.channel(d1, 2 * i + 1, 2 * j, l1.rgb_offsets.0 as int) == l2.channel(d2, 2 * i + 1, 2 * j, l2.rgb_offsets.0 as int));
        assert(l1.channel(d1, 2 * i, 2 * j + 1, l1.rgb_offsets.0 as int) == l2.channel(d2, 2 * i, 2 * j + 1, l2.rgb_offsets.0 as int));
        assert(l1.channel(d1, 2 * i + 1, 2 * j + 1, l1.rgb_offsets.0 as int) == l2.channel(d2, 2 * i + 1, 2 * j + 1, l2.rgb_offsets.0 as int));
    }
    assert(l1.u_plane(d1) =~= l2.u_plane(d2));
    assert(l1.v_plane(d1) =~= l2.v_plane(d2));
}

/// Entry `y * w + x` of a plane `w` samples wide belongs to column `x` of row `y`.
proof fn lemma_entry_of(x: int, y: int, w: int)
    requires
        0 <= x < w,
    ensures
        (y * w + x) % w == x,
        (y * w + x) / w == y,
{
    lemma_fundamental_div_mod_converse(y * w + x, w, y, x);
}

/// Each luma sample is the limited-range BT.601 luma of its pixel: for the bytes `red`, `green`,
/// `blue` of pixel `(x, y)`, `16 + ((66 * red + 129 * green + 25 * blue) >> 8)`, a value from 16
/// to 235 that grows with each channel, most with green and least with blue.
pub proof fn law_luma_bt601(l: Rgb8SourceLayout, d: Seq<u8>, x: int, y: int)
    requires
        0 <= x < l.width(),
        0 <= y < l.height(),
    ensures
        ({
            let at = y * (l.dimensions_padded.0 * l.pixel_stride) + x * l.pixel_stride;
            let red = d[at + l.rgb_offsets.0] as int;
            let green = d[at + l.rgb_offsets.1] as int;
            let blue = d[at + l.rgb_offsets.2] as int;
            &&& l.y_plane(d)[y * l.width() + x] as int == 16 + (66 * red + 129 * green + 25 * blue) / 256
            &&& 16 <= l.y_plane(d)[y * l.width() + x] <= 235
        }),
{
    let w = l.width();
    lemma_entry_of(x, y, w);
    assert(y * w + x < w * l.height()) by (nonlinear_arith)
        requires
            0 <= x < w,
            0 <= y < l.height(),
    ;
    let at = y * (l.dimensions_padded.0 * l.pixel_stride) + x * l.pixel_stride;
    let red = d[at + l.rgb_offsets.0] as int;
    let green = d[at + l.rgb_offsets.1] as int;
    let blue = d[at + l.rgb_offsets.2] as int;
    assert(0 <= (66 * red + 129 * green + 25 * blue) / 256 <= 219) by (nonlinear_arith)
        requires
            0 <= red <= 255,
            0 <= green <= 255,
            0 <= blue <= 255,
    ;
}

/// The rounded average `(a + b + c + d + 2) / 4` of the four samples of a 2x2 block of
/// channel byte `c`, whose top-left pixel is `(2i, 2j)`, written out.
pub open spec fn block_mean(l: Rgb8SourceLayout, d: Seq<u8>, i: int, j: int, c: int) -> int {
    let row = l.dimensions_padded.0 * l.pixel_stride;
    let top = 2 * j * row + 2 * i * l.pixel_stride + c;
    let bottom = (2 * j + 1) * row + 2 * i * l.pixel_stride + c;
    (d[top] + d[top + l.pixel_stride] + d[bottom] + d[bottom + l.pixel_stride] + 2) / 4
}

/// Each chroma sample is the limited-range BT.601 chroma of the rounded averages `red`, `green`,
/// `blue` of the channel bytes of its 2x2 block (see [`block_mean`]), the shift by 8 rounding
/// down: U is `128 + ((112 * blue - 38 * red - 74 * green) >> 8)`, which grows with blue and
/// falls with red and green, and V is `128 + ((112 * red - 94 * green - 18 * blue) >> 8)`, which
/// grows with red and falls with green and blue; both lie from 16 to 239.
pub proof fn law_chroma_bt601(l: Rgb8SourceLayout, d: Seq<u8>, i: int, j: int)
    requires
        0 <= i < l.width() / 2,
        0 <= j < l.height() / 2,
    ensures
        ({
            let red = block_mean(l, d, i, j, l.rgb_offsets.0 as int);
            let green = block_mean(l, d, i, j, l.rgb_offsets.1 as int);
            let blue = block_mean(l, d, i, j, l.rgb_offsets.2 as int);
            let k = j * (l.width() / 2) + i;
            &&& l.u_plane(d)[k] as int == 128 + (112 * blue - 38 * red - 74 * green) / 256
            &&& l.v_plane(d)[k] as int == 128 + (112 * red - 94 * green - 18 * blue) / 256
            &&& 16 <= l.u_plane(d)[k] <= 239
            &&& 16 <= l.v_plane(d)[k] <= 239
        }),
{
    let hw = l.width() / 2;
    lemma_entry_of(i, j, hw);
    assert(j * hw + i < hw * (l.height() / 2)) by (nonlinear_arith)
        requires
            0 <= i < hw,
            0 <= j < l.height() / 2,
    ;
    let row = l.dimensions_padded.0 * l.pixel_stride;
    let ps = l.pixel_stride as int;
    assert((2 * i + 1) * ps == 2 * i * ps + ps) by (nonlinear_arith);
    assert forall|c: int| #[trigger] l.block_average(d, i, j, c) == block_mean(l, d, i, j, c) by {
        assert(l.byte_index(2 * i + 1, 2 * j, c) == 2 * j * row + 2 * i * ps + c + ps);
        assert(l.byte_index(2 * i + 1, 2 * j + 1, c) == (2 * j + 1) * row + 2 * i * ps + c + ps);
    }
    let red = block_mean(l, d, i, j, l.rgb_offsets.0 as int);
    let green = block_mean(l, d, i, j, l.rgb_offsets.1 as int);
    let blue = block_mean(l, d, i, j, l.rgb_offsets.2 as int);
    assert(l.block_average(d, i, j, l.rgb_offsets.0 as int) == red);
    assert(l.block_average(d, i, j, l.rgb_offsets.1 as int) == green);
    assert(l.block_average(d, i, j, l.rgb_offsets.2 as int) == blue);
    assert(0 <= red <= 255 && 0 <= green <= 255 && 0 <= blue <= 255);
    assert(-112 <= (112 * blue - 38 * red - 74 * green) / 256 <= 111) by (nonlinear_arith)
        requires
            0 <= red <= 255,
            0 <= green <= 255,
            0 <= blue <= 255,
    ;
    assert(-112 <= (112 * red - 94 * green - 18 * blue) / 256 <= 111) by (nonlinear_arith)
        requires
            0 <= red <= 255,
            0 <= green <= 255,
            0 <= blue <= 255,
    ;
}

} // verus!
