//! Handles conversions, e.g., between RGB and YUV.
//!
//! In particular when encoding frames your source data might be a YUV buffer, or one of multiple
//! RGB formats. The structs and traits in here can help you with that format conversion.

pub mod arch;
mod rgb;
pub mod rgb2yuv;
mod yuv;

pub use rgb::{
    AbgrSliceU32, AbgrSliceU8, ArgbSliceU32, ArgbSliceU8, BGRA8Source, BgrSliceU8, BgraSliceU32, BgraSliceU8, RGB8Source,
    RGBA8Source, RgbSliceU8, RgbaSliceU32, RgbaSliceU8, channel_byte, law_packed_source_layouts, source_layout,
};
pub use yuv::{YUVBuffer, YUVSlices, YUVSource, i420_len, law_packed_and_padded_agree, law_planes_make_up_buffer};
