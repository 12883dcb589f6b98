//! Verified building blocks of an H.264 codec wrapper: NAL unit splitting,
//! incremental stream parsing, RGB to YUV 4:2:0 conversion, encoder and
//! decoder configuration and the decisions taken around native codec calls.

mod error;
pub mod decoder;
pub mod encoder;
pub mod formats;
pub mod stream;
pub mod sys;
pub mod time;
mod utils;

pub use error::{
    Error, NativeErrorExt, conversion_failed, conversion_text, debug_message, debug_quoted, decimal, digit_char, digits, error_text,
};
pub use sys::DynamicAPI as OpenH264API;
pub use time::Timestamp;
pub use utils::{
    NalParser, NalUnits, complete_units, from_first_start, is_nal_unit,
    law_complete_units_are_split_but_last, law_complete_units_grow, law_nal_split,
    law_pieces_give_the_units_of_the_whole, nal_split,
    nal_units, next_start, no_start_in, nth_start_from, rest_after_unit, search_from, starts_nal,
    unit_of,
};
