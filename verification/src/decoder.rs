//! Converts NAL packets to YUV images: the decoder's settings, the decisions taken around each
//! call of the native decoder, and the decoded pictures it hands back.

use vstd::prelude::*;

use crate::error::{Error, NativeErrorExt};
use crate::formats::YUVSource;
use crate::sys::{WELS_LOG_DETAIL, WELS_LOG_QUIET};
use crate::time::Timestamp;

verus! {

/// How the decoder should handle flushing.
///
/// The behavior of flushing is somewhat unclear upstream. If you run into decoder errors,
/// you should probably disable automatic flushing, and manually flush the remaining frames
/// after all NAL units have been processed. It might be a good idea to do the latter regardless.
#[derive(Copy, Clone, Debug, Eq, PartialEq, Structural)]
pub enum Flush {
    /// Uses the current currently configured decoder default (which is attempted flushing after each decode).
    Auto,
    /// Flushes after each decode operation.
    Flush,
    /// Do not flush after decode operations.
    NoFlush,
}

impl Default for Flush {
    fn default() -> (r: Self)
        ensures
            r == Flush::Auto,
    {
        Flush::Auto
    }
}

/// Whether to flush, given the decoder's default and the choice for the current decode: the
/// current choice wins unless it is `Auto`; a default of `Auto` flushes.
pub open spec fn flush_wanted(default: Flush, current: Flush) -> bool {
    match current {
        Flush::Flush => true,
        Flush::NoFlush => false,
        Flush::Auto => !(default is NoFlush),
    }
}

impl Flush {
    /// Given some existing flush options and some current frame decode options, returns
    /// whether flushing should happen.
    pub fn should_flush(self, decoder_options: DecodeOptions) -> (r: bool)
        ensures
            r == flush_wanted(self, decoder_options.spec_flush()),
    {
        match (self, decoder_options.flush_after_decode) {
            (Flush::Auto, Flush::Auto) => true,
            (Flush::NoFlush, Flush::Auto) => false,
            (Flush::Flush, Flush::Auto) => true,
            (_, Flush::NoFlush) => false,
            (_, Flush::Flush) => true,
        }
    }
}

/// The native decoder's start parameters.
#[derive(Copy, Clone, Debug, PartialEq, Eq, Structural)]
pub struct DecodingParams {
    /// CPU load.
    pub cpu_load: u32,
    /// Target dependency layer.
    pub target_dq_layer: u8,
    /// Error concealment mode.
    pub ec_active_idc: i32,
    /// Only parse the bitstream.
    pub parse_only: bool,
    /// Size field of the video property.
    pub video_property_size: u32,
    /// Bitstream type of the video property.
    pub video_bs_type: i32,
}

/// All-zero start parameters.
pub open spec fn zero_params() -> DecodingParams {
    DecodingParams {
        cpu_load: 0,
        target_dq_layer: 0,
        ec_active_idc: 0,
        parse_only: false,
        video_property_size: 0,
        video_bs_type: 0,
    }
}

/// Configuration for the [`Decoder`].
///
/// Setting missing? Please file a PR!
#[derive(Copy, Clone, Debug)]
pub struct DecoderConfig {
    params: DecodingParams,
    num_threads: i32,
    debug: i32,
    error_concealment: i32,
    flush_after_decode: Flush,
}

/// The settings of a [`DecoderConfig`], field by field.
pub struct DecoderSettings {
    /// Start parameters.
    pub params: DecodingParams,
    /// Number of native threads.
    pub num_threads: i32,
    /// Native trace level.
    pub debug: i32,
    /// Native error concealment.
    pub error_concealment: i32,
    /// Default flush behavior.
    pub flush_after_decode: Flush,
}

impl DecoderConfig {
    /// The settings, field by field.
    pub closed spec fn settings(self) -> DecoderSettings {
        DecoderSettings {
            params: self.params,
            num_threads: self.num_threads,
            debug: self.debug,
            error_concealment: self.error_concealment,
            flush_after_decode: self.flush_after_decode,
        }
    }

    /// Creates a new default decoder config.
    pub fn new() -> (c: Self)
        ensures
            c.settings() == (DecoderSettings {
                params: zero_params(),
                num_threads: 0,
                debug: WELS_LOG_QUIET,
                error_concealment: 0,
                flush_after_decode: Flush::Flush,
            }),
    {
        DecoderConfig {
            params: DecodingParams {
                cpu_load: 0,
                target_dq_layer: 0,
                ec_active_idc: 0,
                parse_only: false,
                video_property_size: 0,
                video_bs_type: 0,
            },
            num_threads: 0,
            debug: WELS_LOG_QUIET,
            error_concealment: 0,
            flush_after_decode: Flush::Flush,
        }
    }

    /// Sets the number of threads; this will probably make the native decoder crash.<sup>⚠️</sup>
    ///
    /// This setting might work on some platforms but will probably just segfault.
    /// Consider this a _highly_ experimental option we only expose to test if and
    /// where threading actually works. Ultimately you should consult with the upstream
    /// OpenH264 project where and when it is safe to set this.
    pub fn num_threads(self, num_threads: u32) -> (c: Self)
        ensures
            c.settings() == (DecoderSettings {
                num_threads: num_threads as i32,
                ..self.settings()
            }),
    {
        DecoderConfig { num_threads: num_threads as i32, ..self }
    }

    /// Enables detailed console logging inside OpenH264.
    pub fn debug(self, value: bool) -> (c: Self)
        ensures
            c.settings() == (DecoderSettings {
                debug: if value {
                    WELS_LOG_DETAIL
                } else {
                    WELS_LOG_QUIET
                },
                ..self.settings()
            }),
    {
        DecoderConfig {
            debug: if value {
                WELS_LOG_DETAIL
            } else {
                WELS_LOG_QUIET
            },
            ..self
        }
    }

    /// Sets the default flush behavior after decode operations.
    pub fn flush_after_decode(self, flush_behavior: Flush) -> (c: Self)
        ensures
            c.settings() == (DecoderSettings {
                flush_after_decode: flush_behavior,
                ..self.settings()
            }),
    {
        DecoderConfig { flush_after_decode: flush_behavior, ..self }
    }
}

impl Default for DecoderConfig {
    fn default() -> (c: Self)
        ensures
            c.settings() == (DecoderSettings {
                params: zero_params(),
                num_threads: 0,
                debug: 0,
                error_concealment: 0,
                flush_after_decode: Flush::Auto,
            }),
    {
        DecoderConfig {
            params: DecodingParams {
                cpu_load: 0,
                target_dq_layer: 0,
                ec_active_idc: 0,
                parse_only: false,
                video_property_size: 0,
                video_bs_type: 0,
            },
            num_threads: 0,
            debug: 0,
            error_concealment: 0,
            flush_after_decode: Flush::Auto,
        }
    }
}

/// Configuration for the current decode operation.
#[derive(Clone, Debug, Eq, PartialEq, Structural)]
pub struct DecodeOptions {
    flush_after_decode: Flush,
}

impl DecodeOptions {
    /// The flush behavior for the upcoming decode operation.
    pub closed spec fn spec_flush(self) -> Flush {
        self.flush_after_decode
    }

    /// Creates new decoder options.
    pub fn new() -> (o: Self)
        ensures
            o.spec_flush() == Flush::Auto,
    {
        DecodeOptions { flush_after_decode: Flush::Auto }
    }

    /// Sets the flush behavior for the upcoming decode operation.
    pub fn flush_after_decode(self, value: Flush) -> (o: Self)
        ensures
            o.spec_flush() == value,
    {
        DecodeOptions { flush_after_decode: value }
    }
}

impl Default for DecodeOptions {
    fn default() -> (o: Self)
        ensures
            o.spec_flush() == Flush::Auto,
    {
        DecodeOptions { flush_after_decode: Flush::Auto }
    }
}

/// A call into the native decoder that starting it takes, in the order given.
#[derive(Clone, Copy, Debug)]
pub enum NativeDecoderCall {
    /// Initializes the native decoder with the start parameters.
    Initialize(DecodingParams),
    /// Sets the native trace level.
    SetTraceLevel(i32),
    /// Sets the number of native threads.
    SetNumThreads(i32),
    /// Sets the native error concealment.
    SetErrorConcealment(i32),
}

/// What the native decoder reported at one point of decoding a packet.
#[derive(Clone, Copy, Debug)]
pub enum DecodeEvent {
    /// Decoding the packet returned `state`, with `buffer_status` 0 when no picture is ready.
    Decoded {
        /// The decoding state returned.
        state: i32,
        /// The buffer status reported.
        buffer_status: i32,
    },
    /// Asking how many frames are still buffered returned `result` and the number `frames`.
    Buffered {
        /// What the query returned.
        result: i64,
        /// The number of buffered frames reported.
        frames: i32,
    },
    /// Flushing one frame returned `state`, with `buffer_status` 0 when no picture came out.
    Flushed {
        /// The decoding state returned.
        state: i32,
        /// The buffer status reported.
        buffer_status: i32,
    },
}

/// What to do next while decoding a packet.
#[derive(Debug)]
pub enum DecodeAction {
    /// Give up with the error.
    Fail(Error),
    /// Return no picture.
    NoFrame,
    /// Return the picture the native decoder just reported (none if it gave no planes).
    EmitFrame,
    /// Ask the native decoder how many frames it still holds.
    QueryBuffered,
    /// Flush one frame out of the native decoder.
    FlushOne,
}

/// The message when the native decoder had frames buffered and flushing gave none.
pub open spec fn flush_failed_message() -> Seq<char> {
    "Buffer status invalid, we have outstanding frames but failed to flush them."@
}

/// The decision after `event` while decoding a packet; `flush` is whether flushing is wanted.
///
/// An error state fails; a picture is emitted when one is ready; without one, the buffered frames
/// are counted when flushing is wanted, and one of them is flushed out if there are any.
pub fn decode_step(flush: bool, event: DecodeEvent) -> (a: DecodeAction)
    ensures
        match event {
            DecodeEvent::Decoded { state, buffer_status } => if state != 0 {
                a matches DecodeAction::Fail(e) && e.native() == state as i64 && e.message() is None
            } else if buffer_status != 0 {
                a is EmitFrame
            } else if flush {
                a is QueryBuffered
            } else {
                a is NoFrame
            },
            DecodeEvent::Buffered { result, frames } => if result != 0 {
                a matches DecodeAction::Fail(e) && e.native() == result && e.message() is None
            } else if frames != 0 {
                a is FlushOne
            } else {
                a is NoFrame
            },
            DecodeEvent::Flushed { state, buffer_status } => if state != 0 {
                a matches DecodeAction::Fail(e) && e.native() == state as i64 && e.message() is None
            } else if buffer_status == 0 {
                a matches DecodeAction::Fail(e) && e.native() == 0 && e.message() == Some(
                    flush_failed_message(),
                )
            } else {
                a is EmitFrame
            },
        },
{
    match event {
        DecodeEvent::Decoded { state, buffer_status } => {
            if let Err(e) = state.ok() {
                return DecodeAction::Fail(e);
            }
            if buffer_status != 0 {
                DecodeAction::EmitFrame
            } else if flush {
                DecodeAction::QueryBuffered
            } else {
                DecodeAction::NoFrame
            }
        },
        DecodeEvent::Buffered { result, frames } => {
            if let Err(e) = result.ok() {
                return DecodeAction::Fail(e);
            }
            if frames != 0 {
                DecodeAction::FlushOne
            } else {
                DecodeAction::NoFrame
            }
        },
        DecodeEvent::Flushed { state, buffer_status } => {
            if let Err(e) = state.ok() {
                return DecodeAction::Fail(e);
            }
            if buffer_status == 0 {
                DecodeAction::Fail(
                    Error::msg(
                        "Buffer status invalid, we have outstanding frames but failed to flush them.",
                    ),
                )
            } else {
                DecodeAction::EmitFrame
            }
        },
    }
}

/// How many frames to flush out at the end of a stream, from what the query of buffered frames
/// returned: the number as `usize`, or the error.
pub fn frames_to_flush(result: i64, frames: i32) -> (r: Result<usize, Error>)
    ensures
        r is Err <==> result != 0,
        r matches Ok(n) ==> n == frames as usize,
        r matches Err(e) ==> e.native() == result && e.message() is None,
{
    match result.ok() {
        Ok(()) => Ok(frames as usize),
        Err(e) => Err(e),
    }
}

/// The decoder's settings; the native decoder itself is driven by the caller through
/// [`NativeDecoderCall`]s and [`decode_step`].
pub struct Decoder {
    config: DecoderConfig,
}

impl Decoder {
    /// The settings of the decoder.
    pub closed spec fn spec_config(&self) -> DecoderConfig {
        self.config
    }

    /// A decoder with the settings of [`DecoderConfig::new`].
    pub fn new() -> (d: Self)
        ensures
            d.spec_config().settings() == (DecoderSettings {
                params: zero_params(),
                num_threads: 0,
                debug: WELS_LOG_QUIET,
                error_concealment: 0,
                flush_after_decode: Flush::Flush,
            }),
    {
        Decoder { config: DecoderConfig::new() }
    }

    /// A decoder with the given settings.
    pub fn with_config(config: DecoderConfig) -> (d: Self)
        ensures
            d.spec_config() == config,
    {
        Decoder { config }
    }

    /// The native calls that start the decoder, in order: initialize it with the start
    /// parameters, then set trace level, number of threads and error concealment.
    pub fn init_calls(&self) -> (calls: Vec<NativeDecoderCall>)
        ensures
            calls@ == seq![
                NativeDecoderCall::Initialize(self.spec_config().settings().params),
                NativeDecoderCall::SetTraceLevel(self.spec_config().settings().debug),
                NativeDecoderCall::SetNumThreads(self.spec_config().settings().num_threads),
                NativeDecoderCall::SetErrorConcealment(
                    self.spec_config().settings().error_concealment,
                ),
            ],
    {
        let mut calls = Vec::new();
        calls.push(NativeDecoderCall::Initialize(self.config.params));
        calls.push(NativeDecoderCall::SetTraceLevel(self.config.debug));
        calls.push(NativeDecoderCall::SetNumThreads(self.config.num_threads));
        calls.push(NativeDecoderCall::SetErrorConcealment(self.config.error_concealment));
        calls
    }

    /// Whether a decode with `options` flushes, given the decoder's default.
    pub fn wants_flush(&self, options: DecodeOptions) -> (r: bool)
        ensures
            r == flush_wanted(self.spec_config().settings().flush_after_decode, options.spec_flush()),
    {
        self.config.flush_after_decode.should_flush(options)
    }
}

/// `x / 2` rounded toward zero, as integer division does.
pub open spec fn half_toward_zero(x: int) -> int {
    if x >= 0 {
        x / 2
    } else {
        -((-x) / 2)
    }
}

/// The description of a decoded picture that the native decoder gives.
#[derive(Clone, Copy, Debug, PartialEq, Eq, Structural)]
pub struct SysMemBuffer {
    /// Picture width.
    pub width: i32,
    /// Picture height.
    pub height: i32,
    /// Picture format.
    pub format: i32,
    /// Stride of the Y plane.
    pub y_stride: i32,
    /// Stride of the U and V planes.
    pub uv_stride: i32,
}

/// Frame returned by the [`Decoder`] and provides safe data access.
#[derive(Debug)]
pub struct DecodedYUV<'a> {
    info: SysMemBuffer,
    timestamp: Timestamp,
    y: &'a [u8],
    u: &'a [u8],
    v: &'a [u8],
}

impl<'a> DecodedYUV<'a> {
    /// The native description of the picture.
    pub closed spec fn info(&self) -> SysMemBuffer {
        self.info
    }

    /// The timestamp of the picture.
    pub closed spec fn spec_timestamp(&self) -> Timestamp {
        self.timestamp
    }

    /// A decoded picture from its description, timestamp and planes.
    pub fn new(info: SysMemBuffer, timestamp: Timestamp, y: &'a [u8], u: &'a [u8], v: &'a [u8]) -> (d:
        Self)
        ensures
            d.info() == info,
            d.spec_timestamp() == timestamp,
            d.spec_y() == y@,
            d.spec_u() == u@,
            d.spec_v() == v@,
    {
        DecodedYUV { info, timestamp, y, u, v }
    }

    /// The lengths of the Y, U and V planes the native decoder hands out for a picture: `height`
    /// rows of the Y stride, and half of `height` rows of the U/V stride (rounded toward zero).
    pub fn plane_lengths(info: &SysMemBuffer) -> (r: (usize, usize, usize))
        requires
            i32::MIN <= info.height * info.y_stride <= i32::MAX,
            i32::MIN <= info.height * info.uv_stride <= i32::MAX,
        ensures
            r.0 == (info.height * info.y_stride) as usize,
            r.1 == half_toward_zero(info.height * info.uv_stride) as usize,
            r.2 == r.1,
    {
        let y_len = info.height * info.y_stride;
        let uv_len = info.height * info.uv_stride / 2;
        (y_len as usize, uv_len as usize, uv_len as usize)
    }

    /// Returns the unpadded U size.
    ///
    /// This is often smaller (by half) than the image size.
    pub fn dimensions_uv(&self) -> (d: (usize, usize))
        ensures
            d == ((self.info().width as usize) / 2, (self.info().height as usize) / 2),
    {
        ((self.info.width as usize) / 2, (self.info.height as usize) / 2)
    }

    /// The native description of the picture.
    pub fn raw_info(&self) -> (i: SysMemBuffer)
        ensures
            i == self.info(),
    {
        self.info
    }

    /// Timestamp of this frame in milliseconds(?) with respect to the video stream.
    pub fn timestamp(&self) -> (t: Timestamp)
        ensures
            t == self.spec_timestamp(),
    {
        self.timestamp
    }
}

/// Part `i` of `s` cut into pieces of `size` bytes; the last piece may be shorter.
pub open spec fn piece(s: Seq<u8>, size: int, i: int) -> Seq<u8> {
    let end = if (i + 1) * size <= s.len() {
        (i + 1) * size
    } else {
        s.len() as int
    };
    s.subrange(i * size, end)
}

/// The bytes of `lines_of(len, stride) / n` whole lines of `stride` bytes, when a plane of `len`
/// bytes is split into `n` sections.
pub open spec fn section_size(len: int, stride: int, n: int) -> int {
    ((len / stride) / n) * stride
}

/// Whether a plane of `len` bytes, read `size` bytes at a time, yields at least `n` pieces that
/// are not empty.
pub open spec fn has_pieces(len: int, size: int, n: int) -> bool {
    size > 0 && (n - 1) * size < len
}

impl<'a> DecodedYUV<'a> {
    /// Whether [`Self::split`] can cut the planes into `n` sections.
    pub open spec fn splittable(&self, n: usize) -> bool {
        n >= 1 && (n > 1 ==> {
            let ys = self.info().y_stride as usize as int;
            let uvs = self.info().uv_stride as usize as int;
            &&& ys > 0
            &&& uvs > 0
            &&& has_pieces(self.spec_y().len() as int, section_size(self.spec_y().len() as int, ys, n as int), n as int)
            &&& has_pieces(self.spec_u().len() as int, section_size(self.spec_u().len() as int, uvs, n as int), n as int)
            &&& has_pieces(self.spec_v().len() as int, section_size(self.spec_u().len() as int, uvs, n as int), n as int)
        })
    }

    /// Cut the YUV buffer into `n` vertical sections of equal length.
    ///
    /// Each plane is cut after the same number of whole lines; lines left over at the bottom are
    /// not in any section.
    pub fn split(&self, n: usize) -> (parts: Vec<(&'a [u8], &'a [u8], &'a [u8])>)
        requires
            self.splittable(n),
        ensures
            parts@.len() == n,
            n == 1 ==> parts@[0].0@ == self.spec_y() && parts@[0].1@ == self.spec_u()
                && parts@[0].2@ == self.spec_v(),
            n > 1 ==> forall|i: int|
                0 <= i < n ==> {
                    let ys = self.info().y_stride as usize as int;
                    let uvs = self.info().uv_stride as usize as int;
                    let y_size = section_size(self.spec_y().len() as int, ys, n as int);
                    let uv_size = section_size(self.spec_u().len() as int, uvs, n as int);
                    &&& (#[trigger] parts@[i]).0@ == piece(self.spec_y(), y_size, i)
                    &&& parts@[i].1@ == piece(self.spec_u(), uv_size, i)
                    &&& parts@[i].2@ == piece(self.spec_v(), uv_size, i)
                },
    {
        let mut parts = Vec::new();
        if n == 1 {
            parts.push((self.y, self.u, self.v));
            return parts;
        }
        let y_stride = self.info.y_stride as usize;
        proof {
            lemma_section_size(self.spec_y().len() as int, y_stride as int, n as int);
            lemma_section_size(self.spec_u().len() as int, self.info.uv_stride as usize as int, n as int);
        }
        let y_size = (self.y.len() / y_stride / n) * y_stride;
        let uv_stride = self.info.uv_stride as usize;
        let uv_size = (self.u.len() / uv_stride / n) * uv_stride;
        let ghost ys = y_stride as int;
        let ghost uvs = uv_stride as int;
        proof {
            lemma_section_size(self.spec_y().len() as int, ys, n as int);
            lemma_section_size(self.spec_u().len() as int, uvs, n as int);
        }
        proof {
            assert(y_size == section_size(self.spec_y().len() as int, ys, n as int));
            assert(uv_size == section_size(self.spec_u().len() as int, uvs, n as int));
        }
        let mut i: usize = 0;
        while i < n
            invariant
                1 < n,
                0 <= i <= n,
                self.splittable(n),
                y_size == section_size(self.spec_y().len() as int, ys, n as int),
                uv_size == section_size(self.spec_u().len() as int, uvs, n as int),
                ys == self.info().y_stride as usize as int,
                uvs == self.info().uv_stride as usize as int,
                parts@.len() == i,
                forall|k: int|
                    0 <= k < i ==> {
                        &&& (#[trigger] parts@[k]).0@ == piece(self.spec_y(), y_size as int, k)
                        &&& parts@[k].1@ == piece(self.spec_u(), uv_size as int, k)
                        &&& parts@[k].2@ == piece(self.spec_v(), uv_size as int, k)
                    },
            decreases n - i,
        {
            proof {
                lemma_piece_exists(self.spec_y().len() as int, y_size as int, n as int, i as int);
                lemma_piece_exists(self.spec_u().len() as int, uv_size as int, n as int, i as int);
                lemma_piece_exists(self.spec_v().len() as int, uv_size as int, n as int, i as int);
            }
            let y = section(self.y, y_size, i);
            let u = section(self.u, uv_size, i);
            let v = section(self.v, uv_size, i);
            parts.push((y, u, v));
            i += 1;
        }
        parts
    }
}

/// The size of a section fits in the plane.
proof fn lemma_section_size(len: int, stride: int, n: int)
    requires
        len >= 0,
        stride > 0,
        n > 0,
    ensures
        0 <= section_size(len, stride, n) <= len,
{
    let lines = len / stride;
    assert(0 <= lines / n <= lines) by (nonlinear_arith)
        requires
            lines >= 0,
            n > 0,
    ;
    assert(lines * stride <= len) by (nonlinear_arith)
        requires
            lines == len / stride,
            stride > 0,
            len >= 0,
    ;
    assert(0 <= (lines / n) * stride <= lines * stride) by (nonlinear_arith)
        requires
            0 <= lines / n <= lines,
            stride > 0,
    ;
}

/// Every section before the `n`-th begins inside the plane.
proof fn lemma_piece_exists(len: int, size: int, n: int, i: int)
    requires
        has_pieces(len, size, n),
        0 <= i < n,
    ensures
        i * size < len,
{
    assert(i * size <= (n - 1) * size) by (nonlinear_arith)
        requires
            0 <= i <= n - 1,
            size > 0,
    ;
}

/// Piece `i` of `s` cut into pieces of `size` bytes; `s` must have a piece there.
fn section<'b>(s: &'b [u8], size: usize, i: usize) -> (r: &'b [u8])
    requires
        size > 0,
        i * size < s@.len(),
    ensures
        r@ == piece(s@, size as int, i as int),
{
    let len = s.len();
    let start = i * size;
    let end = if len - start >= size {
        start + size
    } else {
        len
    };
    proof {
        assert((i + 1) * size == i * size + size) by (nonlinear_arith);
    }
    vstd::slice::slice_subrange(s, start, end)
}

impl<'a> YUVSource for DecodedYUV<'a> {
    open spec fn spec_dimensions(&self) -> (usize, usize) {
        (self.info().width as usize, self.info().height as usize)
    }

    open spec fn spec_strides(&self) -> (usize, usize, usize) {
        (self.info().y_stride as usize, self.info().uv_stride as usize, self.info().uv_stride as usize)
    }

    closed spec fn spec_y(&self) -> Seq<u8> {
        self.y@
    }

    closed spec fn spec_u(&self) -> Seq<u8> {
        self.u@
    }

    closed spec fn spec_v(&self) -> Seq<u8> {
        self.v@
    }

    fn dimensions(&self) -> (d: (usize, usize)) {
        (self.info.width as usize, self.info.height as usize)
    }

    fn strides(&self) -> (s: (usize, usize, usize)) {
        (self.info.y_stride as usize, self.info.uv_stride as usize, self.info.uv_stride as usize)
    }

    fn y(&self) -> (p: &[u8]) {
        self.y
    }

    fn u(&self) -> (p: &[u8]) {
        self.u
    }

    fn v(&self) -> (p: &[u8]) {
        self.v
    }
}

/// The U and V planes are half as long as `height` rows of their stride, the half rounded toward
/// zero: twice the length is the full length, or one less than it when that is odd and positive,
/// one more when odd and negative.
pub proof fn law_half_toward_zero(x: int)
    ensures
        x >= 0 ==> x - 1 <= 2 * half_toward_zero(x) <= x && half_toward_zero(x) >= 0,
        x < 0 ==> x <= 2 * half_toward_zero(x) <= x + 1 && half_toward_zero(x) <= 0,
{
}

} // verus!
