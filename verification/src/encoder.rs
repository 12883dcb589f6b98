//! Converts YUV images to NAL packets: the encoder's settings, how they become the parameters of
//! the native encoder, and the encoded bitstream it hands back.

use vstd::prelude::*;

use std::num::TryFromIntError;

use crate::error::{Error, NativeErrorExt, conversion_failed};
use crate::formats::YUVSource;
use crate::time::Timestamp;
use crate::sys::{
    DEBLOCKING_IDC_0, SM_SINGLE_SLICE, SM_SIZELIMITED_SLICE, VIDEO_FRAME_TYPE_I,
    VIDEO_CODING_LAYER, VIDEO_FRAME_TYPE_IDR, VIDEO_FRAME_TYPE_IP_MIXED, VIDEO_FRAME_TYPE_P, VIDEO_FRAME_TYPE_SKIP,
    CAMERA_VIDEO_NON_REAL_TIME, CAMERA_VIDEO_REAL_TIME, CONSTANT_ID, HIGH_COMPLEXITY,
    INCREASING_ID, INPUT_CONTENT_TYPE_ALL, LEVEL_1_0, LEVEL_1_1, LEVEL_1_2, LEVEL_1_3, LEVEL_1_B,
    LEVEL_2_0, LEVEL_2_1, LEVEL_2_2, LEVEL_3_0, LEVEL_3_1, LEVEL_3_2, LEVEL_4_0, LEVEL_4_1,
    LEVEL_4_2, LEVEL_5_0, LEVEL_5_1, LEVEL_5_2, LOW_COMPLEXITY, MEDIUM_COMPLEXITY, PRO_BASELINE,
    PRO_CAVLC444, PRO_EXTENDED, PRO_HIGH, PRO_HIGH10, PRO_HIGH422, PRO_HIGH444, PRO_MAIN,
    PRO_SCALABLE_BASELINE, PRO_SCALABLE_HIGH, RC_BITRATE_MODE, RC_BITRATE_MODE_POST_SKIP,
    RC_BUFFERBASED_MODE, RC_OFF_MODE, RC_QUALITY_MODE, RC_TIMESTAMP_MODE,
    SCREEN_CONTENT_NON_REAL_TIME, SCREEN_CONTENT_REAL_TIME, SPS_LISTING,
    SPS_LISTING_AND_PPS_INCREASING, SPS_PPS_LISTING, VIDEO_FORMAT_I420, WELS_LOG_DETAIL,
    WELS_LOG_QUIET,
};

verus! {

/// Specifies the mode used by the encoder to control the rate.
#[derive(Copy, Clone, Debug)]
pub enum RateControlMode {
    /// Quality mode.
    Quality,
    /// Bitrate mode.
    Bitrate,
    /// No bitrate control, only using buffer status, adjust the video quality.
    Bufferbased,
    /// Rate control based timestamp.
    Timestamp,
    /// This is in-building RC MODE, WILL BE DELETED after algorithm tuning!
    BitrateModePostSkip,
    /// Rate control off mode.
    Off,
}

impl Default for RateControlMode {
    fn default() -> (r: Self)
        ensures
            r == RateControlMode::Quality,
    {
        RateControlMode::Quality
    }
}

impl RateControlMode {
    /// The native value of the mode.
    pub open spec fn code(self) -> i32 {
        match self {
            RateControlMode::Quality => RC_QUALITY_MODE,
            RateControlMode::Bitrate => RC_BITRATE_MODE,
            RateControlMode::Bufferbased => RC_BUFFERBASED_MODE,
            RateControlMode::Timestamp => RC_TIMESTAMP_MODE,
            RateControlMode::BitrateModePostSkip => RC_BITRATE_MODE_POST_SKIP,
            RateControlMode::Off => RC_OFF_MODE,
        }
    }

    /// The native value of the mode.
    pub fn to_c(self) -> (r: i32)
        ensures
            r == self.code(),
    {
        match self {
            RateControlMode::Quality => RC_QUALITY_MODE,
            RateControlMode::Bitrate => RC_BITRATE_MODE,
            RateControlMode::Bufferbased => RC_BUFFERBASED_MODE,
            RateControlMode::Timestamp => RC_TIMESTAMP_MODE,
            RateControlMode::BitrateModePostSkip => RC_BITRATE_MODE_POST_SKIP,
            RateControlMode::Off => RC_OFF_MODE,
        }
    }
}

/// Sets the behavior for generating SPS/PPS.
#[derive(Copy, Clone, Debug)]
pub enum SpsPpsStrategy {
    /// Use a constant SPS/PPS ID. The ID will not change across encoded video frames.
    ///
    /// This is the default value.
    ConstantId,
    /// Increment the SPS/PPS ID with each IDR frame.
    ///
    /// This allows decoders to detect missing frames.
    IncreasingId,
    /// Use SPS in the existing list if possible.
    SpsListing,
    /// Use SPS in the existing list if possible, and increment the PPS ID.
    SpsListingAndPpsIncreasing,
    /// Use SPS and PPS in the existing lists if possible.
    SpsPpsListing,
}

impl SpsPpsStrategy {
    /// The native value of the strategy.
    pub open spec fn code(self) -> i32 {
        match self {
            SpsPpsStrategy::ConstantId => CONSTANT_ID,
            SpsPpsStrategy::IncreasingId => INCREASING_ID,
            SpsPpsStrategy::SpsListing => SPS_LISTING,
            SpsPpsStrategy::SpsListingAndPpsIncreasing => SPS_LISTING_AND_PPS_INCREASING,
            SpsPpsStrategy::SpsPpsListing => SPS_PPS_LISTING,
        }
    }

    /// The native value of the strategy.
    pub fn to_c(self) -> (r: i32)
        ensures
            r == self.code(),
    {
        match self {
            SpsPpsStrategy::ConstantId => CONSTANT_ID,
            SpsPpsStrategy::IncreasingId => INCREASING_ID,
            SpsPpsStrategy::SpsListing => SPS_LISTING,
            SpsPpsStrategy::SpsListingAndPpsIncreasing => SPS_LISTING_AND_PPS_INCREASING,
            SpsPpsStrategy::SpsPpsListing => SPS_PPS_LISTING,
        }
    }
}

impl Default for SpsPpsStrategy {
    fn default() -> (r: Self)
        ensures
            r == SpsPpsStrategy::ConstantId,
    {
        SpsPpsStrategy::ConstantId
    }
}

/// The intended usage scenario for the encoder.
#[derive(Copy, Clone, Debug)]
pub enum UsageType {
    /// Camera video for real-time communication.
    CameraVideoRealTime,
    /// Used for real-time screen sharing.
    ScreenContentRealTime,
    /// Camera video for non-real-time communication.
    CameraVideoNonRealTime,
    /// Used for non-real-time screen recordings.
    ScreenContentNonRealTime,
    /// It's unclear what this does, PRs adding documentation welcome.
    InputContentTypeAll,
}

impl UsageType {
    /// The native value of the usage type.
    pub open spec fn code(self) -> i32 {
        match self {
            UsageType::CameraVideoRealTime => CAMERA_VIDEO_REAL_TIME,
            UsageType::ScreenContentRealTime => SCREEN_CONTENT_REAL_TIME,
            UsageType::CameraVideoNonRealTime => CAMERA_VIDEO_NON_REAL_TIME,
            UsageType::ScreenContentNonRealTime => SCREEN_CONTENT_NON_REAL_TIME,
            UsageType::InputContentTypeAll => INPUT_CONTENT_TYPE_ALL,
        }
    }

    /// The native value of the usage type.
    pub fn to_c(self) -> (r: i32)
        ensures
            r == self.code(),
    {
        match self {
            UsageType::CameraVideoRealTime => CAMERA_VIDEO_REAL_TIME,
            UsageType::ScreenContentRealTime => SCREEN_CONTENT_REAL_TIME,
            UsageType::CameraVideoNonRealTime => CAMERA_VIDEO_NON_REAL_TIME,
            UsageType::ScreenContentNonRealTime => SCREEN_CONTENT_NON_REAL_TIME,
            UsageType::InputContentTypeAll => INPUT_CONTENT_TYPE_ALL,
        }
    }
}

impl Default for UsageType {
    fn default() -> (r: Self)
        ensures
            r == UsageType::CameraVideoRealTime,
    {
        UsageType::CameraVideoRealTime
    }
}

/// Bitrate of the encoder.
#[derive(Debug, Clone, Copy, PartialEq, Eq, Structural, PartialOrd, Ord, Hash, Default)]
pub struct BitRate(u32);

impl BitRate {
    /// The bits per second.
    pub closed spec fn bps(self) -> u32 {
        self.0
    }

    /// Creates a new bitrate with the given bits per second.
    pub fn from_bps(bps: u32) -> (r: Self)
        ensures
            r.bps() == bps,
    {
        BitRate(bps)
    }
}

/// Frame rate of the encoder, held as the bits of the `f32` number of Hertz.
#[derive(Debug, Clone, Copy, PartialEq, Eq, Structural, Default)]
pub struct FrameRate(u32);

impl FrameRate {
    /// The bits of the `f32` number of Hertz.
    pub closed spec fn hz_bits(self) -> u32 {
        self.0
    }

    /// Creates a frame rate from the bits of an `f32` number of Hertz (`f32::to_bits`).
    pub fn from_hz_bits(bits: u32) -> (r: Self)
        ensures
            r.hz_bits() == bits,
    {
        FrameRate(bits)
    }

    /// The bits of the `f32` number of Hertz (for `f32::from_bits`).
    pub fn to_hz_bits(self) -> (r: u32)
        ensures
            r == self.hz_bits(),
    {
        self.0
    }
}

/// The H.264 encoding profile
#[derive(Copy, Clone, Debug)]
#[allow(missing_docs)]
pub enum Profile {
    Baseline,
    Main,
    Extended,
    High,
    High10,
    High422,
    High444,
    CAVLC444,
    ScalableBaseline,
    ScalableHigh,
}

impl Profile {
    /// The native value of the profile.
    pub open spec fn code(self) -> i32 {
        match self {
            Profile::Baseline => PRO_BASELINE,
            Profile::Main => PRO_MAIN,
            Profile::Extended => PRO_EXTENDED,
            Profile::High => PRO_HIGH,
            Profile::High10 => PRO_HIGH10,
            Profile::High422 => PRO_HIGH422,
            Profile::High444 => PRO_HIGH444,
            Profile::CAVLC444 => PRO_CAVLC444,
            Profile::ScalableBaseline => PRO_SCALABLE_BASELINE,
            Profile::ScalableHigh => PRO_SCALABLE_HIGH,
        }
    }

    /// The native value of the profile.
    pub fn to_c(self) -> (r: i32)
        ensures
            r == self.code(),
    {
        match self {
            Profile::Baseline => PRO_BASELINE,
            Profile::Main => PRO_MAIN,
            Profile::Extended => PRO_EXTENDED,
            Profile::High => PRO_HIGH,
            Profile::High10 => PRO_HIGH10,
            Profile::High422 => PRO_HIGH422,
            Profile::High444 => PRO_HIGH444,
            Profile::CAVLC444 => PRO_CAVLC444,
            Profile::ScalableBaseline => PRO_SCALABLE_BASELINE,
            Profile::ScalableHigh => PRO_SCALABLE_HIGH,
        }
    }
}

/// H.264 encoding levels with their corresponding capabilities.
///
/// | Level   | Max Resolution (Pixels) | Max Frame Rate (fps) | Max Bitrate (Main Profile) | Max Bitrate (High Profile) |
/// |---------|--------------------------|-----------------------|-----------------------------|-----------------------------|
/// | 1.0     | 176x144 (QCIF)          | 15                   | 64 kbps                    | 80 kbps                    |
/// | 1.1     | 176x144 (QCIF)          | 30                   | 192 kbps                   | 240 kbps                   |
/// | 1.2     | 320x240 (QVGA)          | 30                   | 384 kbps                   | 480 kbps                   |
/// | 2.0     | 352x288 (CIF)           | 30                   | 2 Mbps                     | 2.5 Mbps                   |
/// | 3.0     | 720x576 (SD)            | 30                   | 10 Mbps                    | 12.5 Mbps                  |
/// | 3.1     | 1280x720 (HD)           | 30                   | 14 Mbps                    | 17.5 Mbps                  |
/// | 4.0     | 1920x1080 (Full HD)     | 30                   | 20 Mbps                    | 25 Mbps                    |
/// | 4.1     | 1920x1080 (Full HD)     | 60                   | 50 Mbps                    | 62.5 Mbps                  |
/// | 5.0     | 3840x2160 (4K)          | 30                   | 135 Mbps                   | 168.75 Mbps                |
/// | 5.1     | 3840x2160 (4K)          | 60                   | 240 Mbps                   | 300 Mbps                   |
/// | 5.2     | 4096x2160 (4K Cinema)   | 60                   | 480 Mbps                   | 600 Mbps                   |
#[derive(Copy, Clone, Debug)]
#[allow(missing_docs, non_camel_case_types)]
pub enum Level {
    /// Level 1.0: Max resolution 176x144 (QCIF), 15 fps, 64 kbps (Main), 80 kbps (High)
    Level_1_0,
    /// Level 1.B: Specialized low-complexity baseline level.
    Level_1_B,
    /// Level 1.1: Max resolution 176x144 (QCIF), 30 fps, 192 kbps (Main), 240 kbps (High)
    Level_1_1,
    /// Level 1.2: Max resolution 320x240 (QVGA), 30 fps, 384 kbps (Main), 480 kbps (High)
    Level_1_2,
    /// Level 1.3: Reserved in standard, similar to Level 2.0.
    Level_1_3,
    /// Level 2.0: Max resolution 352x288 (CIF), 30 fps, 2 Mbps (Main), 2.5 Mbps (High)
    Level_2_0,
    /// Level 2.1: Max resolution 352x288 (CIF), 30 fps, 4 Mbps (Main), 5 Mbps (High)
    Level_2_1,
    /// Level 2.2: Max resolution 352x288 (CIF), 30 fps, 10 Mbps (Main), 12.5 Mbps (High)
    Level_2_2,
    /// Level 3.0: Max resolution 720x576 (SD), 30 fps, 10 Mbps (Main), 12.5 Mbps (High)
    Level_3_0,
    /// Level 3.1: Max resolution 1280x720 (HD), 30 fps, 14 Mbps (Main), 17.5 Mbps (High)
    Level_3_1,
    /// Level 3.2: Max resolution 1280x720 (HD), 60 fps, 20 Mbps (Main), 25 Mbps (High)
    Level_3_2,
    /// Level 4.0: Max resolution 1920x1080 (Full HD), 30 fps, 20 Mbps (Main), 25 Mbps (High)
    Level_4_0,
    /// Level 4.1: Max resolution 1920x1080 (Full HD), 60 fps, 50 Mbps (Main), 62.5 Mbps (High)
    Level_4_1,
    /// Level 4.2: Max resolution 1920x1080 (Full HD), 120 fps, 100 Mbps (Main), 125 Mbps (High)
    Level_4_2,
    /// Level 5.0: Max resolution 3840x2160 (4K), 30 fps, 135 Mbps (Main), 168.75 Mbps (High)
    Level_5_0,
    /// Level 5.1: Max resolution 3840x2160 (4K), 60 fps, 240 Mbps (Main), 300 Mbps (High)
    Level_5_1,
    /// Level 5.2: Max resolution 4096x2160 (4K Cinema), 60 fps, 480 Mbps (Main), 600 Mbps (High)
    Level_5_2,
}

impl Level {
    /// The native value of the level.
    pub open spec fn code(self) -> i32 {
        match self {
            Level::Level_1_0 => LEVEL_1_0,
            Level::Level_1_B => LEVEL_1_B,
            Level::Level_1_1 => LEVEL_1_1,
            Level::Level_1_2 => LEVEL_1_2,
            Level::Level_1_3 => LEVEL_1_3,
            Level::Level_2_0 => LEVEL_2_0,
            Level::Level_2_1 => LEVEL_2_1,
            Level::Level_2_2 => LEVEL_2_2,
            Level::Level_3_0 => LEVEL_3_0,
            Level::Level_3_1 => LEVEL_3_1,
            Level::Level_3_2 => LEVEL_3_2,
            Level::Level_4_0 => LEVEL_4_0,
            Level::Level_4_1 => LEVEL_4_1,
            Level::Level_4_2 => LEVEL_4_2,
            Level::Level_5_0 => LEVEL_5_0,
            Level::Level_5_1 => LEVEL_5_1,
            Level::Level_5_2 => LEVEL_5_2,
        }
    }

    /// The native value of the level.
    pub fn to_c(self) -> (r: i32)
        ensures
            r == self.code(),
    {
        match self {
            Level::Level_1_0 => LEVEL_1_0,
            Level::Level_1_B => LEVEL_1_B,
            Level::Level_1_1 => LEVEL_1_1,
            Level::Level_1_2 => LEVEL_1_2,
            Level::Level_1_3 => LEVEL_1_3,
            Level::Level_2_0 => LEVEL_2_0,
            Level::Level_2_1 => LEVEL_2_1,
            Level::Level_2_2 => LEVEL_2_2,
            Level::Level_3_0 => LEVEL_3_0,
            Level::Level_3_1 => LEVEL_3_1,
            Level::Level_3_2 => LEVEL_3_2,
            Level::Level_4_0 => LEVEL_4_0,
            Level::Level_4_1 => LEVEL_4_1,
            Level::Level_4_2 => LEVEL_4_2,
            Level::Level_5_0 => LEVEL_5_0,
            Level::Level_5_1 => LEVEL_5_1,
            Level::Level_5_2 => LEVEL_5_2,
        }
    }
}

/// Complexity of the encoder (speed vs. quality).
#[derive(Debug, Clone, Copy)]
#[allow(missing_docs)]
pub enum Complexity {
    /// The lowest complexity, the fastest speed.
    Low,
    /// Medium complexity, medium speed, medium quality.
    Medium,
    /// High complexity, lowest speed, high quality.
    High,
}

impl Default for Complexity {
    fn default() -> (r: Self)
        ensures
            r == Complexity::Medium,
    {
        Complexity::Medium
    }
}

impl Complexity {
    /// The native value of the complexity.
    pub open spec fn code(self) -> i32 {
        match self {
            Complexity::Low => LOW_COMPLEXITY,
            Complexity::Medium => MEDIUM_COMPLEXITY,
            Complexity::High => HIGH_COMPLEXITY,
        }
    }

    /// The native value of the complexity.
    pub fn to_c(self) -> (r: i32)
        ensures
            r == self.code(),
    {
        match self {
            Complexity::Low => LOW_COMPLEXITY,
            Complexity::Medium => MEDIUM_COMPLEXITY,
            Complexity::High => HIGH_COMPLEXITY,
        }
    }
}

/// Quantization parameter range to control the degree of compression.
///
/// This can be used to control the balance between size and video quality.
#[derive(Debug, Clone, Copy)]
pub struct QpRange {
    min: u8,
    max: u8,
}

impl QpRange {
    /// The range lies within `0..=51`.
    #[verifier::type_invariant]
    spec fn in_range(self) -> bool {
        self.min <= self.max <= 51
    }

    /// The smallest quantization allowed.
    pub closed spec fn spec_min(self) -> u8 {
        self.min
    }

    /// The largest quantization allowed.
    pub closed spec fn spec_max(self) -> u8 {
        self.max
    }

    /// Limit the quantization of the encoder to the given range.
    ///
    /// Valid values for `min` and `max` are between 0 and 51, where 0
    /// represents highest quality and 51 the strongest compression.
    pub fn new(min: u8, max: u8) -> (r: Self)
        requires
            max <= 51,
            min <= max,
        ensures
            r.spec_min() == min,
            r.spec_max() == max,
    {
        QpRange { min, max }
    }
}

impl Default for QpRange {
    fn default() -> (r: Self)
        ensures
            r.spec_min() == 0,
            r.spec_max() == 51,
    {
        QpRange { min: 0, max: 51 }
    }
}

/// A period in frames after which a new I-Frame is generated.
#[derive(Debug, Clone, Copy, Default)]
pub struct IntraFramePeriod(u32);

impl IntraFramePeriod {
    /// The number of frames; 0 lets the encoder decide.
    pub closed spec fn frames(self) -> u32 {
        self.0
    }

    /// Creates a period in which I-Frames (group of pictures, "GOP size") are generated.
    ///
    /// Using lower values improves error resilience and allows for faster seeking within the video,
    /// but increases the overall required bitrate.
    ///
    /// Setting the value to zero is equal to calling [`IntraFramePeriod::auto()`].
    pub fn from_num_frames(frames: u32) -> (r: Self)
        ensures
            r.frames() == frames,
    {
        IntraFramePeriod(frames)
    }

    /// Lets the encoder create I-frames as desired(?).
    pub fn auto() -> (r: Self)
        ensures
            r.frames() == 0,
    {
        IntraFramePeriod(0)
    }
}

/// Configuration for the [`Encoder`].
///
/// Setting missing? Please file a PR!
#[derive(Copy, Clone, Debug)]
pub struct EncoderConfig {
    enable_skip_frame: bool,
    target_bitrate: BitRate,
    enable_denoise: bool,
    debug: i32,
    data_format: i32,
    max_frame_rate: FrameRate,
    rate_control_mode: RateControlMode,
    sps_pps_strategy: SpsPpsStrategy,
    multiple_thread_idc: u16,
    usage_type: UsageType,
    max_slice_len: Option<u32>,
    profile: Option<Profile>,
    level: Option<Level>,
    complexity: Complexity,
    qp: QpRange,
    scene_change_detect: bool,
    adaptive_quantization: bool,
    background_detection: bool,
    long_term_reference: bool,
    intra_frame_period: IntraFramePeriod,
}

/// The settings of an [`EncoderConfig`], field by field.
pub struct EncoderSettings {
    /// Frames may be skipped to meet the rate control target.
    pub enable_skip_frame: bool,
    /// Requested bits per second.
    pub target_bitrate: u32,
    /// Denoising.
    pub enable_denoise: bool,
    /// Native trace level.
    pub debug: i32,
    /// Native picture format.
    pub data_format: i32,
    /// Bits of the `f32` maximum frame rate in Hertz.
    pub max_frame_rate: u32,
    /// Rate control.
    pub rate_control_mode: RateControlMode,
    /// SPS/PPS behavior.
    pub sps_pps_strategy: SpsPpsStrategy,
    /// Number of native threads (0: auto).
    pub multiple_thread_idc: u16,
    /// Usage scenario.
    pub usage_type: UsageType,
    /// Maximum slice length, if limited.
    pub max_slice_len: Option<u32>,
    /// Profile, if set.
    pub profile: Option<Profile>,
    /// Level, if set.
    pub level: Option<Level>,
    /// Complexity.
    pub complexity: Complexity,
    /// Smallest quantization.
    pub qp_min: u8,
    /// Largest quantization.
    pub qp_max: u8,
    /// Scene change detection.
    pub scene_change_detect: bool,
    /// Adaptive quantization.
    pub adaptive_quantization: bool,
    /// Background detection.
    pub background_detection: bool,
    /// Long term reference.
    pub long_term_reference: bool,
    /// Frames between I-frames (0: auto).
    pub intra_frame_period: u32,
}

/// The settings of [`EncoderConfig::new`].
pub open spec fn initial_settings() -> EncoderSettings {
    EncoderSettings {
        enable_skip_frame: true,
        target_bitrate: 120_000,
        enable_denoise: false,
        debug: WELS_LOG_QUIET,
        data_format: VIDEO_FORMAT_I420,
        max_frame_rate: 0,
        rate_control_mode: RateControlMode::Quality,
        sps_pps_strategy: SpsPpsStrategy::ConstantId,
        multiple_thread_idc: 0,
        usage_type: UsageType::CameraVideoRealTime,
        max_slice_len: None,
        profile: None,
        level: None,
        complexity: Complexity::Medium,
        qp_min: 0,
        qp_max: 51,
        scene_change_detect: true,
        adaptive_quantization: true,
        background_detection: true,
        long_term_reference: false,
        intra_frame_period: 0,
    }
}

impl EncoderConfig {
    /// The settings, field by field.
    pub closed spec fn settings(self) -> EncoderSettings {
        EncoderSettings {
            enable_skip_frame: self.enable_skip_frame,
            target_bitrate: self.target_bitrate.bps(),
            enable_denoise: self.enable_denoise,
            debug: self.debug,
            data_format: self.data_format,
            max_frame_rate: self.max_frame_rate.hz_bits(),
            rate_control_mode: self.rate_control_mode,
            sps_pps_strategy: self.sps_pps_strategy,
            multiple_thread_idc: self.multiple_thread_idc,
            usage_type: self.usage_type,
            max_slice_len: self.max_slice_len,
            profile: self.profile,
            level: self.level,
            complexity: self.complexity,
            qp_min: self.qp.spec_min(),
            qp_max: self.qp.spec_max(),
            scene_change_detect: self.scene_change_detect,
            adaptive_quantization: self.adaptive_quantization,
            background_detection: self.background_detection,
            long_term_reference: self.long_term_reference,
            intra_frame_period: self.intra_frame_period.frames(),
        }
    }

    /// Creates a new default encoder config.
    pub fn new() -> (c: Self)
        ensures
            c.settings() == initial_settings(),
    {
        EncoderConfig {
            enable_skip_frame: true,
            target_bitrate: BitRate::from_bps(120_000),
            enable_denoise: false,
            debug: WELS_LOG_QUIET,
            data_format: VIDEO_FORMAT_I420,
            max_frame_rate: FrameRate::from_hz_bits(0),
            rate_control_mode: RateControlMode::Quality,
            sps_pps_strategy: SpsPpsStrategy::ConstantId,
            multiple_thread_idc: 0,
            usage_type: UsageType::CameraVideoRealTime,
            max_slice_len: None,
            profile: None,
            level: None,
            complexity: Complexity::Medium,
            qp: QpRange::new(0, 51),
            scene_change_detect: true,
            adaptive_quantization: true,
            background_detection: true,
            long_term_reference: false,
            intra_frame_period: IntraFramePeriod::from_num_frames(0),
        }
    }

    /// Sets the requested bit rate in bits per second.
    pub fn bitrate(self, bps: BitRate) -> (c: Self)
        ensures
            c.settings() == (EncoderSettings { target_bitrate: bps.bps(), ..self.settings() }),
    {
        EncoderConfig { target_bitrate: bps, ..self }
    }

    /// Enables detailed console logging inside OpenH264.
    pub fn debug(self, value: bool) -> (c: Self)
        ensures
            c.settings() == (EncoderSettings {
                debug: if value {
                    WELS_LOG_DETAIL
                } else {
                    WELS_LOG_QUIET
                },
                ..self.settings()
            }),
    {
        EncoderConfig {
            debug: if value {
                WELS_LOG_DETAIL
            } else {
                WELS_LOG_QUIET
            },
            ..self
        }
    }

    /// Set whether frames can be skipped to meet desired rate control target.
    pub fn skip_frames(self, value: bool) -> (c: Self)
        ensures
            c.settings() == (EncoderSettings { enable_skip_frame: value, ..self.settings() }),
    {
        EncoderConfig { enable_skip_frame: value, ..self }
    }

    /// Sets the requested maximum frame rate in Hz.
    pub fn max_frame_rate(self, value: FrameRate) -> (c: Self)
        ensures
            c.settings() == (EncoderSettings {
                max_frame_rate: value.hz_bits(),
                ..self.settings()
            }),
    {
        EncoderConfig { max_frame_rate: value, ..self }
    }

    /// Sets the usage type (e.g, screen vs. camera recording).
    pub fn usage_type(self, value: UsageType) -> (c: Self)
        ensures
            c.settings() == (EncoderSettings { usage_type: value, ..self.settings() }),
    {
        EncoderConfig { usage_type: value, ..self }
    }

    /// Sets the requested rate control mode.
    pub fn rate_control_mode(self, value: RateControlMode) -> (c: Self)
        ensures
            c.settings() == (EncoderSettings { rate_control_mode: value, ..self.settings() }),
    {
        EncoderConfig { rate_control_mode: value, ..self }
    }

    /// Set the SPS/PPS behavior.
    pub fn sps_pps_strategy(self, value: SpsPpsStrategy) -> (c: Self)
        ensures
            c.settings() == (EncoderSettings { sps_pps_strategy: value, ..self.settings() }),
    {
        EncoderConfig { sps_pps_strategy: value, ..self }
    }

    /// Set the maximum slice length
    pub fn max_slice_len(self, max_slice_len: u32) -> (c: Self)
        ensures
            c.settings() == (EncoderSettings {
                max_slice_len: Some(max_slice_len),
                ..self.settings()
            }),
    {
        EncoderConfig { max_slice_len: Some(max_slice_len), ..self }
    }

    /// Set the encoding profile
    pub fn profile(self, profile: Profile) -> (c: Self)
        ensures
            c.settings() == (EncoderSettings { profile: Some(profile), ..self.settings() }),
    {
        EncoderConfig { profile: Some(profile), ..self }
    }

    /// Set the encoding profile level
    pub fn level(self, level: Level) -> (c: Self)
        ensures
            c.settings() == (EncoderSettings { level: Some(level), ..self.settings() }),
    {
        EncoderConfig { level: Some(level), ..self }
    }

    /// Set the complexity
    pub fn complexity(self, complexity: Complexity) -> (c: Self)
        ensures
            c.settings() == (EncoderSettings { complexity, ..self.settings() }),
    {
        EncoderConfig { complexity, ..self }
    }

    /// Set the balance between compression and size
    pub fn qp(self, value: QpRange) -> (c: Self)
        ensures
            c.settings() == (EncoderSettings {
                qp_min: value.spec_min(),
                qp_max: value.spec_max(),
                ..self.settings()
            }),
    {
        EncoderConfig { qp: value, ..self }
    }

    /// Set scene change detect (on by default)
    pub fn scene_change_detect(self, value: bool) -> (c: Self)
        ensures
            c.settings() == (EncoderSettings { scene_change_detect: value, ..self.settings() }),
    {
        EncoderConfig { scene_change_detect: value, ..self }
    }

    /// Set adaptive quantization control (on by default)
    pub fn adaptive_quantization(self, value: bool) -> (c: Self)
        ensures
            c.settings() == (EncoderSettings { adaptive_quantization: value, ..self.settings() }),
    {
        EncoderConfig { adaptive_quantization: value, ..self }
    }

    /// Set background detection (on by default)
    pub fn background_detection(self, value: bool) -> (c: Self)
        ensures
            c.settings() == (EncoderSettings { background_detection: value, ..self.settings() }),
    {
        EncoderConfig { background_detection: value, ..self }
    }

    /// Set use of long term reference (off by default)
    pub fn long_term_reference(self, value: bool) -> (c: Self)
        ensures
            c.settings() == (EncoderSettings { long_term_reference: value, ..self.settings() }),
    {
        EncoderConfig { long_term_reference: value, ..self }
    }

    /// Set the interval of intra frames (0 by default, disabling periodic intra frames)
    pub fn intra_frame_period(self, value: IntraFramePeriod) -> (c: Self)
        ensures
            c.settings() == (EncoderSettings {
                intra_frame_period: value.frames(),
                ..self.settings()
            }),
    {
        EncoderConfig { intra_frame_period: value, ..self }
    }

    /// Sets the number of internal encoder threads.
    ///
    /// * 0 - auto mode
    /// * 1 - single threaded operation
    /// * &gt;1 - fixed number of threads
    ///
    /// Defaults to 0 (auto mode).
    pub fn num_threads(self, threads: u16) -> (c: Self)
        ensures
            c.settings() == (EncoderSettings { multiple_thread_idc: threads, ..self.settings() }),
    {
        EncoderConfig { multiple_thread_idc: threads, ..self }
    }
}

impl Default for EncoderConfig {
    fn default() -> (c: Self)
        ensures
            c.settings() == (EncoderSettings {
                enable_skip_frame: false,
                target_bitrate: 0,
                enable_denoise: false,
                debug: 0,
                data_format: 0,
                max_frame_rate: 0,
                rate_control_mode: RateControlMode::Quality,
                sps_pps_strategy: SpsPpsStrategy::ConstantId,
                multiple_thread_idc: 0,
                usage_type: UsageType::CameraVideoRealTime,
                max_slice_len: None,
                profile: None,
                level: None,
                complexity: Complexity::Medium,
                qp_min: 0,
                qp_max: 51,
                scene_change_detect: false,
                adaptive_quantization: false,
                background_detection: false,
                long_term_reference: false,
                intra_frame_period: 0,
            }),
    {
        EncoderConfig {
            enable_skip_frame: false,
            target_bitrate: BitRate::from_bps(0),
            enable_denoise: false,
            debug: 0,
            data_format: 0,
            max_frame_rate: FrameRate::from_hz_bits(0),
            rate_control_mode: RateControlMode::Quality,
            sps_pps_strategy: SpsPpsStrategy::ConstantId,
            multiple_thread_idc: 0,
            usage_type: UsageType::CameraVideoRealTime,
            max_slice_len: None,
            profile: None,
            level: None,
            complexity: Complexity::Medium,
            qp: QpRange::new(0, 51),
            scene_change_detect: false,
            adaptive_quantization: false,
            background_detection: false,
            long_term_reference: false,
            intra_frame_period: IntraFramePeriod::from_num_frames(0),
        }
    }
}

/// How the native encoder cuts a spatial layer into slices.
#[derive(Clone, Copy, Debug, PartialEq, Eq, Structural)]
pub struct SliceArgument {
    /// The slice mode.
    pub slice_mode: u32,
    /// The number of slices.
    pub slice_num: u32,
    /// The largest slice size, in bytes, when slices are limited in size.
    pub slice_size_constraint: u32,
}

/// The settings of the first spatial layer of the native encoder.
#[derive(Clone, Copy, Debug, PartialEq, Eq, Structural)]
pub struct SpatialLayerParams {
    /// Width of the layer.
    pub video_width: i32,
    /// Height of the layer.
    pub video_height: i32,
    /// Bits of the `f32` frame rate.
    pub frame_rate: u32,
    /// Bitrate of the layer.
    pub spatial_bitrate: i32,
    /// Largest bitrate of the layer.
    pub max_spatial_bitrate: i32,
    /// Native profile value.
    pub profile_idc: i32,
    /// Native level value.
    pub level_idc: i32,
    /// How the layer is cut into slices.
    pub slice_argument: SliceArgument,
}

/// The parameters of the native encoder that configuring it for a picture size sets; the
/// others keep what the native encoder's defaults hold.
#[derive(Clone, Copy, Debug, PartialEq, Eq, Structural)]
pub struct EncoderParams {
    /// Picture width.
    pub pic_width: i32,
    /// Picture height.
    pub pic_height: i32,
    /// Native rate control mode.
    pub rc_mode: i32,
    /// Frame skipping.
    pub enable_frame_skip: bool,
    /// Target bitrate.
    pub target_bitrate: i32,
    /// Denoising.
    pub enable_denoise: bool,
    /// Bits of the `f32` maximum frame rate.
    pub max_frame_rate: u32,
    /// Native SPS/PPS strategy.
    pub sps_pps_id_strategy: i32,
    /// Number of native threads.
    pub multiple_thread_idc: u16,
    /// Native usage type.
    pub usage_type: i32,
    /// Scene change detection.
    pub enable_scene_change_detect: bool,
    /// Adaptive quantization.
    pub enable_adaptive_quant: bool,
    /// Background detection.
    pub enable_background_detection: bool,
    /// Long term reference.
    pub enable_long_term_reference: bool,
    /// Native complexity.
    pub complexity_mode: i32,
    /// Frames between I-frames.
    pub intra_period: u32,
    /// Deblocking filter setting.
    pub loop_filter_disable_idc: i32,
    /// Smallest quantization.
    pub min_qp: i32,
    /// Largest quantization.
    pub max_qp: i32,
    /// Number of spatial layers.
    pub spatial_layer_num: i32,
    /// Number of temporal layers.
    pub temporal_layer_num: i32,
    /// Long term reference marking period.
    pub ltr_mark_period: u32,
    /// Largest NAL unit size.
    pub max_nal_size: u32,
    /// The first spatial layer.
    pub layer: SpatialLayerParams,
}

/// Largest picture side the native encoder accepts.
pub const MAX_GREATER_SIDE: i32 = 3840;

/// Largest smaller picture side the native encoder accepts.
pub const MAX_SMALLER_SIDE: i32 = 2160;

/// Whether the native encoder accepts a picture of `width` by `height`: at most 3840x2160
/// horizontally or 2160x3840 vertically.
pub open spec fn resolution_supported(width: i32, height: i32) -> bool {
    let greater = if width >= height { width } else { height };
    let smaller = if width >= height { height } else { width };
    greater <= MAX_GREATER_SIDE && smaller <= MAX_SMALLER_SIDE
}

/// Checks that the native encoder supports a picture of `width` by `height`.
pub fn check_resolution(width: i32, height: i32) -> (r: Result<(), Error>)
    ensures
        r is Ok <==> resolution_supported(width, height),
        r matches Err(e) ==> e.native() == 0 && e.message() == Some(resolution_message()),
{
    let greater_dim = if width >= height {
        width
    } else {
        height
    };
    let smaller_dim = if width >= height {
        height
    } else {
        width
    };
    if greater_dim > MAX_GREATER_SIDE || smaller_dim > MAX_SMALLER_SIDE {
        return Err(Error::msg("Encoder max resolution 3840x2160 horizontal or 2160x3840 vertical"));
    }
    Ok(())
}

/// The parameters for a picture of `width` by `height` under the settings `s`, starting from
/// the native encoder's `defaults`; the target bitrate must fit in an `i32`.
pub open spec fn configured_params(
    s: EncoderSettings,
    defaults: EncoderParams,
    width: i32,
    height: i32,
) -> EncoderParams {
    EncoderParams {
        pic_width: width,
        pic_height: height,
        rc_mode: s.rate_control_mode.code(),
        enable_frame_skip: s.enable_skip_frame,
        target_bitrate: s.target_bitrate as i32,
        enable_denoise: s.enable_denoise,
        max_frame_rate: s.max_frame_rate,
        sps_pps_id_strategy: s.sps_pps_strategy.code(),
        multiple_thread_idc: s.multiple_thread_idc,
        usage_type: s.usage_type.code(),
        enable_scene_change_detect: s.scene_change_detect,
        enable_adaptive_quant: s.adaptive_quantization,
        enable_background_detection: s.background_detection,
        enable_long_term_reference: s.long_term_reference,
        complexity_mode: s.complexity.code(),
        intra_period: s.intra_frame_period,
        loop_filter_disable_idc: DEBLOCKING_IDC_0,
        min_qp: s.qp_min as i32,
        max_qp: s.qp_max as i32,
        spatial_layer_num: 1,
        temporal_layer_num: 1,
        ltr_mark_period: 30,
        max_nal_size: match s.max_slice_len {
            Some(m) => m,
            None => defaults.max_nal_size,
        },
        layer: SpatialLayerParams {
            video_width: width,
            video_height: height,
            frame_rate: s.max_frame_rate,
            spatial_bitrate: s.target_bitrate as i32,
            max_spatial_bitrate: s.target_bitrate as i32,
            profile_idc: match s.profile {
                Some(p) => p.code(),
                None => defaults.layer.profile_idc,
            },
            level_idc: match s.level {
                Some(l) => l.code(),
                None => defaults.layer.level_idc,
            },
            slice_argument: match s.max_slice_len {
                Some(m) => SliceArgument {
                    slice_mode: SM_SIZELIMITED_SLICE,
                    slice_size_constraint: m,
                    ..defaults.layer.slice_argument
                },
                None => SliceArgument {
                    slice_mode: SM_SINGLE_SLICE,
                    slice_num: 1,
                    ..defaults.layer.slice_argument
                },
            },
        },
    }
}

/// A call into the native encoder that configuring it takes, in the order given.
#[derive(Clone, Copy, Debug)]
pub enum NativeEncoderCall {
    /// Initializes the native encoder with the parameters.
    InitializeExt(EncoderParams),
    /// Sets the native trace level.
    SetTraceLevel(i32),
    /// Sets the picture format.
    SetDataFormat(i32),
    /// Replaces the parameters of the running native encoder.
    SetEncodeParams(EncoderParams),
    /// Makes the next frame an intra frame; what it returns is not looked at.
    ForceIntraFrame,
}

/// What a call into the native encoder returning `code` means: only `ForceIntraFrame` is never
/// a failure.
pub open spec fn call_failed(call: NativeEncoderCall, code: i32) -> bool {
    !(call is ForceIntraFrame) && code != 0
}

/// Turns what a native configuration call returned into success or an error.
pub fn native_outcome(call: &NativeEncoderCall, code: i32) -> (r: Result<(), Error>)
    ensures
        r is Err <==> call_failed(*call, code),
        r matches Err(e) ==> e.native() == code as i64 && e.message() is None,
{
    match call {
        NativeEncoderCall::ForceIntraFrame => Ok(()),
        _ => code.ok(),
    }
}

/// The native calls that configure the encoder with `params`, in order: the first time (`first`)
/// it is initialized and given the trace level and picture format of `s`; later its parameters
/// are replaced and the next frame is made an intra frame.
pub open spec fn configure_calls(first: bool, s: EncoderSettings, params: EncoderParams) -> Seq<
    NativeEncoderCall,
> {
    if first {
        seq![
            NativeEncoderCall::InitializeExt(params),
            NativeEncoderCall::SetTraceLevel(s.debug),
            NativeEncoderCall::SetDataFormat(s.data_format),
        ]
    } else {
        seq![NativeEncoderCall::SetEncodeParams(params), NativeEncoderCall::ForceIntraFrame]
    }
}

/// Where the encoder stands in encoding one frame.
#[derive(Clone, Copy, Debug, PartialEq, Eq, Structural)]
pub enum EncodePhase {
    /// No frame is under way.
    Idle,
    /// Waiting for the native encoder's default parameters, to configure it for a frame of
    /// `width` by `height`.
    AwaitingDefaults {
        /// Width of the frame.
        width: i32,
        /// Height of the frame.
        height: i32,
    },
    /// Configuring the native encoder for a frame of `width` by `height` with `params`;
    /// `issued` of the calls of [`configure_calls`] have been handed out.
    Configuring {
        /// Width of the frame.
        width: i32,
        /// Height of the frame.
        height: i32,
        /// Whether the native encoder is initialized for the first time.
        first: bool,
        /// The parameters the native encoder is given.
        params: EncoderParams,
        /// How many configuration calls have been handed out.
        issued: usize,
    },
    /// Waiting for the native encoder to encode the frame.
    Encoding,
}

/// What the native side reported to the encoder.
#[derive(Clone, Copy, Debug)]
pub enum EncodeEvent {
    /// A frame of `width` by `height` is to be encoded.
    Frame {
        /// Width of the frame.
        width: i32,
        /// Height of the frame.
        height: i32,
    },
    /// Asking the native encoder for its default parameters returned `code` and `params`.
    Defaults {
        /// What the native call returned.
        code: i32,
        /// The default parameters.
        params: EncoderParams,
    },
    /// The configuration call handed out last returned `code`.
    CallReturned {
        /// What the native call returned.
        code: i32,
    },
    /// Encoding the frame returned `code`.
    FrameEncoded {
        /// What the native call returned.
        code: i32,
    },
}

/// What the caller does next for the frame under way.
#[derive(Debug)]
pub enum EncodeAction {
    /// Ask the native encoder for its default parameters.
    GetDefaultParams,
    /// Make this configuration call.
    Call(NativeEncoderCall),
    /// Encode the frame's [`SourcePicture`].
    EncodeFrame,
    /// The frame is done: encoded, or failed with the error.
    Finished(Result<(), Error>),
}

/// Whether an encoder in `phase` takes `event`: a frame when idle, the default parameters when
/// it asked for them, the result of a configuration call while configuring, and the result of
/// encoding while encoding.
pub open spec fn accepts(phase: EncodePhase, event: EncodeEvent) -> bool {
    match (phase, event) {
        (EncodePhase::Idle, EncodeEvent::Frame { .. }) => true,
        (EncodePhase::AwaitingDefaults { .. }, EncodeEvent::Defaults { .. }) => true,
        (EncodePhase::Configuring { .. }, EncodeEvent::CallReturned { .. }) => true,
        (EncodePhase::Encoding, EncodeEvent::FrameEncoded { .. }) => true,
        _ => false,
    }
}

/// The message when the size of a frame is beyond what the native encoder supports.
pub open spec fn resolution_message() -> Seq<char> {
    "Encoder max resolution 3840x2160 horizontal or 2160x3840 vertical"@
}

/// The source picture the native encoder reads, apart from the plane pointers.
#[derive(Clone, Copy, Debug, PartialEq, Eq, Structural)]
pub struct SourcePicture {
    /// Picture format.
    pub color_format: i32,
    /// Stride of the Y plane.
    pub y_stride: i32,
    /// Stride of the U plane.
    pub u_stride: i32,
    /// Stride of the V plane.
    pub v_stride: i32,
    /// Picture width.
    pub pic_width: i32,
    /// Picture height.
    pub pic_height: i32,
    /// Timestamp in milliseconds.
    pub timestamp: i64,
}

/// The encoder's settings, the picture size it was last configured for and where it stands in
/// encoding a frame; the native encoder itself is driven by the caller, who performs the
/// [`EncodeAction`]s that [`Encoder::encode_step`] hands out and reports what came back.
pub struct Encoder {
    config: EncoderConfig,
    previous_dimensions: Option<(i32, i32)>,
    phase: EncodePhase,
}

impl Encoder {
    /// The settings of the encoder.
    pub closed spec fn spec_config(&self) -> EncoderConfig {
        self.config
    }

    /// The picture size the native encoder was last configured for.
    pub closed spec fn configured_for(&self) -> Option<(i32, i32)> {
        self.previous_dimensions
    }

    /// Where the encoder stands in encoding a frame.
    pub closed spec fn phase(&self) -> EncodePhase {
        self.phase
    }

    /// While configuring, at least one and at most all of the configuration calls are out.
    #[verifier::type_invariant]
    spec fn phase_in_range(self) -> bool {
        match self.phase {
            EncodePhase::Configuring { first, params, issued, .. } => 1 <= issued
                <= configure_calls(first, self.config.settings(), params).len(),
            _ => true,
        }
    }

    /// An encoder with default settings, not configured for any size yet.
    pub fn new() -> (e: Self)
        ensures
            e.spec_config().settings() == initial_settings(),
            e.configured_for() is None,
            e.phase() == EncodePhase::Idle,
    {
        Encoder { config: EncoderConfig::new(), previous_dimensions: None, phase: EncodePhase::Idle }
    }

    /// An encoder with the given settings, not configured for any size yet.
    pub fn with_config(config: EncoderConfig) -> (e: Self)
        ensures
            e.spec_config() == config,
            e.configured_for() is None,
            e.phase() == EncodePhase::Idle,
    {
        Encoder { config, previous_dimensions: None, phase: EncodePhase::Idle }
    }

    /// Whether the encoder takes `event` now (see [`accepts`]).
    pub fn expects(&self, event: &EncodeEvent) -> (b: bool)
        ensures
            b == accepts(self.phase(), *event),
    {
        match (&self.phase, event) {
            (EncodePhase::Idle, EncodeEvent::Frame { .. }) => true,
            (EncodePhase::AwaitingDefaults { .. }, EncodeEvent::Defaults { .. }) => true,
            (EncodePhase::Configuring { .. }, EncodeEvent::CallReturned { .. }) => true,
            (EncodePhase::Encoding, EncodeEvent::FrameEncoded { .. }) => true,
            _ => false,
        }
    }

    /// Call number `i` of [`configure_calls`] for this encoder's settings.
    fn configure_call(&self, first: bool, params: EncoderParams, i: usize) -> (c: NativeEncoderCall)
        requires
            i < configure_calls(first, self.spec_config().settings(), params).len(),
        ensures
            c == configure_calls(first, self.spec_config().settings(), params)[i as int],
    {
        if first {
            if i == 0 {
                NativeEncoderCall::InitializeExt(params)
            } else if i == 1 {
                NativeEncoderCall::SetTraceLevel(self.config.debug)
            } else {
                NativeEncoderCall::SetDataFormat(self.config.data_format)
            }
        } else {
            if i == 0 {
                NativeEncoderCall::SetEncodeParams(params)
            } else {
                NativeEncoderCall::ForceIntraFrame
            }
        }
    }

    /// Takes one step of encoding a frame: from what the native side reported to what the
    /// caller does next.
    ///
    /// A frame of the size the native encoder is configured for is encoded at once. Another size
    /// is checked first: one beyond what the native encoder supports fails before any native
    /// call. Otherwise the default parameters are asked for, the settings applied to them, and
    /// the calls of [`configure_calls`] handed out one by one; the first that fails ends the
    /// frame with its error. Only when all have succeeded is the new size recorded and the frame
    /// encoded. What encoding returns finishes the frame.
    pub fn encode_step(&mut self, event: EncodeEvent) -> (a: EncodeAction)
        requires
            accepts(old(self).phase(), event),
        ensures
            final(self).spec_config() == old(self).spec_config(),
            match (old(self).phase(), event) {
                (EncodePhase::Idle, EncodeEvent::Frame { width, height }) => if old(
                    self,
                ).configured_for() == Some((width, height)) {
                    &&& a is EncodeFrame
                    &&& final(self).phase() == EncodePhase::Encoding
                    &&& final(self).configured_for() == old(self).configured_for()
                } else if !resolution_supported(width, height) {
                    &&& a matches EncodeAction::Finished(Err(e)) && e.native() == 0 && e.message()
                        == Some(resolution_message())
                    &&& final(self).phase() == EncodePhase::Idle
                    &&& final(self).configured_for() == old(self).configured_for()
                } else {
                    &&& a is GetDefaultParams
                    &&& final(self).phase() == (EncodePhase::AwaitingDefaults { width, height })
                    &&& final(self).configured_for() == old(self).configured_for()
                },
                (
                    EncodePhase::AwaitingDefaults { width, height },
                    EncodeEvent::Defaults { code, params },
                ) => if code != 0 {
                    &&& a matches EncodeAction::Finished(Err(e)) && e.native() == code as i64
                        && e.message() is None
                    &&& final(self).phase() == EncodePhase::Idle
                    &&& final(self).configured_for() == old(self).configured_for()
                } else if old(self).spec_config().settings().target_bitrate > i32::MAX {
                    &&& a matches EncodeAction::Finished(Err(e)) && e.native() == 0
                        && exists|c: TryFromIntError| e.message() == Some(
                        #[trigger] conversion_failed(c),
                    )
                    &&& final(self).phase() == EncodePhase::Idle
                    &&& final(self).configured_for() == old(self).configured_for()
                } else {
                    let first = old(self).configured_for() is None;
                    let p = configured_params(
                        old(self).spec_config().settings(),
                        params,
                        width,
                        height,
                    );
                    &&& a == EncodeAction::Call(
                        configure_calls(first, old(self).spec_config().settings(), p)[0],
                    )
                    &&& final(self).phase() == (EncodePhase::Configuring {
                        width,
                        height,
                        first,
                        params: p,
                        issued: 1,
                    })
                    &&& final(self).configured_for() == old(self).configured_for()
                },
                (
                    EncodePhase::Configuring { width, height, first, params, issued },
                    EncodeEvent::CallReturned { code },
                ) => {
                    let calls = configure_calls(first, old(self).spec_config().settings(), params);
                    if call_failed(calls[issued - 1], code) {
                        &&& a matches EncodeAction::Finished(Err(e)) && e.native() == code as i64
                            && e.message() is None
                        &&& final(self).phase() == EncodePhase::Idle
                        &&& final(self).configured_for() == old(self).configured_for()
                    } else if issued < calls.len() {
                        &&& a == EncodeAction::Call(calls[issued as int])
                        &&& final(self).phase() == (EncodePhase::Configuring {
                            width,
                            height,
                            first,
                            params,
                            issued: (issued + 1) as usize,
                        })
                        &&& final(self).configured_for() == old(self).configured_for()
                    } else {
                        &&& a is EncodeFrame
                        &&& final(self).phase() == EncodePhase::Encoding
                        &&& final(self).configured_for() == Some((width, height))
                    }
                },
                (EncodePhase::Encoding, EncodeEvent::FrameEncoded { code }) => {
                    &&& a matches EncodeAction::Finished(r) && (r is Ok <==> code == 0) && (r matches Err(
                        e,
                    ) ==> e.native() == code as i64 && e.message() is None)
                    &&& final(self).phase() == EncodePhase::Idle
                    &&& final(self).configured_for() == old(self).configured_for()
                },
                _ => false,
            },
    {
        proof {
            use_type_invariant(&*self);
        }
        match (self.phase, event) {
            (EncodePhase::Idle, EncodeEvent::Frame { width, height }) => {
                if !self.needs_reinit((width, height)) {
                    self.phase = EncodePhase::Encoding;
                    return EncodeAction::EncodeFrame;
                }
                match check_resolution(width, height) {
                    Err(e) => EncodeAction::Finished(Err(e)),
                    Ok(()) => {
                        self.phase = EncodePhase::AwaitingDefaults { width, height };
                        EncodeAction::GetDefaultParams
                    },
                }
            },
            (EncodePhase::AwaitingDefaults { width, height }, EncodeEvent::Defaults { code, params }) => {
                self.phase = EncodePhase::Idle;
                if let Err(e) = code.ok() {
                    return EncodeAction::Finished(Err(e));
                }
                match self.reinit_params(params, width, height) {
                    Err(e) => EncodeAction::Finished(Err(e)),
                    Ok(p) => {
                        let first = self.previous_dimensions.is_none();
                        let call = self.configure_call(first, p, 0);
                        self.phase = EncodePhase::Configuring {
                            width,
                            height,
                            first,
                            params: p,
                            issued: 1,
                        };
                        EncodeAction::Call(call)
                    },
                }
            },
            (
                EncodePhase::Configuring { width, height, first, params, issued },
                EncodeEvent::CallReturned { code },
            ) => {
                let last = self.configure_call(first, params, issued - 1);
                if let Err(e) = native_outcome(&last, code) {
                    self.phase = EncodePhase::Idle;
                    return EncodeAction::Finished(Err(e));
                }
                let count: usize = if first {
                    3
                } else {
                    2
                };
                if issued < count {
                    let call = self.configure_call(first, params, issued);
                    self.phase = EncodePhase::Configuring {
                        width,
                        height,
                        first,
                        params,
                        issued: issued + 1,
                    };
                    EncodeAction::Call(call)
                } else {
                    self.finish_reinit((width, height));
                    self.phase = EncodePhase::Encoding;
                    EncodeAction::EncodeFrame
                }
            },
            (EncodePhase::Encoding, EncodeEvent::FrameEncoded { code }) => {
                self.phase = EncodePhase::Idle;
                EncodeAction::Finished(code.ok())
            },
            // Ruled out by `accepts`.
            _ => EncodeAction::Finished(Ok(())),
        }
    }

    /// The settings of the encoder.
    pub fn config(&self) -> (c: EncoderConfig)
        ensures
            c == self.spec_config(),
    {
        self.config
    }

    /// Whether the native encoder has to be configured anew before encoding a picture of
    /// `dimensions`: each time the size changes, and before the first picture.
    pub fn needs_reinit(&self, dimensions: (i32, i32)) -> (r: bool)
        ensures
            r <==> self.configured_for() != Some(dimensions),
    {
        match self.previous_dimensions {
            Some(d) => !(d.0 == dimensions.0 && d.1 == dimensions.1),
            None => true,
        }
    }

    /// The parameters for a picture of `width` by `height`, starting from the native
    /// encoder's `defaults`; fails when the target bitrate does not fit in an `i32`.
    pub fn reinit_params(&self, defaults: EncoderParams, width: i32, height: i32) -> (r: Result<
        EncoderParams,
        Error,
    >)
        ensures
            r is Err <==> self.spec_config().settings().target_bitrate > i32::MAX,
            r matches Ok(p) ==> p == configured_params(
                self.spec_config().settings(),
                defaults,
                width,
                height,
            ),
            r matches Err(e) ==> e.native() == 0 && exists|c: TryFromIntError|
                e.message() == Some(#[trigger] conversion_failed(c)),
            r matches Ok(p) ==> 0 <= p.min_qp <= p.max_qp <= 51,
    {
        let c = &self.config;
        proof {
            use_type_invariant(&c.qp);
        }
        let bitrate = match checked_i32(c.target_bitrate.0) {
            Ok(b) => b,
            Err(e) => {
                return Err(Error::from_conversion(e));
            },
        };
        let slice_argument = match c.max_slice_len {
            Some(m) => SliceArgument {
                slice_mode: SM_SIZELIMITED_SLICE,
                slice_size_constraint: m,
                ..defaults.layer.slice_argument
            },
            None => SliceArgument {
                slice_mode: SM_SINGLE_SLICE,
                slice_num: 1,
                ..defaults.layer.slice_argument
            },
        };
        let params = EncoderParams {
            pic_width: width,
            pic_height: height,
            rc_mode: c.rate_control_mode.to_c(),
            enable_frame_skip: c.enable_skip_frame,
            target_bitrate: bitrate,
            enable_denoise: c.enable_denoise,
            max_frame_rate: c.max_frame_rate.0,
            sps_pps_id_strategy: c.sps_pps_strategy.to_c(),
            multiple_thread_idc: c.multiple_thread_idc,
            usage_type: c.usage_type.to_c(),
            enable_scene_change_detect: c.scene_change_detect,
            enable_adaptive_quant: c.adaptive_quantization,
            enable_background_detection: c.background_detection,
            enable_long_term_reference: c.long_term_reference,
            complexity_mode: c.complexity.to_c(),
            intra_period: c.intra_frame_period.0,
            loop_filter_disable_idc: DEBLOCKING_IDC_0,
            min_qp: c.qp.min as i32,
            max_qp: c.qp.max as i32,
            spatial_layer_num: 1,
            temporal_layer_num: 1,
            ltr_mark_period: 30,
            max_nal_size: match c.max_slice_len {
                Some(m) => m,
                None => defaults.max_nal_size,
            },
            layer: SpatialLayerParams {
                video_width: width,
                video_height: height,
                frame_rate: c.max_frame_rate.0,
                spatial_bitrate: bitrate,
                max_spatial_bitrate: bitrate,
                profile_idc: match c.profile {
                    Some(p) => p.to_c(),
                    None => defaults.layer.profile_idc,
                },
                level_idc: match c.level {
                    Some(l) => l.to_c(),
                    None => defaults.layer.level_idc,
                },
                slice_argument,
            },
        };
        Ok(params)
    }

    /// The native calls that configure the encoder with `params`, in order (see
    /// [`configure_calls`]): the first time the encoder is initialized and given its trace level
    /// and picture format; later the parameters are replaced and the next frame is made an intra
    /// frame.
    pub fn reinit_calls(&self, params: EncoderParams) -> (calls: Vec<NativeEncoderCall>)
        ensures
            calls@ == configure_calls(
                self.configured_for() is None,
                self.spec_config().settings(),
                params,
            ),
    {
        let mut calls = Vec::new();
        if self.previous_dimensions.is_none() {
            calls.push(NativeEncoderCall::InitializeExt(params));
            calls.push(NativeEncoderCall::SetTraceLevel(self.config.debug));
            calls.push(NativeEncoderCall::SetDataFormat(self.config.data_format));
        } else {
            calls.push(NativeEncoderCall::SetEncodeParams(params));
            calls.push(NativeEncoderCall::ForceIntraFrame);
        }
        calls
    }

    /// Records that the native encoder is now configured for `dimensions`.
    pub fn finish_reinit(&mut self, dimensions: (i32, i32))
        ensures
            final(self).configured_for() == Some(dimensions),
            final(self).spec_config() == old(self).spec_config(),
            final(self).phase() == old(self).phase(),
    {
        proof {
            use_type_invariant(&*self);
        }
        self.previous_dimensions = Some(dimensions);
    }

    /// The source picture handed to the native encoder for `yuv_source` at `timestamp`.
    pub fn source_picture<T: YUVSource>(yuv_source: &T, timestamp: Timestamp) -> (p: SourcePicture)
        requires
            timestamp.millis() <= i64::MAX,
        ensures
            p == (SourcePicture {
                color_format: VIDEO_FORMAT_I420,
                y_stride: yuv_source.spec_strides().0 as i32,
                u_stride: yuv_source.spec_strides().1 as i32,
                v_stride: yuv_source.spec_strides().2 as i32,
                pic_width: yuv_source.spec_dimensions().0 as i32,
                pic_height: yuv_source.spec_dimensions().1 as i32,
                timestamp: timestamp.millis() as i64,
            }),
    {
        let dims = yuv_source.dimensions_i32();
        let strides = yuv_source.strides_i32();
        SourcePicture {
            color_format: VIDEO_FORMAT_I420,
            y_stride: strides.0,
            u_stride: strides.1,
            v_stride: strides.2,
            pic_width: dims.0,
            pic_height: dims.1,
            timestamp: timestamp.as_native(),
        }
    }
}

/// Calls `i32::try_from` on a `u32`: the value itself when it is at most `i32::MAX`, else std's
/// conversion error.
#[verifier::external_body]
fn checked_i32(v: u32) -> (r: Result<i32, TryFromIntError>)
    ensures
        r is Ok <==> v <= i32::MAX,
        r matches Ok(x) ==> x == v,
{
    i32::try_from(v)
}

/// Frame type returned by the encoder.
///
/// The variant documentation was directly taken from OpenH264 project.
#[derive(Debug, Ord, PartialOrd, Eq, PartialEq, Structural, Copy, Clone)]
pub enum FrameType {
    /// Encoder not ready or parameters are invalidate.
    Invalid,
    /// IDR frame in H.264
    IDR,
    /// I frame type
    I,
    /// P frame type
    P,
    /// Skip the frame based encoder kernel"
    Skip,
    /// A frame where I and P slices are mixing, not supported yet.
    IPMixed,
}

/// The frame type a native value stands for; unknown values are `Invalid`.
pub open spec fn frame_type_of(native: i32) -> FrameType {
    if native == VIDEO_FRAME_TYPE_IDR {
        FrameType::IDR
    } else if native == VIDEO_FRAME_TYPE_I {
        FrameType::I
    } else if native == VIDEO_FRAME_TYPE_P {
        FrameType::P
    } else if native == VIDEO_FRAME_TYPE_SKIP {
        FrameType::Skip
    } else if native == VIDEO_FRAME_TYPE_IP_MIXED {
        FrameType::IPMixed
    } else {
        FrameType::Invalid
    }
}

impl FrameType {
    /// The frame type a native value stands for.
    pub fn from_c_int(native: i32) -> (r: Self)
        ensures
            r == frame_type_of(native),
    {
        if native == VIDEO_FRAME_TYPE_IDR {
            FrameType::IDR
        } else if native == VIDEO_FRAME_TYPE_I {
            FrameType::I
        } else if native == VIDEO_FRAME_TYPE_P {
            FrameType::P
        } else if native == VIDEO_FRAME_TYPE_SKIP {
            FrameType::Skip
        } else if native == VIDEO_FRAME_TYPE_IP_MIXED {
            FrameType::IPMixed
        } else {
            FrameType::Invalid
        }
    }
}

/// Where NAL unit `i` begins in a layer's buffer: the lengths of the units before it, summed.
pub open spec fn nal_offset(lengths: Seq<i32>, i: int) -> int
    decreases i,
{
    if i <= 0 {
        0
    } else {
        nal_offset(lengths, i - 1) + lengths[i - 1]
    }
}

/// NAL unit `i` of a layer: `lengths[i]` bytes of `bytes` from where it begins.
pub open spec fn nal_bytes(lengths: Seq<i32>, bytes: Seq<u8>, i: int) -> Seq<u8> {
    bytes.subrange(nal_offset(lengths, i), nal_offset(lengths, i) + lengths[i])
}

/// The first `n` NAL units of a layer, one after the other.
pub open spec fn nals_concat(lengths: Seq<i32>, bytes: Seq<u8>, n: int) -> Seq<u8>
    decreases n,
{
    if n <= 0 {
        Seq::empty()
    } else {
        nals_concat(lengths, bytes, n - 1) + nal_bytes(lengths, bytes, n - 1)
    }
}

/// No length is negative, and the units fit in the buffer.
pub open spec fn lengths_fit(lengths: Seq<i32>, len: int) -> bool {
    &&& forall|j: int| 0 <= j < lengths.len() ==> lengths[j] >= 0
    &&& nal_offset(lengths, lengths.len() as int) <= len
}

/// With lengths that are not negative, units begin in order.
pub proof fn lemma_nal_offset_monotone(lengths: Seq<i32>, i: int, k: int)
    requires
        0 <= i <= k <= lengths.len(),
        forall|j: int| 0 <= j < lengths.len() ==> lengths[j] >= 0,
    ensures
        0 <= nal_offset(lengths, i) <= nal_offset(lengths, k),
    decreases k,
{
    if k > 0 {
        if i < k {
            lemma_nal_offset_monotone(lengths, i, k - 1);
        } else {
            lemma_nal_offset_monotone(lengths, k - 1, k - 1);
        }
        assert(lengths[k - 1] >= 0);
    }
}

/// The NAL units of a layer, one after the other, are the front of its buffer up to where the
/// last one ends.
pub proof fn lemma_nals_are_prefix(lengths: Seq<i32>, bytes: Seq<u8>, n: int)
    requires
        0 <= n <= lengths.len(),
        lengths_fit(lengths, bytes.len() as int),
    ensures
        nals_concat(lengths, bytes, n) == bytes.subrange(0, nal_offset(lengths, n)),
    decreases n,
{
    lemma_nal_offset_monotone(lengths, n, lengths.len() as int);
    if n > 0 {
        lemma_nals_are_prefix(lengths, bytes, n - 1);
        lemma_nal_offset_monotone(lengths, n - 1, n);
        assert(bytes.subrange(0, nal_offset(lengths, n - 1)) + nal_bytes(lengths, bytes, n - 1)
            =~= bytes.subrange(0, nal_offset(lengths, n)));
    } else {
        assert(bytes.subrange(0, 0) =~= Seq::<u8>::empty());
    }
}

/// What the native encoder reports of one encoded layer: its type, the lengths of its NAL units
/// and the buffer that holds them one after the other.
pub struct LayerInfo {
    layer_type: u8,
    nal_lengths: Vec<i32>,
    bitstream: Vec<u8>,
}

impl LayerInfo {
    #[verifier::type_invariant]
    spec fn fits(self) -> bool {
        lengths_fit(self.nal_lengths@, self.bitstream@.len() as int)
    }

    /// The native layer type.
    pub closed spec fn spec_layer_type(&self) -> u8 {
        self.layer_type
    }

    /// The lengths of the NAL units.
    pub closed spec fn lengths(&self) -> Seq<i32> {
        self.nal_lengths@
    }

    /// The buffer holding the NAL units.
    pub closed spec fn bytes(&self) -> Seq<u8> {
        self.bitstream@
    }

    /// The NAL units of the layer, one after the other.
    pub open spec fn payload(&self) -> Seq<u8> {
        nals_concat(self.lengths(), self.bytes(), self.lengths().len() as int)
    }

    /// A layer from its parts; `None` when a length is negative or the units do not fit in the
    /// buffer.
    pub fn from_parts(layer_type: u8, nal_lengths: Vec<i32>, bitstream: Vec<u8>) -> (r: Option<
        Self,
    >)
        ensures
            r is Some <==> lengths_fit(nal_lengths@, bitstream@.len() as int),
            r matches Some(l) ==> l.spec_layer_type() == layer_type && l.lengths() == nal_lengths@
                && l.bytes() == bitstream@,
    {
        let mut total: usize = 0;
        let mut j: usize = 0;
        while j < nal_lengths.len()
            invariant
                0 <= j <= nal_lengths@.len(),
                forall|k: int| 0 <= k < j ==> nal_lengths@[k] >= 0,
                total == nal_offset(nal_lengths@, j as int),
                total <= bitstream@.len(),
            decreases nal_lengths@.len() - j,
        {
            let size = nal_lengths[j];
            if size < 0 || size as usize > bitstream.len() - total {
                proof {
                    if lengths_fit(nal_lengths@, bitstream@.len() as int) {
                        lemma_nal_offset_monotone(
                            nal_lengths@,
                            j as int + 1,
                            nal_lengths@.len() as int,
                        );
                    }
                }
                return None;
            }
            total = total + size as usize;
            j += 1;
        }
        Some(LayerInfo { layer_type, nal_lengths, bitstream })
    }
}

/// What the native encoder reports of one encoded frame.
pub struct FrameInfo {
    /// The native frame type.
    pub frame_type: i32,
    /// The encoded layers.
    pub layers: Vec<LayerInfo>,
}

/// The NAL units of the first `n` layers, one after the other.
pub open spec fn layers_concat(layers: Seq<LayerInfo>, n: int) -> Seq<u8>
    decreases n,
{
    if n <= 0 {
        Seq::empty()
    } else {
        layers_concat(layers, n - 1) + layers[n - 1].payload()
    }
}

/// The whole encoded bitstream of a frame: the NAL units of all its layers, in order.
pub open spec fn frame_bytes(info: FrameInfo) -> Seq<u8> {
    layers_concat(info.layers@, info.layers@.len() as int)
}

/// An encoded layer, contains the Network Abstraction Layer inputs.
pub struct Layer<'a> {
    layer_info: &'a LayerInfo,
}

impl<'a> Layer<'a> {
    /// The layer info this layer reads.
    pub closed spec fn info(&self) -> &'a LayerInfo {
        self.layer_info
    }

    /// Raw layer info contained in a bitstream.
    pub fn raw_info(&self) -> (r: &'a LayerInfo)
        ensures
            r == self.info(),
    {
        self.layer_info
    }

    /// NAL count of this layer.
    pub fn nal_count(&self) -> (r: usize)
        ensures
            r == self.info().lengths().len(),
    {
        self.layer_info.nal_lengths.len()
    }

    /// Returns NAL unit data for the ith element.
    pub fn nal_unit(&self, i: usize) -> (r: Option<&'a [u8]>)
        ensures
            r is Some <==> i < self.info().lengths().len(),
            r matches Some(n) ==> n@ == nal_bytes(
                self.info().lengths(),
                self.info().bytes(),
                i as int,
            ),
    {
        let info = self.layer_info;
        proof {
            use_type_invariant(info);
        }
        if i < info.nal_lengths.len() {
            let ghost lengths = info.nal_lengths@;
            let blen = info.bitstream.len();
            let mut offset: usize = 0;
            let mut j: usize = 0;
            while j < i
                invariant
                    0 <= j <= i < lengths.len(),
                    lengths == info.nal_lengths@,
                    lengths_fit(lengths, info.bitstream@.len() as int),
                    blen == info.bitstream@.len(),
                    offset == nal_offset(lengths, j as int),
                decreases i - j,
            {
                proof {
                    lemma_nal_offset_monotone(lengths, j as int + 1, lengths.len() as int);
                    assert(lengths[j as int] >= 0);
                    assert(nal_offset(lengths, j + 1) == nal_offset(lengths, j as int) + lengths[j as int]);
                }
                offset += info.nal_lengths[j] as usize;
                j += 1;
            }
            proof {
                lemma_nal_offset_monotone(lengths, i as int + 1, lengths.len() as int);
                assert(lengths[i as int] >= 0);
                assert(nal_offset(lengths, i + 1) == nal_offset(lengths, i as int) + lengths[i as int]);
            }
            let size = info.nal_lengths[i] as usize;
            Some(vstd::slice::slice_subrange(info.bitstream.as_slice(), offset, offset + size))
        } else {
            None
        }
    }

    /// If this is a video layer or not.
    pub fn is_video(&self) -> (r: bool)
        ensures
            r <==> self.info().spec_layer_type() == VIDEO_CODING_LAYER,
    {
        self.layer_info.layer_type == VIDEO_CODING_LAYER
    }
}

/// Bitstream output resulting from an encode operation.
pub struct EncodedBitStream<'a> {
    bit_stream_info: &'a FrameInfo,
}

impl<'a> EncodedBitStream<'a> {
    /// The frame info this bitstream reads.
    pub closed spec fn info(&self) -> &'a FrameInfo {
        self.bit_stream_info
    }

    /// The bitstream of an encoded frame.
    pub fn new(bit_stream_info: &'a FrameInfo) -> (b: Self)
        ensures
            b.info() == bit_stream_info,
    {
        EncodedBitStream { bit_stream_info }
    }

    /// Raw bitstream info returned by the encoder.
    pub fn raw_info(&self) -> (r: &'a FrameInfo)
        ensures
            r == self.info(),
    {
        self.bit_stream_info
    }

    /// Frame type of the encoded packet.
    pub fn frame_type(&self) -> (r: FrameType)
        ensures
            r == frame_type_of(self.info().frame_type),
    {
        FrameType::from_c_int(self.bit_stream_info.frame_type)
    }

    /// Number of layers in the encoded packet.
    pub fn num_layers(&self) -> (r: usize)
        ensures
            r == self.info().layers@.len(),
    {
        self.bit_stream_info.layers.len()
    }

    /// Returns ith layer of this bitstream.
    pub fn layer(&self, i: usize) -> (r: Option<Layer<'a>>)
        ensures
            r is Some <==> i < self.info().layers@.len(),
            r matches Some(l) ==> l.info() == self.info().layers@[i as int],
    {
        if i < self.bit_stream_info.layers.len() {
            Some(Layer { layer_info: &self.bit_stream_info.layers[i] })
        } else {
            None
        }
    }

    /// Writes the current bitstream into the given Vec.
    pub fn write_vec(&self, dst: &mut Vec<u8>)
        ensures
            final(dst)@ == old(dst)@ + frame_bytes(*self.info()),
    {
        let layers = &self.bit_stream_info.layers;
        let ghost start = dst@;
        let mut l: usize = 0;
        while l < self.num_layers()
            invariant
                layers == &self.info().layers,
                0 <= l <= layers@.len(),
                dst@ == start + layers_concat(layers@, l as int),
            decreases layers@.len() - l,
        {
            let layer = self.layer(l).unwrap();
            let ghost before = dst@;
            let mut n: usize = 0;
            while n < layer.nal_count()
                invariant
                    0 <= n <= layer.info().lengths().len(),
                    dst@ == before + nals_concat(
                        layer.info().lengths(),
                        layer.info().bytes(),
                        n as int,
                    ),
                decreases layer.info().lengths().len() - n,
            {
                let nal = layer.nal_unit(n).unwrap();
                crate::utils::extend_bytes(dst, nal);
                n += 1;
                proof {
                    assert(dst@ =~= before + nals_concat(
                        layer.info().lengths(),
                        layer.info().bytes(),
                        n as int,
                    ));
                }
            }
            l += 1;
            proof {
                assert(dst@ =~= start + layers_concat(layers@, l as int));
            }
        }
    }

    /// Convenience method returning a Vec containing the encoded bitstream.
    pub fn to_vec(&self) -> (r: Vec<u8>)
        ensures
            r@ == frame_bytes(*self.info()),
    {
        let mut rval = Vec::new();
        self.write_vec(&mut rval);
        proof {
            assert(rval@ =~= frame_bytes(*self.info()));
        }
        rval
    }
}

/// A layer's part of the written bitstream is the front of its buffer, up to where its last NAL
/// unit ends.
pub proof fn lemma_layer_payload(l: LayerInfo)
    requires
        lengths_fit(l.lengths(), l.bytes().len() as int),
    ensures
        l.payload() == l.bytes().subrange(0, nal_offset(l.lengths(), l.lengths().len() as int)),
{
    lemma_nals_are_prefix(l.lengths(), l.bytes(), l.lengths().len() as int);
}

/// Each rate control mode is handed to the native encoder as its own constant of the native API
/// (given here with its value), so no two of them are mixed up.
pub proof fn law_rate_control_mode_native_values()
    ensures
        RateControlMode::Quality.code() == RC_QUALITY_MODE && RC_QUALITY_MODE == 0,
        RateControlMode::Bitrate.code() == RC_BITRATE_MODE && RC_BITRATE_MODE == 1,
        RateControlMode::Bufferbased.code() == RC_BUFFERBASED_MODE && RC_BUFFERBASED_MODE == 2,
        RateControlMode::Timestamp.code() == RC_TIMESTAMP_MODE && RC_TIMESTAMP_MODE == 3,
        RateControlMode::BitrateModePostSkip.code() == RC_BITRATE_MODE_POST_SKIP && RC_BITRATE_MODE_POST_SKIP == 4,
        RateControlMode::Off.code() == RC_OFF_MODE && RC_OFF_MODE == -1,
{
}

/// Each SPS/PPS strategy is handed to the native encoder as its own constant of the native API
/// (given here with its value), so no two of them are mixed up.
pub proof fn law_sps_pps_strategy_native_values()
    ensures
        SpsPpsStrategy::ConstantId.code() == CONSTANT_ID && CONSTANT_ID == 0,
        SpsPpsStrategy::IncreasingId.code() == INCREASING_ID && INCREASING_ID == 1,
        SpsPpsStrategy::SpsListing.code() == SPS_LISTING && SPS_LISTING == 2,
        SpsPpsStrategy::SpsListingAndPpsIncreasing.code() == SPS_LISTING_AND_PPS_INCREASING && SPS_LISTING_AND_PPS_INCREASING == 3,
        SpsPpsStrategy::SpsPpsListing.code() == SPS_PPS_LISTING && SPS_PPS_LISTING == 6,
{
}

/// Each usage type is handed to the native encoder as its own constant of the native API
/// (given here with its value), so no two of them are mixed up.
pub proof fn law_usage_type_native_values()
    ensures
        UsageType::CameraVideoRealTime.code() == CAMERA_VIDEO_REAL_TIME && CAMERA_VIDEO_REAL_TIME == 0,
        UsageType::ScreenContentRealTime.code() == SCREEN_CONTENT_REAL_TIME && SCREEN_CONTENT_REAL_TIME == 1,
        UsageType::CameraVideoNonRealTime.code() == CAMERA_VIDEO_NON_REAL_TIME && CAMERA_VIDEO_NON_REAL_TIME == 2,
        UsageType::ScreenContentNonRealTime.code() == SCREEN_CONTENT_NON_REAL_TIME && SCREEN_CONTENT_NON_REAL_TIME == 3,
        UsageType::InputContentTypeAll.code() == INPUT_CONTENT_TYPE_ALL && INPUT_CONTENT_TYPE_ALL == 4,
{
}

/// Each profile is handed to the native encoder as its own constant of the native API
/// (given here with its value), so no two of them are mixed up.
pub proof fn law_profile_native_values()
    ensures
        Profile::Baseline.code() == PRO_BASELINE && PRO_BASELINE == 66,
        Profile::Main.code() == PRO_MAIN && PRO_MAIN == 77,
        Profile::Extended.code() == PRO_EXTENDED && PRO_EXTENDED == 88,
        Profile::High.code() == PRO_HIGH && PRO_HIGH == 100,
        Profile::High10.code() == PRO_HIGH10 && PRO_HIGH10 == 110,
        Profile::High422.code() == PRO_HIGH422 && PRO_HIGH422 == 122,
        Profile::High444.code() == PRO_HIGH444 && PRO_HIGH444 == 144,
        Profile::CAVLC444.code() == PRO_CAVLC444 && PRO_CAVLC444 == 244,
        Profile::ScalableBaseline.code() == PRO_SCALABLE_BASELINE && PRO_SCALABLE_BASELINE == 83,
        Profile::ScalableHigh.code() == PRO_SCALABLE_HIGH && PRO_SCALABLE_HIGH == 86,
{
}

/// Each level is handed to the native encoder as its own constant of the native API
/// (given here with its value), so no two of them are mixed up.
pub proof fn law_level_native_values()
    ensures
        Level::Level_1_0.code() == LEVEL_1_0 && LEVEL_1_0 == 10,
        Level::Level_1_B.code() == LEVEL_1_B && LEVEL_1_B == 9,
        Level::Level_1_1.code() == LEVEL_1_1 && LEVEL_1_1 == 11,
        Level::Level_1_2.code() == LEVEL_1_2 && LEVEL_1_2 == 12,
        Level::Level_1_3.code() == LEVEL_1_3 && LEVEL_1_3 == 13,
        Level::Level_2_0.code() == LEVEL_2_0 && LEVEL_2_0 == 20,
        Level::Level_2_1.code() == LEVEL_2_1 && LEVEL_2_1 == 21,
        Level::Level_2_2.code() == LEVEL_2_2 && LEVEL_2_2 == 22,
        Level::Level_3_0.code() == LEVEL_3_0 && LEVEL_3_0 == 30,
        Level::Level_3_1.code() == LEVEL_3_1 && LEVEL_3_1 == 31,
        Level::Level_3_2.code() == LEVEL_3_2 && LEVEL_3_2 == 32,
        Level::Level_4_0.code() == LEVEL_4_0 && LEVEL_4_0 == 40,
        Level::Level_4_1.code() == LEVEL_4_1 && LEVEL_4_1 == 41,
        Level::Level_4_2.code() == LEVEL_4_2 && LEVEL_4_2 == 42,
        Level::Level_5_0.code() == LEVEL_5_0 && LEVEL_5_0 == 50,
        Level::Level_5_1.code() == LEVEL_5_1 && LEVEL_5_1 == 51,
        Level::Level_5_2.code() == LEVEL_5_2 && LEVEL_5_2 == 52,
{
}

/// Each complexity is handed to the native encoder as its own constant of the native API
/// (given here with its value), so no two of them are mixed up.
pub proof fn law_complexity_native_values()
    ensures
        Complexity::Low.code() == LOW_COMPLEXITY && LOW_COMPLEXITY == 0,
        Complexity::Medium.code() == MEDIUM_COMPLEXITY && MEDIUM_COMPLEXITY == 1,
        Complexity::High.code() == HIGH_COMPLEXITY && HIGH_COMPLEXITY == 2,
{
}

/// The native frame type values map to their own frame types, and every other value is invalid.
pub proof fn law_frame_type_native_values(native: i32)
    ensures
        frame_type_of(1) == FrameType::IDR,
        frame_type_of(2) == FrameType::I,
        frame_type_of(3) == FrameType::P,
        frame_type_of(4) == FrameType::Skip,
        frame_type_of(5) == FrameType::IPMixed,
        !(1 <= native <= 5) ==> frame_type_of(native) == FrameType::Invalid,
{
}

/// What the native encoder is given for a frame of `width` by `height`: that size, for the
/// picture and its one spatial layer; the target bitrate (which fits in an `i32`) as target and as
/// the layer's bitrate and maximum; each setting as its native value; one spatial and one temporal
/// layer, a long term reference mark every 30 frames and deblocking on; a profile, a level and a
/// maximum NAL size only where they are set, else the native defaults; and slices limited to the
/// maximum slice length when one is set, else a single slice.
pub proof fn law_configured_params(s: EncoderSettings, defaults: EncoderParams, width: i32, height: i32)
    requires
        s.target_bitrate <= i32::MAX,
    ensures
        ({
            let p = configured_params(s, defaults, width, height);
            &&& p.pic_width == width && p.layer.video_width == width
            &&& p.pic_height == height && p.layer.video_height == height
            &&& p.target_bitrate == s.target_bitrate && p.layer.spatial_bitrate == s.target_bitrate
            &&& p.layer.max_spatial_bitrate == s.target_bitrate
            &&& p.max_frame_rate == s.max_frame_rate && p.layer.frame_rate == s.max_frame_rate
            &&& p.rc_mode == s.rate_control_mode.code()
            &&& p.sps_pps_id_strategy == s.sps_pps_strategy.code()
            &&& p.usage_type == s.usage_type.code()
            &&& p.complexity_mode == s.complexity.code()
            &&& p.enable_frame_skip == s.enable_skip_frame
            &&& p.enable_denoise == s.enable_denoise
            &&& p.multiple_thread_idc == s.multiple_thread_idc
            &&& p.enable_scene_change_detect == s.scene_change_detect
            &&& p.enable_adaptive_quant == s.adaptive_quantization
            &&& p.enable_background_detection == s.background_detection
            &&& p.enable_long_term_reference == s.long_term_reference
            &&& p.intra_period == s.intra_frame_period
            &&& p.min_qp == s.qp_min && p.max_qp == s.qp_max
            &&& p.loop_filter_disable_idc == 0
            &&& p.spatial_layer_num == 1 && p.temporal_layer_num == 1 && p.ltr_mark_period == 30
            &&& p.layer.profile_idc == (if s.profile is Some {
                s.profile->0.code()
            } else {
                defaults.layer.profile_idc
            })
            &&& p.layer.level_idc == (if s.level is Some {
                s.level->0.code()
            } else {
                defaults.layer.level_idc
            })
            &&& p.max_nal_size == (if s.max_slice_len is Some {
                s.max_slice_len->0
            } else {
                defaults.max_nal_size
            })
            &&& s.max_slice_len is Some ==> p.layer.slice_argument.slice_mode == 3
                && p.layer.slice_argument.slice_size_constraint == s.max_slice_len->0
                && p.layer.slice_argument.slice_num == defaults.layer.slice_argument.slice_num
            &&& s.max_slice_len is None ==> p.layer.slice_argument.slice_mode == 0
                && p.layer.slice_argument.slice_num == 1
                && p.layer.slice_argument.slice_size_constraint
                == defaults.layer.slice_argument.slice_size_constraint
        }),
{
}

} // verus!
