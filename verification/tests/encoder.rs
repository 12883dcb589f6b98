use openh264::encoder::{
    check_resolution, BitRate, Complexity, EncodedBitStream, Encoder, EncoderConfig, EncoderParams, FrameInfo,
    FrameRate, FrameType, IntraFramePeriod, LayerInfo, Level, NativeEncoderCall, Profile, QpRange, RateControlMode,
    SliceArgument, SpatialLayerParams, SpsPpsStrategy, UsageType, native_outcome, EncodeAction, EncodeEvent,
};
use openh264::formats::YUVBuffer;
use openh264::Timestamp;

fn defaults() -> EncoderParams {
    EncoderParams {
        pic_width: 0,
        pic_height: 0,
        rc_mode: 9,
        enable_frame_skip: false,
        target_bitrate: 0,
        enable_denoise: true,
        max_frame_rate: 0,
        sps_pps_id_strategy: 9,
        multiple_thread_idc: 9,
        usage_type: 9,
        enable_scene_change_detect: false,
        enable_adaptive_quant: false,
        enable_background_detection: false,
        enable_long_term_reference: true,
        complexity_mode: 9,
        intra_period: 9,
        loop_filter_disable_idc: 9,
        min_qp: 9,
        max_qp: 9,
        spatial_layer_num: 4,
        temporal_layer_num: 4,
        ltr_mark_period: 9,
        max_nal_size: 777,
        layer: SpatialLayerParams {
            video_width: 0,
            video_height: 0,
            frame_rate: 0,
            spatial_bitrate: 0,
            max_spatial_bitrate: 0,
            profile_idc: 55,
            level_idc: 56,
            slice_argument: SliceArgument {
                slice_mode: 9,
                slice_num: 9,
                slice_size_constraint: 99,
            },
        },
    }
}

#[test]
fn resolution_limit_is_3840_by_2160_either_way() {
    assert!(check_resolution(3840, 2160).is_ok());
    assert!(check_resolution(2160, 3840).is_ok());
    assert!(check_resolution(3841, 100).is_err());
    assert!(check_resolution(2161, 2161).is_err());
    assert!(check_resolution(100, 3841).is_err());
    let e = check_resolution(4000, 100).unwrap_err();
    assert!(e.to_string().contains("Encoder max resolution 3840x2160 horizontal or 2160x3840 vertical"));
}

#[test]
fn default_config_maps_to_native_params() {
    let encoder = Encoder::new();
    let p = encoder.reinit_params(defaults(), 128, 64).unwrap();
    assert_eq!(p.pic_width, 128);
    assert_eq!(p.pic_height, 64);
    assert_eq!(p.rc_mode, 0);
    assert!(p.enable_frame_skip);
    assert_eq!(p.target_bitrate, 120_000);
    assert!(!p.enable_denoise);
    assert_eq!(p.sps_pps_id_strategy, 0);
    assert_eq!(p.multiple_thread_idc, 0);
    assert_eq!(p.usage_type, 0);
    assert!(p.enable_scene_change_detect);
    assert!(p.enable_adaptive_quant);
    assert!(p.enable_background_detection);
    assert!(!p.enable_long_term_reference);
    assert_eq!(p.complexity_mode, 1);
    assert_eq!(p.intra_period, 0);
    assert_eq!(p.loop_filter_disable_idc, 0);
    assert_eq!((p.min_qp, p.max_qp), (0, 51));
    assert_eq!((p.spatial_layer_num, p.temporal_layer_num, p.ltr_mark_period), (1, 1, 30));
    assert_eq!(p.max_nal_size, 777);
    assert_eq!((p.layer.video_width, p.layer.video_height), (128, 64));
    assert_eq!((p.layer.spatial_bitrate, p.layer.max_spatial_bitrate), (120_000, 120_000));
    assert_eq!((p.layer.profile_idc, p.layer.level_idc), (55, 56));
    assert_eq!(p.layer.slice_argument, SliceArgument { slice_mode: 0, slice_num: 1, slice_size_constraint: 99 });
}

#[test]
fn config_settings_reach_native_params() {
    let config = EncoderConfig::new()
        .bitrate(BitRate::from_bps(5_000_000))
        .skip_frames(false)
        .max_frame_rate(FrameRate::from_hz_bits(30.0f32.to_bits()))
        .usage_type(UsageType::ScreenContentRealTime)
        .rate_control_mode(RateControlMode::Off)
        .sps_pps_strategy(SpsPpsStrategy::SpsPpsListing)
        .max_slice_len(1200)
        .profile(Profile::High)
        .level(Level::Level_4_1)
        .complexity(Complexity::High)
        .qp(QpRange::new(10, 40))
        .scene_change_detect(false)
        .adaptive_quantization(false)
        .background_detection(false)
        .long_term_reference(true)
        .intra_frame_period(IntraFramePeriod::from_num_frames(60))
        .num_threads(4);
    let p = Encoder::with_config(config).reinit_params(defaults(), 1920, 1080).unwrap();
    assert_eq!(p.target_bitrate, 5_000_000);
    assert!(!p.enable_frame_skip);
    assert_eq!(f32::from_bits(p.max_frame_rate), 30.0);
    assert_eq!(f32::from_bits(p.layer.frame_rate), 30.0);
    assert_eq!(p.usage_type, 1);
    assert_eq!(p.rc_mode, -1);
    assert_eq!(p.sps_pps_id_strategy, 6);
    assert_eq!(p.max_nal_size, 1200);
    assert_eq!(p.layer.slice_argument, SliceArgument { slice_mode: 3, slice_num: 9, slice_size_constraint: 1200 });
    assert_eq!((p.layer.profile_idc, p.layer.level_idc), (100, 41));
    assert_eq!(p.complexity_mode, 2);
    assert_eq!((p.min_qp, p.max_qp), (10, 40));
    assert!(!p.enable_scene_change_detect && !p.enable_adaptive_quant && !p.enable_background_detection);
    assert!(p.enable_long_term_reference);
    assert_eq!(p.intra_period, 60);
    assert_eq!(p.multiple_thread_idc, 4);
}

#[test]
fn bitrate_beyond_i32_is_an_error() {
    let config = EncoderConfig::new().bitrate(BitRate::from_bps(u32::MAX));
    assert!(Encoder::with_config(config).reinit_params(defaults(), 16, 16).is_err());
    let config = EncoderConfig::new().bitrate(BitRate::from_bps(i32::MAX as u32));
    assert!(Encoder::with_config(config).reinit_params(defaults(), 16, 16).is_ok());
}

#[test]
fn first_configuration_initializes_then_size_changes_replace_params() {
    let mut encoder = Encoder::with_config(EncoderConfig::new().debug(true));
    assert!(encoder.needs_reinit((16, 16)));
    let p = encoder.reinit_params(defaults(), 16, 16).unwrap();
    let calls = encoder.reinit_calls(p);
    assert_eq!(calls.len(), 3);
    assert!(matches!(calls[0], NativeEncoderCall::InitializeExt(q) if q == p));
    assert!(matches!(calls[1], NativeEncoderCall::SetTraceLevel(16)));
    assert!(matches!(calls[2], NativeEncoderCall::SetDataFormat(23)));
    encoder.finish_reinit((16, 16));
    assert!(!encoder.needs_reinit((16, 16)));
    assert!(encoder.needs_reinit((32, 16)));
    let calls = encoder.reinit_calls(p);
    assert_eq!(calls.len(), 2);
    assert!(matches!(calls[0], NativeEncoderCall::SetEncodeParams(_)));
    assert!(matches!(calls[1], NativeEncoderCall::ForceIntraFrame));
}

#[test]
fn native_results_fail_except_for_forced_intra_frames() {
    assert!(native_outcome(&NativeEncoderCall::SetTraceLevel(0), 0).is_ok());
    assert!(native_outcome(&NativeEncoderCall::SetDataFormat(23), 5).is_err());
    assert!(native_outcome(&NativeEncoderCall::ForceIntraFrame, 5).is_ok());
}

#[test]
fn source_picture_describes_the_yuv() {
    let yuv = YUVBuffer::new(8, 4);
    let p = Encoder::source_picture(&yuv, Timestamp::from_millis(77));
    assert_eq!((p.pic_width, p.pic_height), (8, 4));
    assert_eq!((p.y_stride, p.u_stride, p.v_stride), (8, 4, 4));
    assert_eq!(p.color_format, 23);
    assert_eq!(p.timestamp, 77);
}

#[test]
fn frame_types_from_native_values() {
    assert_eq!(FrameType::from_c_int(1), FrameType::IDR);
    assert_eq!(FrameType::from_c_int(2), FrameType::I);
    assert_eq!(FrameType::from_c_int(3), FrameType::P);
    assert_eq!(FrameType::from_c_int(4), FrameType::Skip);
    assert_eq!(FrameType::from_c_int(5), FrameType::IPMixed);
    assert_eq!(FrameType::from_c_int(0), FrameType::Invalid);
    assert_eq!(FrameType::from_c_int(99), FrameType::Invalid);
}

#[test]
fn layers_reject_lengths_that_do_not_fit() {
    assert!(LayerInfo::from_parts(1, vec![2, 3], vec![0; 5]).is_some());
    assert!(LayerInfo::from_parts(1, vec![2, 4], vec![0; 5]).is_none());
    assert!(LayerInfo::from_parts(1, vec![-1], vec![0; 5]).is_none());
}

#[test]
fn bitstream_is_all_nal_units_in_order() {
    let l0 = LayerInfo::from_parts(0, vec![2, 3], vec![1, 2, 3, 4, 5, 99]).unwrap();
    let l1 = LayerInfo::from_parts(1, vec![1], vec![7, 98]).unwrap();
    let info = FrameInfo { frame_type: 1, layers: vec![l0, l1] };
    let bs = EncodedBitStream::new(&info);
    assert_eq!(bs.num_layers(), 2);
    assert_eq!(bs.frame_type(), FrameType::IDR);
    let layer = bs.layer(0).unwrap();
    assert_eq!(layer.nal_count(), 2);
    assert_eq!(layer.nal_unit(0).unwrap(), &[1, 2]);
    assert_eq!(layer.nal_unit(1).unwrap(), &[3, 4, 5]);
    assert!(layer.nal_unit(2).is_none());
    assert!(!layer.is_video());
    assert!(bs.layer(1).unwrap().is_video());
    assert!(bs.layer(2).is_none());
    assert_eq!(bs.to_vec(), vec![1, 2, 3, 4, 5, 7]);
    let mut v = vec![42];
    bs.write_vec(&mut v);
    assert_eq!(v, vec![42, 1, 2, 3, 4, 5, 7]);
}

#[test]
fn config_defaults_differ_between_new_and_default() {
    let p = Encoder::with_config(EncoderConfig::default()).reinit_params(defaults(), 2, 2).unwrap();
    assert_eq!(p.target_bitrate, 0);
    assert!(!p.enable_frame_skip);
    assert!(!p.enable_scene_change_detect);
}

#[test]
fn qp_range_reaches_params() {
    let config = EncoderConfig::new().qp(QpRange::default());
    let p = Encoder::with_config(config).reinit_params(defaults(), 8, 8).unwrap();
    assert_eq!((p.min_qp, p.max_qp), (0, 51));
}

#[test]
fn unsupported_frame_size_fails_before_any_native_call() {
    let mut encoder = Encoder::new();
    match encoder.encode_step(EncodeEvent::Frame { width: 4000, height: 100 }) {
        EncodeAction::Finished(Err(e)) => assert!(e
            .to_string()
            .contains("Encoder max resolution 3840x2160 horizontal or 2160x3840 vertical")),
        other => panic!("unexpected {:?}", other),
    }
    assert!(encoder.expects(&EncodeEvent::Frame { width: 1, height: 1 }));
    assert!(encoder.needs_reinit((4000, 100)));
}

#[test]
fn first_frame_configures_then_encodes_and_later_frames_encode_at_once() {
    let mut encoder = Encoder::new();
    let frame = EncodeEvent::Frame { width: 64, height: 48 };
    assert!(matches!(encoder.encode_step(frame), EncodeAction::GetDefaultParams));
    let params = match encoder.encode_step(EncodeEvent::Defaults { code: 0, params: defaults() }) {
        EncodeAction::Call(NativeEncoderCall::InitializeExt(p)) => p,
        other => panic!("unexpected {:?}", other),
    };
    assert_eq!(params, encoder.reinit_params(defaults(), 64, 48).unwrap());
    assert!(matches!(
        encoder.encode_step(EncodeEvent::CallReturned { code: 0 }),
        EncodeAction::Call(NativeEncoderCall::SetTraceLevel(0))
    ));
    assert!(matches!(
        encoder.encode_step(EncodeEvent::CallReturned { code: 0 }),
        EncodeAction::Call(NativeEncoderCall::SetDataFormat(23))
    ));
    assert!(encoder.needs_reinit((64, 48)));
    assert!(matches!(encoder.encode_step(EncodeEvent::CallReturned { code: 0 }), EncodeAction::EncodeFrame));
    assert!(!encoder.needs_reinit((64, 48)));
    assert!(matches!(encoder.encode_step(EncodeEvent::FrameEncoded { code: 0 }), EncodeAction::Finished(Ok(()))));
    assert!(matches!(encoder.encode_step(frame), EncodeAction::EncodeFrame));
    match encoder.encode_step(EncodeEvent::FrameEncoded { code: 4 }) {
        EncodeAction::Finished(Err(e)) => assert!(e.to_string().contains("Native:4.")),
        other => panic!("unexpected {:?}", other),
    }
    assert!(encoder.expects(&EncodeEvent::Frame { width: 1, height: 1 }));
}

#[test]
fn a_failed_configuration_call_leaves_the_size_unrecorded() {
    let mut encoder = Encoder::new();
    let frame = EncodeEvent::Frame { width: 32, height: 32 };
    encoder.encode_step(frame);
    encoder.encode_step(EncodeEvent::Defaults { code: 0, params: defaults() });
    match encoder.encode_step(EncodeEvent::CallReturned { code: 7 }) {
        EncodeAction::Finished(Err(e)) => assert!(e.to_string().contains("Native:7.")),
        other => panic!("unexpected {:?}", other),
    }
    assert!(encoder.needs_reinit((32, 32)));
    assert!(matches!(encoder.encode_step(frame), EncodeAction::GetDefaultParams));
    match encoder.encode_step(EncodeEvent::Defaults { code: -1, params: defaults() }) {
        EncodeAction::Finished(Err(e)) => assert!(e.to_string().contains("Native:-1.")),
        other => panic!("unexpected {:?}", other),
    }
}

#[test]
fn a_size_change_replaces_parameters_and_forces_an_intra_frame() {
    let mut encoder = Encoder::new();
    encoder.encode_step(EncodeEvent::Frame { width: 32, height: 32 });
    encoder.encode_step(EncodeEvent::Defaults { code: 0, params: defaults() });
    for _ in 0..3 {
        encoder.encode_step(EncodeEvent::CallReturned { code: 0 });
    }
    encoder.encode_step(EncodeEvent::FrameEncoded { code: 0 });
    assert!(matches!(
        encoder.encode_step(EncodeEvent::Frame { width: 16, height: 16 }),
        EncodeAction::GetDefaultParams
    ));
    assert!(matches!(
        encoder.encode_step(EncodeEvent::Defaults { code: 0, params: defaults() }),
        EncodeAction::Call(NativeEncoderCall::SetEncodeParams(_))
    ));
    assert!(matches!(
        encoder.encode_step(EncodeEvent::CallReturned { code: 0 }),
        EncodeAction::Call(NativeEncoderCall::ForceIntraFrame)
    ));
    assert!(matches!(encoder.encode_step(EncodeEvent::CallReturned { code: 5 }), EncodeAction::EncodeFrame));
    assert!(!encoder.needs_reinit((16, 16)));
    assert!(encoder.expects(&EncodeEvent::FrameEncoded { code: 0 }));
    assert!(!encoder.expects(&EncodeEvent::Frame { width: 16, height: 16 }));
}
