use openh264::decoder::{
    decode_step, frames_to_flush, DecodeAction, DecodeEvent, DecodeOptions, DecodedYUV, Decoder, DecoderConfig,
    Flush, NativeDecoderCall, SysMemBuffer,
};
use openh264::formats::YUVSource;
use openh264::Timestamp;

#[test]
fn flush_table() {
    let o = |f| DecodeOptions::new().flush_after_decode(f);
    assert!(Flush::Auto.should_flush(o(Flush::Auto)));
    assert!(!Flush::NoFlush.should_flush(o(Flush::Auto)));
    assert!(Flush::Flush.should_flush(o(Flush::Auto)));
    for d in [Flush::Auto, Flush::Flush, Flush::NoFlush] {
        assert!(!d.should_flush(o(Flush::NoFlush)));
        assert!(d.should_flush(o(Flush::Flush)));
    }
    assert_eq!(Flush::default(), Flush::Auto);
}

#[test]
fn decoder_default_flush_comes_from_config() {
    assert!(Decoder::new().wants_flush(DecodeOptions::default()));
    let d = Decoder::with_config(DecoderConfig::new().flush_after_decode(Flush::NoFlush));
    assert!(!d.wants_flush(DecodeOptions::new()));
    assert!(d.wants_flush(DecodeOptions::new().flush_after_decode(Flush::Flush)));
}

#[test]
fn init_calls_follow_config() {
    let config = DecoderConfig::new().debug(true).num_threads(3);
    let calls = Decoder::with_config(config).init_calls();
    assert_eq!(calls.len(), 4);
    assert!(matches!(calls[0], NativeDecoderCall::Initialize(_)));
    assert!(matches!(calls[1], NativeDecoderCall::SetTraceLevel(16)));
    assert!(matches!(calls[2], NativeDecoderCall::SetNumThreads(3)));
    assert!(matches!(calls[3], NativeDecoderCall::SetErrorConcealment(0)));
    let quiet = Decoder::with_config(DecoderConfig::default()).init_calls();
    assert!(matches!(quiet[1], NativeDecoderCall::SetTraceLevel(0)));
}

#[test]
fn decode_steps() {
    assert!(matches!(decode_step(true, DecodeEvent::Decoded { state: 4, buffer_status: 1 }), DecodeAction::Fail(_)));
    assert!(matches!(decode_step(false, DecodeEvent::Decoded { state: 0, buffer_status: 1 }), DecodeAction::EmitFrame));
    assert!(matches!(decode_step(true, DecodeEvent::Decoded { state: 0, buffer_status: 0 }), DecodeAction::QueryBuffered));
    assert!(matches!(decode_step(false, DecodeEvent::Decoded { state: 0, buffer_status: 0 }), DecodeAction::NoFrame));
    assert!(matches!(decode_step(true, DecodeEvent::Buffered { result: 1, frames: 2 }), DecodeAction::Fail(_)));
    assert!(matches!(decode_step(true, DecodeEvent::Buffered { result: 0, frames: 2 }), DecodeAction::FlushOne));
    assert!(matches!(decode_step(true, DecodeEvent::Buffered { result: 0, frames: 0 }), DecodeAction::NoFrame));
    assert!(matches!(decode_step(true, DecodeEvent::Flushed { state: 0, buffer_status: 1 }), DecodeAction::EmitFrame));
    match decode_step(true, DecodeEvent::Flushed { state: 0, buffer_status: 0 }) {
        DecodeAction::Fail(e) => assert!(e
            .to_string()
            .contains("Buffer status invalid, we have outstanding frames but failed to flush them.")),
        _ => panic!("expected failure"),
    }
}

#[test]
fn frames_to_flush_counts_or_fails() {
    assert_eq!(frames_to_flush(0, 3).unwrap(), 3);
    assert!(frames_to_flush(2, 3).is_err());
}

#[test]
fn decoded_yuv_reports_its_layout() {
    let y = vec![1u8; 12 * 4];
    let u = vec![2u8; 8 * 2];
    let v = vec![3u8; 8 * 2];
    let info = SysMemBuffer { width: 10, height: 4, format: 23, y_stride: 12, uv_stride: 8 };
    let yuv = DecodedYUV::new(info, Timestamp::from_millis(5), &y, &u, &v);
    assert_eq!(yuv.dimensions(), (10, 4));
    assert_eq!(yuv.dimensions_i32(), (10, 4));
    assert_eq!(yuv.dimensions_uv(), (5, 2));
    assert_eq!(yuv.strides(), (12, 8, 8));
    assert_eq!(yuv.strides_i32(), (12, 8, 8));
    assert_eq!(yuv.timestamp().as_millis(), 5);
    assert_eq!(yuv.y(), &y[..]);
    assert_eq!(yuv.u(), &u[..]);
    assert_eq!(yuv.v(), &v[..]);
}

fn numbered(n: usize) -> Vec<u8> {
    (0..n).map(|i| (i % 256) as u8).collect()
}

#[test]
fn split_whole_picture_is_one_part() {
    let (y, u, v) = (numbered(16), numbered(4), numbered(4));
    let info = SysMemBuffer { width: 4, height: 4, format: 23, y_stride: 4, uv_stride: 4 };
    let buf = DecodedYUV::new(info, Timestamp::from_millis(0), &y, &u, &v);
    let parts = buf.split(1);
    assert_eq!(parts.len(), 1);
    assert_eq!(parts[0], (y.as_slice(), u.as_slice(), v.as_slice()));
}

#[test]
fn split_sections_concatenate_to_planes() {
    let (y, u, v) = (numbered(132 * 128), numbered(132 * 128 / 4), numbered(132 * 128 / 4));
    let info = SysMemBuffer { width: 128, height: 128, format: 23, y_stride: 132, uv_stride: 132 };
    let buf = DecodedYUV::new(info, Timestamp::from_millis(0), &y, &u, &v);
    let parts = buf.split(4);
    let (mut y_plane, mut u_plane, mut v_plane) = (vec![], vec![], vec![]);
    for (y_p, u_p, v_p) in parts {
        y_plane.extend_from_slice(y_p);
        u_plane.extend_from_slice(u_p);
        v_plane.extend_from_slice(v_p);
    }
    assert_eq!(y, y_plane);
    assert_eq!(u, u_plane);
    assert_eq!(v, v_plane);
}

#[test]
fn plane_lengths_follow_strides() {
    let info = SysMemBuffer { width: 10, height: 4, format: 23, y_stride: 12, uv_stride: 8 };
    assert_eq!(DecodedYUV::plane_lengths(&info), (48, 16, 16));
    let odd = SysMemBuffer { width: 5, height: 3, format: 23, y_stride: 6, uv_stride: 5 };
    assert_eq!(DecodedYUV::plane_lengths(&odd), (18, 7, 7));
}
