use openh264::stream::{Decoded, NalParser, VideoStreamAction, VideoStreamDecoder};

#[test]
fn stream_nal_mark_stream_boundary() {
    let mut v1 = vec![1, 2, 3, 0];
    let mut v2 = vec![0, 1, 104, 238, 56, 128, 0];
    let mut v3 = vec![0, 0, 1, 104, 238, 56, 128, 0];

    let mut np = NalParser::new();
    // nothing read, read some data
    assert_eq!(VideoStreamAction::ReadMore, np.get_packet());
    assert_eq!(None, np.last_nal());
    np.send_stream(&mut v1);

    // no sign of 0, 0, 1 mark, read more
    assert_eq!(VideoStreamAction::ReadMore, np.get_packet());
    np.send_stream(&mut v2);

    // First 0, 0, 1 mark found at offset 3
    assert_eq!(VideoStreamAction::CallNext, np.get_packet());
    assert_eq!(Some(3), np.last_nal());

    // However no follow-up mark found till the end of current stream, hence, read more
    assert_eq!(VideoStreamAction::ReadMore, np.get_packet());
    np.send_stream(&mut v3);

    // now the packet it complete, process it
    assert_eq!(VideoStreamAction::ProcessPacket(vec![0, 0, 1, 104, 238, 56, 128, 0]), np.get_packet());
    assert_eq!(Some(0), np.last_nal());

    // However no follow-up mark found till the end of current stream, hence, read more
    assert_eq!(VideoStreamAction::ReadMore, np.get_packet());
}

#[test]
fn stream_nal_mark_empty() {
    let mut np = NalParser::new();
    assert_eq!(VideoStreamAction::ReadMore, np.get_packet());
    assert_eq!(None, np.last_nal());
}

#[test]
fn stream_nal_mark_no_mark() {
    let mut np = NalParser::new();
    np.send_stream(&mut vec![2, 3]);
    assert_eq!(VideoStreamAction::ReadMore, np.get_packet());
    assert_eq!(None, np.last_nal());
}

#[test]
fn stream_nal_mark_single_mark() {
    let mut np = NalParser::new();
    np.send_stream(&mut vec![0, 0, 1]);
    assert_eq!(VideoStreamAction::CallNext, np.get_packet());
    assert_eq!(Some(0), np.last_nal());
}

#[test]
fn stream_nal_mark_multiple_marks_same_vec() {
    let mut np = NalParser::new();
    np.send_stream(&mut vec![
        1, 2, 3, 4, 5, 0, 0, 1, 22, 33, 44, 0, 0, 0, 1, 0, 5, 6, 7, 0, 0, 1, 7, 8, 9,
    ]);
    assert_eq!(VideoStreamAction::CallNext, np.get_packet());
    assert_eq!(Some(5), np.last_nal());
    assert_eq!(VideoStreamAction::ProcessPacket(vec![0, 0, 1, 22, 33, 44, 0]), np.get_packet());
    assert_eq!(VideoStreamAction::ProcessPacket(vec![0, 0, 1, 0, 5, 6, 7]), np.get_packet());
    assert_eq!(VideoStreamAction::ReadMore, np.get_packet());
}

#[test]
fn stream_nal_mark_multiple_marks() {
    let mut np = NalParser::new();
    np.send_stream(&mut vec![0, 0, 1, 2, 3, 4, 0, 0, 1]);
    assert_eq!(VideoStreamAction::CallNext, np.get_packet());
    assert_eq!(Some(0), np.last_nal());
    assert_eq!(VideoStreamAction::ProcessPacket(vec![0, 0, 1, 2, 3, 4]), np.get_packet());
    assert_eq!(VideoStreamAction::ReadMore, np.get_packet());
    assert_eq!(Some(0), np.last_nal());
    np.send_stream(&mut vec![2, 2, 2]);
    assert_eq!(VideoStreamAction::ReadMore, np.get_packet());
    assert_eq!(Some(0), np.last_nal());
    np.send_stream(&mut vec![3, 3, 3, 0, 0, 1, 5, 6, 7]);
    assert_eq!(VideoStreamAction::ProcessPacket(vec![0, 0, 1, 2, 2, 2, 3, 3, 3]), np.get_packet());
    assert_eq!(Some(0), np.last_nal());
    assert_eq!(VideoStreamAction::ReadMore, np.get_packet());
    assert_eq!(Some(0), np.last_nal());
}

#[test]
fn send_stream_empties_the_buffer_it_takes() {
    let mut np = NalParser::new();
    let mut data = vec![0, 0, 1, 5];
    np.send_stream(&mut data);
    assert!(data.is_empty());
}

#[test]
fn decoder_counts_packets_and_pictures() {
    let mut v1 = vec![1, 2, 3, 0];
    let mut v2 = vec![0, 1, 103, 77, 64, 40, 149, 160, 60, 5, 185, 0];
    let mut v3 = vec![0, 0, 1, 104, 238, 56, 128, 0];
    let mut vd = VideoStreamDecoder::new(3);
    let mut seen: Vec<Vec<u8>> = Vec::new();
    let mut decode = |p: &Vec<u8>| {
        seen.push(p.clone());
        Decoded::Picture(p.len())
    };
    assert_eq!((VideoStreamAction::ReadMore, None), vd.decode_images(&mut decode));
    vd.send_stream(&mut v1);
    assert_eq!((VideoStreamAction::ReadMore, None), vd.decode_images(&mut decode));
    vd.send_stream(&mut v2);
    assert_eq!((VideoStreamAction::CallNext, None), vd.decode_images(&mut decode));
    assert_eq!((VideoStreamAction::ReadMore, None), vd.decode_images(&mut decode));
    vd.send_stream(&mut v3);
    assert_eq!(
        (
            VideoStreamAction::ProcessPacket(vec![0, 0, 1, 103, 77, 64, 40, 149, 160, 60, 5, 185, 0]),
            Some(13)
        ),
        vd.decode_images(&mut decode)
    );
    let props = vd.props();
    assert_eq!(props.packet_no, 1);
    assert_eq!(props.packet_decode_ok, 1);
    assert_eq!(props.frame_no, 1);
    assert_eq!(seen, vec![vec![0, 0, 1, 103, 77, 64, 40, 149, 160, 60, 5, 185, 0]]);
}

#[test]
fn decoder_skips_all_but_every_nth_picture() {
    let mut vd = VideoStreamDecoder::new(2);
    vd.send_stream(&mut vec![0, 0, 1, 1, 0, 0, 1, 2, 0, 0, 1, 3, 0, 0, 1, 4, 0, 0, 1]);
    let mut written = Vec::new();
    for _ in 0..6 {
        let (action, picture) = vd.decode_images(|p: &Vec<u8>| Decoded::Picture(p[3]));
        if let VideoStreamAction::ProcessPacket(_) = action {
            written.push(picture);
        } else {
            assert_eq!(picture, None);
        }
    }
    assert_eq!(written, vec![Some(1), None, Some(3), None]);
    assert_eq!(vd.props().frame_no, 4);
}

#[test]
fn failed_and_empty_decodes_are_counted_apart() {
    let mut vd = VideoStreamDecoder::new(0);
    vd.send_stream(&mut vec![0, 0, 1, 1, 0, 0, 1, 2, 0, 0, 1]);
    let mut outcomes = vec![Decoded::<u8>::NoPicture, Decoded::<u8>::Failed].into_iter();
    for _ in 0..4 {
        let (_, picture) = vd.decode_images(|_: &Vec<u8>| outcomes.next().unwrap());
        assert_eq!(picture, None);
    }
    let props = vd.props();
    assert_eq!(props.packet_no, 2);
    assert_eq!(props.packet_decode_ok, 1);
    assert_eq!(props.frame_no, 0);
}

#[test]
fn a_single_pending_byte_asks_for_more() {
    let mut np = NalParser::new();
    np.send_stream(&mut vec![5]);
    assert_eq!(np.get_packet(), VideoStreamAction::ReadMore);
    let mut vd = VideoStreamDecoder::new(0);
    vd.send_stream(&mut vec![5]);
    assert_eq!((VideoStreamAction::ReadMore, None), vd.decode_images(|_: &Vec<u8>| Decoded::Picture(0u8)));
    assert_eq!(vd.props().packet_no, 0);
}

fn read_all(np: &mut NalParser) -> Vec<Vec<u8>> {
    let mut packets = Vec::new();
    loop {
        match np.get_packet() {
            VideoStreamAction::ProcessPacket(p) => packets.push(p),
            VideoStreamAction::CallNext => {}
            VideoStreamAction::ReadMore => return packets,
        }
    }
}

#[test]
fn reading_after_each_buffer_gives_the_packets_of_the_whole() {
    let whole: Vec<u8> = vec![9, 0, 0, 1, 5, 6, 0, 0, 1, 7, 0, 0, 0, 1, 8, 0, 0, 1, 2];
    let mut at_once = NalParser::new();
    at_once.send_stream(&mut whole.clone());
    let expected = read_all(&mut at_once);
    assert_eq!(expected, vec![vec![0, 0, 1, 5, 6], vec![0, 0, 1, 7, 0], vec![0, 0, 1, 8]]);
    for cut in 0..=whole.len() {
        let mut np = NalParser::new();
        np.send_stream(&mut whole[..cut].to_vec());
        let mut got = read_all(&mut np);
        np.send_stream(&mut whole[cut..].to_vec());
        got.extend(read_all(&mut np));
        assert_eq!(got, expected, "cut at {}", cut);
    }
}
