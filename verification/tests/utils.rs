use openh264::{nal_units, NalParser};

fn units(stream: &[u8]) -> Vec<Vec<u8>> {
    let mut split = nal_units(stream);
    let mut out = Vec::new();
    while let Some(unit) = split.next() {
        out.push(unit.to_vec());
    }
    out
}

#[test]
fn splits_at_nal() {
    let stream = [];
    assert!(nal_units(&stream).next().is_none());

    let stream = [2, 3];
    assert!(nal_units(&stream).next().is_none());

    let stream = [0, 0, 1];
    assert_eq!(nal_units(&stream).next().unwrap(), &[0, 0, 1]);

    let stream = [0, 0, 1, 2];
    assert_eq!(nal_units(&stream).next().unwrap(), &[0, 0, 1, 2]);

    let stream = [0, 0, 1, 2, 0, 0, 1];
    let mut split = nal_units(&stream);
    assert_eq!(split.next().unwrap(), &[0, 0, 1, 2]);
    assert_eq!(split.next().unwrap(), &[0, 0, 1]);
    assert!(split.next().is_none());

    let stream = [0, 0, 0, 0, 0, 1, 2, 0, 0, 1];
    let mut split = nal_units(&stream);
    assert_eq!(split.next().unwrap(), &[0, 0, 1, 2]);
    assert_eq!(split.next().unwrap(), &[0, 0, 1]);
    assert!(split.next().is_none());

    let stream = [0, 0, 0, 0, 0, 1, 2, 0, 0];
    let mut split = nal_units(&stream);
    assert_eq!(split.next().unwrap(), &[0, 0, 1, 2, 0, 0]);
    assert!(split.next().is_none());

    let stream = [0, 0, 0, 0, 0, 1, 2, 0, 0, 1, 2, 3, 0, 0, 1];
    let mut split = nal_units(&stream);
    assert_eq!(split.next().unwrap(), &[0, 0, 1, 2]);
    assert_eq!(split.next().unwrap(), &[0, 0, 1, 2, 3]);
    assert_eq!(split.next().unwrap(), &[0, 0, 1]);
    assert!(split.next().is_none());
}

#[test]
fn utils_nal_mark_stream_boundary() {
    let v1 = [1, 2, 3, 0];
    let v2 = [0, 1, 104, 238, 56, 127, 0];
    let v3 = [0, 0, 1, 104, 238, 56, 128, 0];

    let mut np = NalParser::new();

    // nothing read, read some data
    assert_eq!(None, np.next());

    np.feed(&v1);
    assert_eq!(None, np.next());

    np.feed(&v2);
    assert_eq!(None, np.next());

    np.feed(&v3);
    assert_eq!(Some(vec![0, 0, 1, 104, 238, 56, 127, 0]), np.next());
    assert_eq!(None, np.next());
}

#[test]
fn utils_nal_mark_empty() {
    let mut np = NalParser::new();
    assert_eq!(None, np.next());
}

#[test]
fn utils_nal_mark_no_mark() {
    let mut np = NalParser::new();
    np.feed(&[2, 3]);
    assert_eq!(None, np.next());
}

#[test]
fn utils_nal_mark_single_mark() {
    let mut np = NalParser::new();
    np.feed(&[0, 0, 1]);
    assert_eq!(None, np.next());
}

#[test]
fn utils_nal_mark_multiple_marks_same_vec() {
    let mut np = NalParser::new();
    np.feed(&[1, 2, 3, 4, 5, 0, 0, 1, 22, 33, 44, 0, 0, 0, 1, 0, 5, 6, 7, 0, 0, 1, 7, 8, 9]);
    assert_eq!(None, np.next());
    assert_eq!(Some(vec![0, 0, 1, 22, 33, 44, 0]), np.next());
    assert_eq!(Some(vec![0, 0, 1, 0, 5, 6, 7]), np.next());
    assert_eq!(None, np.next());
}

#[test]
fn utils_nal_mark_multiple_marks() {
    let mut np = NalParser::new();

    np.feed(&[0, 0, 1, 2, 3, 4, 0, 0, 1]);
    assert_eq!(None, np.next());
    assert_eq!(Some(vec![0, 0, 1, 2, 3, 4]), np.next());
    assert_eq!(None, np.next());

    np.feed(&[2, 2, 2]);
    assert_eq!(None, np.next());

    np.feed(&[3, 3, 3, 0, 0, 1, 5, 6, 7]);
    assert_eq!(Some(vec![0, 0, 1, 2, 2, 2, 3, 3, 3]), np.next());
    assert_eq!(None, np.next());
}

#[test]
fn units_reassemble_the_stream_from_its_first_start_code() {
    let stream = [9, 9, 0, 0, 1, 5, 0, 0, 0, 1, 7, 0, 0, 1];
    let joined: Vec<u8> = units(&stream).concat();
    assert_eq!(joined, stream[2..].to_vec());
}

#[test]
fn every_unit_begins_with_a_start_code_and_holds_no_other() {
    let stream = [0, 0, 1, 1, 0, 0, 2, 0, 0, 1, 0, 0, 0, 1, 3];
    let all = units(&stream);
    assert_eq!(all, vec![vec![0, 0, 1, 1, 0, 0, 2], vec![0, 0, 1, 0], vec![0, 0, 1, 3]]);
    for unit in all {
        assert_eq!(&unit[..3], &[0, 0, 1]);
        assert!(!unit[1..].windows(3).any(|w| w == [0, 0, 1]));
    }
}

#[test]
fn parser_packets_do_not_depend_on_how_data_is_cut() {
    let stream = [7, 0, 0, 1, 5, 6, 0, 0, 1, 8, 0, 0, 0, 1, 9, 0, 0, 1];
    let mut whole = NalParser::new();
    whole.feed(&stream);
    let mut a = Vec::new();
    for _ in 0..10 {
        if let Some(p) = whole.next() {
            a.push(p);
        }
    }
    let mut pieces = NalParser::new();
    let mut b = Vec::new();
    for chunk in stream.chunks(2) {
        pieces.feed(chunk);
        for _ in 0..3 {
            if let Some(p) = pieces.next() {
                b.push(p);
            }
        }
    }
    assert_eq!(a, vec![vec![0, 0, 1, 5, 6], vec![0, 0, 1, 8, 0], vec![0, 0, 1, 9]]);
    assert_eq!(a, b);
}

fn drain(np: &mut NalParser) -> Vec<Vec<u8>> {
    let mut units = Vec::new();
    let mut misses = 0;
    while misses < 2 {
        match np.next() {
            Some(u) => {
                units.push(u);
                misses = 0;
            }
            None => misses += 1,
        }
    }
    units
}

#[test]
fn a_single_fed_byte_holds_no_unit() {
    let mut np = NalParser::new();
    np.feed(&[7]);
    assert_eq!(np.next(), None);
    np.feed(&[0, 0, 1, 9, 0, 0, 1]);
    assert_eq!(drain(&mut np), vec![vec![0, 0, 1, 9]]);
}

#[test]
fn draining_after_each_piece_gives_the_units_of_the_whole() {
    let whole: Vec<u8> = vec![3, 0, 0, 1, 5, 6, 0, 0, 1, 7, 0, 0, 0, 1, 8, 0, 0, 1];
    let mut at_once = NalParser::new();
    at_once.feed(&whole);
    let expected = drain(&mut at_once);
    assert_eq!(expected, vec![vec![0, 0, 1, 5, 6], vec![0, 0, 1, 7, 0], vec![0, 0, 1, 8]]);
    for cut in 0..=whole.len() {
        let mut np = NalParser::new();
        np.feed(&whole[..cut]);
        let mut got = drain(&mut np);
        np.feed(&whole[cut..]);
        got.extend(drain(&mut np));
        assert_eq!(got, expected, "cut at {}", cut);
    }
}
