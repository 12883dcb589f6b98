use openh264::sys::{DynamicAPI, Error};
use openh264::sys::{is_first_word_of_a_line, to_hex_lower};
use openh264::OpenH264API;

const EMPTY_SHA256: &str = "e3b0c44298fc1c149afbf4c8996fb92427ae41e4649b934ca495991b7852b855";

#[test]
fn hex_is_lower_case_two_digits_per_byte() {
    assert_eq!(to_hex_lower(&[0x00, 0x0f, 0xa0, 0xff]), "000fa0ff");
    assert_eq!(to_hex_lower(&[]), "");
}

#[test]
fn first_words_of_lines_are_found() {
    let text = "abc  one.dll\n  def two.dll\r\nx ghi\n\n\tjkl";
    for w in ["abc", "def", "x", "jkl"] {
        assert!(is_first_word_of_a_line(text, &w.to_string()), "{w}");
    }
    for w in ["one.dll", "ghi", "ab", "abcd", ""] {
        assert!(!is_first_word_of_a_line(text, &w.to_string()), "{w}");
    }
}

#[test]
fn known_blob_passes() {
    let known = format!("{EMPTY_SHA256}  empty.bin\n");
    assert!(DynamicAPI::check_blob(&[], &known).is_ok());
}

#[test]
fn unknown_blob_reports_its_hash() {
    match DynamicAPI::check_blob(&[], "0000 other.dll\n") {
        Err(Error::InvalidHash(h)) => assert_eq!(h, EMPTY_SHA256),
        _ => panic!("expected an invalid hash"),
    }
    let e = DynamicAPI::check_blob(b"abc", "").unwrap_err();
    assert_eq!(
        e.to_string(),
        "Invalid hash: ba7816bf8f01cfea414140de5dae2223b00361a396177a9cb410ff61f20015ad"
    );
}

#[test]
fn io_errors_convert() {
    let e: Error = std::io::Error::new(std::io::ErrorKind::NotFound, "gone").into();
    assert!(matches!(e, Error::Io(_)));
    assert_eq!(e.to_string(), "gone");
}

#[test]
fn source_api_is_available() {
    assert!(matches!(OpenH264API::from_source(), DynamicAPI::Source(_)));
}
