use openh264::{Error, NativeErrorExt};

#[test]
#[allow(unused_must_use)]
fn errors_wont_panic() {
    Error::from_native(1).to_string();
    Error::from_decoding_state(0x40).to_string();
    Error::msg("hello world").to_string();

    format!("{:?}", Error::from_native(1));
    format!("{:?}", Error::from_decoding_state(0x40));
    format!("{:?}", Error::msg("hello world"));

    format!("{:#?}", Error::from_native(1));
    format!("{:#?}", Error::from_decoding_state(0x40));
    format!("{:#?}", Error::msg("hello world"));
}

#[test]
fn backtrace_works() {
    _ = Error::from_native(1).backtrace().expect("Must have backtrace");
}

#[test]
fn error_text_names_code_state_and_message() {
    assert_eq!(
        Error::from_native(-7).to_string(),
        "OpenH264 encountered an error. Native:-7. Decoding State:0. User Message:None. Backtraces enabled."
    );
    assert_eq!(
        Error::from_decoding_state(64).to_string(),
        "OpenH264 encountered an error. Native:0. Decoding State:64. User Message:None. Backtraces enabled."
    );
    assert_eq!(
        Error::msg("say \"hi\"").to_string(),
        "OpenH264 encountered an error. Native:0. Decoding State:0. User Message:Some(\"say \\\"hi\\\"\"). Backtraces enabled."
    );
    assert_eq!(
        Error::msg_string(String::from("x")).to_string(),
        "OpenH264 encountered an error. Native:0. Decoding State:0. User Message:Some(\"x\"). Backtraces enabled."
    );
}

#[test]
fn native_codes_are_ok_only_when_zero() {
    assert!(0i32.ok().is_ok());
    assert!(0i64.ok().is_ok());
    assert!(0u64.ok().is_ok());
    assert!(3i32.ok().unwrap_err().to_string().contains("Native:3."));
    assert!((-2i64).ok().unwrap_err().to_string().contains("Native:-2."));
    assert!(u64::MAX.ok().unwrap_err().to_string().contains("Native:-1."));
}

#[test]
fn conversion_errors_carry_a_message() {
    let e = i32::try_from(u32::MAX).unwrap_err();
    let text = Error::from_conversion(e).to_string();
    assert!(text.contains("User Message:Some(\"Could not covert value: "));
}

#[test]
fn loader_errors_become_messages() {
    let e = Error::from_sys(openh264::sys::Error::InvalidHash(String::from("ab")));
    assert!(e.to_string().contains("User Message:Some(\"open264-sys error: Invalid hash: ab\")"));
}

#[test]
fn conversion_errors_name_the_failed_conversion() {
    let e = i32::try_from(u32::MAX).unwrap_err();
    let err = Error::from_conversion(e);
    assert_eq!(
        err.to_string(),
        "OpenH264 encountered an error. Native:0. Decoding State:0. User Message:Some(\"Could not covert value: out of range integral type conversion attempted\"). Backtraces enabled."
    );
    assert!(err.backtrace().is_some());
}

#[test]
fn loader_errors_keep_a_backtrace() {
    let e = Error::from_sys(openh264::sys::Error::InvalidHash(String::from("ab")));
    assert!(e.backtrace().is_some());
}

#[test]
fn native_codes_are_written_in_decimal() {
    assert!(Error::from_native(i64::MIN).to_string().contains("Native:-9223372036854775808."));
    assert!(Error::from_native(i64::MAX).to_string().contains("Native:9223372036854775807."));
    assert!(Error::from_native(1200).to_string().contains("Native:1200."));
    assert!(Error::from_decoding_state(i32::MIN).to_string().contains("Decoding State:-2147483648."));
    assert!(Error::from_decoding_state(10).to_string().contains("Decoding State:10."));
}
