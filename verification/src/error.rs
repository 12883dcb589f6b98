//! The error type of this crate.

use vstd::prelude::*;

use std::backtrace::Backtrace;
use std::num::TryFromIntError;

use crate::sys::DS_ERROR_FREE;

verus! {

#[verifier::external_type_specification]
#[verifier::external_body]
pub struct ExBacktrace(std::backtrace::Backtrace);

/// The characters of a decimal digit `d` (0 to 9).
pub open spec fn digit_char(d: nat) -> char {
    (('0' as int) + d) as char
}

/// The decimal digits of `n`, most significant first, without leading zeros.
pub open spec fn digits(n: nat) -> Seq<char>
    decreases n,
{
    if n < 10 {
        seq![digit_char(n)]
    } else {
        digits(n / 10).push(digit_char(n % 10))
    }
}

/// `v` in decimal, with a leading `-` when negative.
pub open spec fn decimal(v: int) -> Seq<char> {
    if v < 0 {
        seq!['-'] + digits((-v) as nat)
    } else {
        digits(v as nat)
    }
}

/// What `{:?}` makes of a string: the text in double quotes, with special characters escaped
/// the way std's `Debug` for `str` escapes them.
pub uninterp spec fn debug_quoted(s: Seq<char>) -> Seq<char>;

/// The character of the decimal digit `d`.
fn digit(d: u8) -> (c: char)
    requires
        d < 10,
    ensures
        c == digit_char(d as nat),
{
    (('0' as u8) + d) as char
}

/// `v` in decimal, as `Display` writes an integer: its digits, most significant first, after a
/// `-` when negative.
fn decimal_text(v: i64) -> (s: String)
    ensures
        s@ == decimal(v as int),
{
    let negative = v < 0;
    let mut m: u64 = if negative {
        ((-(v + 1)) as u64) + 1
    } else {
        v as u64
    };
    let ghost n = m as nat;
    assert(n == if v < 0 { -v } else { v as int });
    let mut tail: Vec<char> = Vec::new();
    while m >= 10
        invariant
            digits(n) == digits(m as nat) + tail@,
        decreases m,
    {
        let c = digit((m % 10) as u8);
        let ghost before = tail@;
        tail.insert(0, c);
        proof {
            assert(digits(m as nat) == digits((m / 10) as nat).push(c));
            assert(digits(m as nat) + before =~= digits((m / 10) as nat) + tail@);
        }
        m = m / 10;
    }
    let mut s = String::new();
    if negative {
        crate::sys::push_char(&mut s, '-');
    }
    crate::sys::push_char(&mut s, digit(m as u8));
    let ghost head = s@;
    proof {
        assert(digits(m as nat) == seq![digit_char(m as nat)]);
        assert(head + tail@ == decimal(v as int));
    }
    let mut i: usize = 0;
    while i < tail.len()
        invariant
            0 <= i <= tail@.len(),
            s@ == head + tail@.take(i as int),
        decreases tail@.len() - i,
    {
        crate::sys::push_char(&mut s, tail[i]);
        proof {
            assert(head + tail@.take(i + 1) =~= (head + tail@.take(i as int)).push(tail@[i as int]));
        }
        i += 1;
    }
    proof {
        assert(tail@.take(tail@.len() as int) =~= tail@);
    }
    s
}

/// `format!("{:?}", s)`: the `Debug` form of a string, named `debug_quoted`.
#[verifier::external_body]
fn string_debug(s: &String) -> (r: String)
    ensures
        r@ == debug_quoted(s@),
{
    format!("{:?}", s)
}

/// `String::push_str`: appends `t` at the end of `s`.
#[verifier::external_body]
pub(crate) fn push_text(s: &mut String, t: &str)
    ensures
        final(s)@ == old(s)@ + t@,
{
    s.push_str(t)
}

/// `std::backtrace::Backtrace::capture`: captures the current stack if the environment enables
/// backtraces; nothing is claimed of what it holds.
#[verifier::external_body]
fn capture_backtrace() -> Backtrace {
    Backtrace::capture()
}

/// The text std's `Display` gives a `TryFromIntError`.
pub uninterp spec fn conversion_text(e: TryFromIntError) -> Seq<char>;

/// `ToString::to_string` on a `TryFromIntError`, its `Display` text, named `conversion_text`.
#[verifier::external_body]
fn conversion_message(e: &TryFromIntError) -> (s: String)
    ensures
        s@ == conversion_text(*e),
{
    e.to_string()
}

/// The message of an error for a failed integer conversion: std's text for it after a prefix.
pub open spec fn conversion_failed(e: TryFromIntError) -> Seq<char> {
    "Could not covert value: "@ + conversion_text(e)
}

/// Error struct if something goes wrong.
#[derive(Debug)]
pub struct Error {
    native: i64,
    decoding_state: i32,
    misc: Option<String>,
    backtrace: Option<Backtrace>,
}

/// The text of an optional message as `{:?}` shows it: `None`, or `Some("...")`.
pub open spec fn debug_message(m: Option<Seq<char>>) -> Seq<char> {
    match m {
        None => "None"@,
        Some(s) => "Some("@ + debug_quoted(s) + ")"@,
    }
}

/// The text of an error with the given fields, as [`Error::to_string`] writes it.
pub open spec fn error_text(native: i64, decoding_state: i32, message: Option<Seq<char>>) -> Seq<
    char,
> {
    "OpenH264 encountered an error. Native:"@ + decimal(native as int) + ". Decoding State:"@
        + decimal(decoding_state as int) + ". User Message:"@ + debug_message(message)
        + ". Backtraces enabled."@
}

impl Error {
    /// The error code a native call returned, or 0.
    pub closed spec fn native(&self) -> i64 {
        self.native
    }

    /// The decoding state the native decoder reported, or `DS_ERROR_FREE`.
    pub closed spec fn decoding_state(&self) -> i32 {
        self.decoding_state
    }

    /// The user message, if any.
    pub closed spec fn message(&self) -> Option<Seq<char>> {
        match self.misc {
            Some(m) => Some(m@),
            None => None,
        }
    }

    /// Whether a backtrace was taken.
    pub closed spec fn has_backtrace(&self) -> bool {
        self.backtrace is Some
    }

    /// An error for a native error code.
    pub fn from_native(native: i64) -> (e: Self)
        ensures
            e.native() == native,
            e.decoding_state() == DS_ERROR_FREE,
            e.message() is None,
            e.has_backtrace(),
    {
        Error {
            native,
            decoding_state: DS_ERROR_FREE,
            misc: None,
            backtrace: Some(capture_backtrace()),
        }
    }

    /// An error for a decoding state the native decoder reported.
    pub fn from_decoding_state(decoding_state: i32) -> (e: Self)
        ensures
            e.native() == 0,
            e.decoding_state() == decoding_state,
            e.message() is None,
            e.has_backtrace(),
    {
        Error { native: 0, decoding_state, misc: None, backtrace: Some(capture_backtrace()) }
    }

    /// Creates a new [`Error`] with a custom message.
    pub fn msg(msg: &str) -> (e: Self)
        ensures
            e.native() == 0,
            e.decoding_state() == DS_ERROR_FREE,
            e.message() == Some(msg@),
            e.has_backtrace(),
    {
        Error {
            native: 0,
            decoding_state: DS_ERROR_FREE,
            misc: Some(msg.to_owned()),
            backtrace: Some(capture_backtrace()),
        }
    }

    /// Creates a new [`Error`] with a custom message.
    pub fn msg_string(msg: String) -> (e: Self)
        ensures
            e.native() == 0,
            e.decoding_state() == DS_ERROR_FREE,
            e.message() == Some(msg@),
            e.has_backtrace(),
    {
        Error {
            native: 0,
            decoding_state: DS_ERROR_FREE,
            misc: Some(msg),
            backtrace: Some(capture_backtrace()),
        }
    }

    /// An error for a failed integer conversion, with std's text for it as message.
    pub fn from_conversion(value: TryFromIntError) -> (e: Self)
        ensures
            e.native() == 0,
            e.decoding_state() == DS_ERROR_FREE,
            e.message() == Some(conversion_failed(value)),
            e.has_backtrace(),
    {
        let mut text = String::new();
        push_text(&mut text, "Could not covert value: ");
        let inner = conversion_message(&value);
        push_text(&mut text, inner.as_str());
        Error::msg_string(text)
    }

    /// An error for a failure in loading the native library, with its text as message.
    pub fn from_sys(value: crate::sys::Error) -> (e: Self)
        ensures
            e.native() == 0,
            e.decoding_state() == DS_ERROR_FREE,
            e.message() is Some,
            value matches crate::sys::Error::InvalidHash(h) ==> e.message() == Some(
                "open264-sys error: "@ + "Invalid hash: "@ + h@,
            ),
            e.has_backtrace(),
    {
        let mut text = String::new();
        push_text(&mut text, "open264-sys error: ");
        let inner = value.to_string();
        push_text(&mut text, inner.as_str());
        Error::msg_string(text)
    }

    /// Returns the backtrace, if available.
    pub fn backtrace(&self) -> (b: Option<&Backtrace>)
        ensures
            b is Some <==> self.has_backtrace(),
    {
        self.backtrace.as_ref()
    }

    /// Describes the error: native code, decoding state and user message.
    pub fn to_string(&self) -> (s: String)
        ensures
            s@ == error_text(self.native(), self.decoding_state(), self.message()),
    {
        let mut s = String::new();
        push_text(&mut s, "OpenH264 encountered an error. Native:");
        let native = decimal_text(self.native);
        push_text(&mut s, native.as_str());
        push_text(&mut s, ". Decoding State:");
        let state = decimal_text(self.decoding_state as i64);
        push_text(&mut s, state.as_str());
        push_text(&mut s, ". User Message:");
        match &self.misc {
            None => {
                push_text(&mut s, "None");
            },
            Some(m) => {
                push_text(&mut s, "Some(");
                let quoted = string_debug(m);
                push_text(&mut s, quoted.as_str());
                push_text(&mut s, ")");
            },
        }
        push_text(&mut s, ". Backtraces enabled.");
        proof {
            assert(s@ =~= error_text(self.native(), self.decoding_state(), self.message()));
        }
        s
    }
}

/// Helper trait to check the various error values produced by OpenH264.
pub trait NativeErrorExt {
    /// `Ok` for the value 0, which means success; an error carrying the value otherwise.
    fn ok(self) -> Result<(), Error>;
}

impl NativeErrorExt for u64 {
    fn ok(self) -> (r: Result<(), Error>)
        ensures
            r is Ok <==> self == 0,
            r matches Err(e) ==> e.native() == self as i64 && e.decoding_state() == DS_ERROR_FREE
                && e.message() is None,
    {
        if self == 0 {
            Ok(())
        } else {
            Err(Error::from_native(self as i64))
        }
    }
}

impl NativeErrorExt for i64 {
    fn ok(self) -> (r: Result<(), Error>)
        ensures
            r is Ok <==> self == 0,
            r matches Err(e) ==> e.native() == self && e.decoding_state() == DS_ERROR_FREE
                && e.message() is None,
    {
        if self == 0 {
            Ok(())
        } else {
            Err(Error::from_native(self))
        }
    }
}

impl NativeErrorExt for i32 {
    fn ok(self) -> (r: Result<(), Error>)
        ensures
            r is Ok <==> self == 0,
            r matches Err(e) ==> e.native() == self as i64 && e.decoding_state() == DS_ERROR_FREE
                && e.message() is None,
    {
        if self == 0 {
            Ok(())
        } else {
            Err(Error::from_native(self as i64))
        }
    }
}

} // verus!
