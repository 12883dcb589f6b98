//! The values of the native OpenH264 interface that the logic of this crate needs, and the
//! choice of where the native library comes from.

use vstd::prelude::*;

use sha2::Digest;

use crate::error::push_text;

verus! {

#[verifier::external_type_specification]
#[verifier::external_body]
pub struct ExIoError(std::io::Error);

/// The SHA-256 digest of `data`.
pub uninterp spec fn sha256(data: Seq<u8>) -> Seq<u8>;

/// `sha2::Sha256::digest`: the SHA-256 digest of `data`, 32 bytes (the output size of
/// `Sha256` is `U32`), named `sha256`.
#[verifier::external_body]
fn sha256_digest(data: &[u8]) -> (d: Vec<u8>)
    ensures
        d@ == sha256(data@),
        d@.len() == 32,
{
    sha2::Sha256::digest(data).to_vec()
}

/// `String::push`: appends `c` at the end of `s`.
#[verifier::external_body]
pub(crate) fn push_char(s: &mut String, c: char)
    ensures
        final(s)@ == old(s)@.push(c),
{
    s.push(c)
}

/// The `Display` text of an I/O error; it comes from the operating system and is not stated.
#[verifier::external_body]
fn io_error_text(e: &std::io::Error) -> String {
    format!("{e}")
}

/// Decoding went without error.
pub const DS_ERROR_FREE: i32 = 0;

/// Native log level: quiet.
pub const WELS_LOG_QUIET: i32 = 0;

/// Native log level: detailed.
pub const WELS_LOG_DETAIL: i32 = 16;

/// Rate control: quality mode.
pub const RC_QUALITY_MODE: i32 = 0;

/// Rate control: bitrate mode.
pub const RC_BITRATE_MODE: i32 = 1;

/// Rate control: buffer based.
pub const RC_BUFFERBASED_MODE: i32 = 2;

/// Rate control: timestamp based.
pub const RC_TIMESTAMP_MODE: i32 = 3;

/// Rate control: bitrate mode with post skip.
pub const RC_BITRATE_MODE_POST_SKIP: i32 = 4;

/// Rate control: off.
pub const RC_OFF_MODE: i32 = -1;

/// SPS/PPS ids: constant.
pub const CONSTANT_ID: i32 = 0;

/// SPS/PPS ids: increasing.
pub const INCREASING_ID: i32 = 1;

/// SPS/PPS ids: SPS listing.
pub const SPS_LISTING: i32 = 2;

/// SPS/PPS ids: SPS listing and PPS increasing.
pub const SPS_LISTING_AND_PPS_INCREASING: i32 = 3;

/// SPS/PPS ids: SPS and PPS listing.
pub const SPS_PPS_LISTING: i32 = 6;

/// Usage: camera video, real time.
pub const CAMERA_VIDEO_REAL_TIME: i32 = 0;

/// Usage: screen content, real time.
pub const SCREEN_CONTENT_REAL_TIME: i32 = 1;

/// Usage: camera video, not real time.
pub const CAMERA_VIDEO_NON_REAL_TIME: i32 = 2;

/// Usage: screen content, not real time.
pub const SCREEN_CONTENT_NON_REAL_TIME: i32 = 3;

/// Usage: all input content types.
pub const INPUT_CONTENT_TYPE_ALL: i32 = 4;

/// Profile: baseline.
pub const PRO_BASELINE: i32 = 66;

/// Profile: main.
pub const PRO_MAIN: i32 = 77;

/// Profile: extended.
pub const PRO_EXTENDED: i32 = 88;

/// Profile: high.
pub const PRO_HIGH: i32 = 100;

/// Profile: high 10.
pub const PRO_HIGH10: i32 = 110;

/// Profile: high 4:2:2.
pub const PRO_HIGH422: i32 = 122;

/// Profile: high 4:4:4.
pub const PRO_HIGH444: i32 = 144;

/// Profile: CAVLC 4:4:4.
pub const PRO_CAVLC444: i32 = 244;

/// Profile: scalable baseline.
pub const PRO_SCALABLE_BASELINE: i32 = 83;

/// Profile: scalable high.
pub const PRO_SCALABLE_HIGH: i32 = 86;

/// Level 1.0.
pub const LEVEL_1_0: i32 = 10;

/// Level 1.B.
pub const LEVEL_1_B: i32 = 9;

/// Level 1.1.
pub const LEVEL_1_1: i32 = 11;

/// Level 1.2.
pub const LEVEL_1_2: i32 = 12;

/// Level 1.3.
pub const LEVEL_1_3: i32 = 13;

/// Level 2.0.
pub const LEVEL_2_0: i32 = 20;

/// Level 2.1.
pub const LEVEL_2_1: i32 = 21;

/// Level 2.2.
pub const LEVEL_2_2: i32 = 22;

/// Level 3.0.
pub const LEVEL_3_0: i32 = 30;

/// Level 3.1.
pub const LEVEL_3_1: i32 = 31;

/// Level 3.2.
pub const LEVEL_3_2: i32 = 32;

/// Level 4.0.
pub const LEVEL_4_0: i32 = 40;

/// Level 4.1.
pub const LEVEL_4_1: i32 = 41;

/// Level 4.2.
pub const LEVEL_4_2: i32 = 42;

/// Level 5.0.
pub const LEVEL_5_0: i32 = 50;

/// Level 5.1.
pub const LEVEL_5_1: i32 = 51;

/// Level 5.2.
pub const LEVEL_5_2: i32 = 52;

/// Complexity: low.
pub const LOW_COMPLEXITY: i32 = 0;

/// Complexity: medium.
pub const MEDIUM_COMPLEXITY: i32 = 1;

/// Complexity: high.
pub const HIGH_COMPLEXITY: i32 = 2;

/// Frame type: invalid.
pub const VIDEO_FRAME_TYPE_INVALID: i32 = 0;

/// Frame type: IDR.
pub const VIDEO_FRAME_TYPE_IDR: i32 = 1;

/// Frame type: I.
pub const VIDEO_FRAME_TYPE_I: i32 = 2;

/// Frame type: P.
pub const VIDEO_FRAME_TYPE_P: i32 = 3;

/// Frame type: skip.
pub const VIDEO_FRAME_TYPE_SKIP: i32 = 4;

/// Frame type: I and P mixed.
pub const VIDEO_FRAME_TYPE_IP_MIXED: i32 = 5;

/// Picture format: I420.
pub const VIDEO_FORMAT_I420: i32 = 23;

/// Layer type: video coding layer.
pub const VIDEO_CODING_LAYER: u8 = 1;

/// Deblocking filter: enabled.
pub const DEBLOCKING_IDC_0: i32 = 0;

/// Slice mode: a single slice.
pub const SM_SINGLE_SLICE: u32 = 0;

/// Slice mode: slices limited in size.
pub const SM_SIZELIMITED_SLICE: u32 = 3;

/// Why the native library could not be had.
#[derive(Debug)]
pub enum Error {
    /// Could not read data.
    Io(std::io::Error),
    /// The given hash was not amongst the known hashes we should load.
    InvalidHash(String),
}

impl Error {
    /// Describes the error: the I/O error's own text, or the hash that is not known.
    pub fn to_string(&self) -> (s: String)
        ensures
            self matches Error::InvalidHash(h) ==> s@ == "Invalid hash: "@ + h@,
    {
        match self {
            Error::Io(e) => io_error_text(e),
            Error::InvalidHash(h) => {
                let mut s = String::new();
                push_text(&mut s, "Invalid hash: ");
                push_text(&mut s, h.as_str());
                s
            },
        }
    }
}

impl From<std::io::Error> for Error {
    fn from(value: std::io::Error) -> (e: Self)
        ensures
            e == Error::Io(value),
    {
        Error::Io(value)
    }
}

impl vstd::std_specs::convert::FromSpecImpl<std::io::Error> for Error {
    open spec fn obeys_from_spec() -> bool {
        true
    }

    open spec fn from_spec(v: std::io::Error) -> Error {
        Error::Io(v)
    }
}

/// The loader of the native library built into this crate.
#[derive(Debug, Default)]
pub struct APILoader {}

impl APILoader {
    /// Creates the loader.
    pub fn new() -> (l: Self) {
        APILoader {}
    }
}

/// Where the native library comes from.
pub enum DynamicAPI {
    /// The library built into this crate.
    Source(APILoader),
}

impl DynamicAPI {
    /// The library built into this crate.
    pub fn from_source() -> (api: Self)
        ensures
            api is Source,
    {
        DynamicAPI::Source(APILoader::new())
    }

    /// Checks that a shared library's bytes have a well-known SHA-256 digest: one that is the
    /// first word of a line of `known_hashes`, in lower-case hexadecimal.
    ///
    /// Fails with the digest that is not known.
    pub fn check_blob(blob: &[u8], known_hashes: &str) -> (r: Result<(), Error>)
        ensures
            r is Ok <==> first_word_of_a_line(known_hashes@, hex_lower(sha256(blob@))),
            r matches Err(e) ==> e matches Error::InvalidHash(h) && h@ == hex_lower(
                sha256(blob@),
            ),
    {
        let digest = sha256_digest(blob);
        let hex = to_hex_lower(digest.as_slice());
        if is_first_word_of_a_line(known_hashes, &hex) {
            Ok(())
        } else {
            Err(Error::InvalidHash(hex))
        }
    }
}

/// The lower-case hexadecimal digit of `n` (0 to 15).
pub open spec fn hex_digit(n: int) -> char {
    if n < 10 {
        (('0' as int) + n) as char
    } else {
        (('a' as int) + n - 10) as char
    }
}

/// Each byte as two lower-case hexadecimal digits, high digit first.
pub open spec fn hex_lower(bytes: Seq<u8>) -> Seq<char>
    decreases bytes.len(),
{
    if bytes.len() == 0 {
        Seq::empty()
    } else {
        hex_lower(bytes.drop_last()) + seq![
            hex_digit(bytes.last() as int / 16),
            hex_digit(bytes.last() as int % 16),
        ]
    }
}

fn hex_digit_char(n: u8) -> (c: char)
    requires
        n < 16,
    ensures
        c == hex_digit(n as int),
{
    if n < 10 {
        (('0' as u8) + n) as char
    } else {
        (('a' as u8) + n - 10) as char
    }
}

/// Writes each byte as two lower-case hexadecimal digits.
pub fn to_hex_lower(bytes: &[u8]) -> (s: String)
    ensures
        s@ == hex_lower(bytes@),
{
    let mut s = String::new();
    let mut i: usize = 0;
    while i < bytes.len()
        invariant
            0 <= i <= bytes@.len(),
            s@ == hex_lower(bytes@.subrange(0, i as int)),
        decreases bytes@.len() - i,
    {
        let b = bytes[i];
        push_char(&mut s, hex_digit_char(b / 16));
        push_char(&mut s, hex_digit_char(b % 16));
        proof {
            let t = bytes@.subrange(0, i + 1);
            assert(t.drop_last() =~= bytes@.subrange(0, i as int));
            assert(t.last() == b);
            assert(s@ =~= hex_lower(t));
        }
        i += 1;
    }
    proof {
        assert(bytes@.subrange(0, bytes@.len() as int) =~= bytes@);
    }
    s
}

/// Whether `c` separates words: the characters `char::is_whitespace` accepts.
pub open spec fn is_white(c: char) -> bool {
    ||| c == '\t'
    ||| c == '\n'
    ||| c == '\u{0B}'
    ||| c == '\u{0C}'
    ||| c == '\r'
    ||| c == ' '
    ||| c == '\u{85}'
    ||| c == '\u{A0}'
    ||| c == '\u{1680}'
    ||| ('\u{2000}' <= c && c <= '\u{200A}')
    ||| c == '\u{2028}'
    ||| c == '\u{2029}'
    ||| c == '\u{202F}'
    ||| c == '\u{205F}'
    ||| c == '\u{3000}'
}

/// Between the start of the line and position `a` of `t` there are only separators.
pub open spec fn blank_before(t: Seq<char>, a: int) -> bool
    decreases a,
{
    if a <= 0 {
        true
    } else if t[a - 1] == '\n' {
        true
    } else {
        is_white(t[a - 1]) && blank_before(t, a - 1)
    }
}

/// The first word of a line begins at `a`.
pub open spec fn line_word_start(t: Seq<char>, a: int) -> bool {
    0 <= a < t.len() && !is_white(t[a]) && blank_before(t, a)
}

/// `t[a..b]` is a whole word: no separator in it, and a separator or the end after it.
pub open spec fn word_at(t: Seq<char>, a: int, b: int) -> bool {
    &&& a < b <= t.len()
    &&& forall|k: int| a <= k < b ==> !is_white(#[trigger] t[k])
    &&& (b == t.len() || is_white(t[b]))
}

/// `t[a..b]` is the first word of a line, and it is `w`.
pub open spec fn word_is(t: Seq<char>, w: Seq<char>, a: int, b: int) -> bool {
    line_word_start(t, a) && word_at(t, a, b) && t.subrange(a, b) == w
}

/// `w` is the first word of some line of `t`.
pub open spec fn first_word_of_a_line(t: Seq<char>, w: Seq<char>) -> bool {
    exists|a: int, b: int| #[trigger] word_is(t, w, a, b)
}

/// `w` is the first word of some line of `t` that ends before position `n`.
spec fn found_before(t: Seq<char>, w: Seq<char>, n: int) -> bool {
    exists|a: int, b: int| b < n && #[trigger] word_is(t, w, a, b)
}

/// When no first word of a line ends at `i`, looking one position further finds nothing new.
proof fn lemma_found_none(t: Seq<char>, w: Seq<char>, i: int)
    requires
        forall|a: int| !(line_word_start(t, a) && word_at(t, a, i)),
    ensures
        found_before(t, w, i + 1) == found_before(t, w, i),
{
    if found_before(t, w, i + 1) {
        let (a, b) = choose|a: int, b: int| b < i + 1 && #[trigger] word_is(t, w, a, b);
        assert(b != i);
        assert(b < i && word_is(t, w, a, b));
    }
}

/// When the first word of a line beginning at `a0` is the only one ending at `i`, looking one
/// position further finds it too.
proof fn lemma_found_one(t: Seq<char>, w: Seq<char>, a0: int, i: int)
    requires
        line_word_start(t, a0),
        word_at(t, a0, i),
        forall|a: int| line_word_start(t, a) && word_at(t, a, i) ==> a == a0,
    ensures
        found_before(t, w, i + 1) == (found_before(t, w, i) || t.subrange(a0, i) == w),
{
    if found_before(t, w, i + 1) {
        let (a, b) = choose|a: int, b: int| b < i + 1 && #[trigger] word_is(t, w, a, b);
        if b == i {
            assert(a == a0);
        } else {
            assert(b < i && word_is(t, w, a, b));
        }
    }
    if t.subrange(a0, i) == w {
        assert(word_is(t, w, a0, i));
    }
}

/// The first word of a line begins at `a` and runs at least up to `i`.
pub open spec fn open_word(t: Seq<char>, a: int, i: int) -> bool {
    &&& line_word_start(t, a)
    &&& a < i <= t.len()
    &&& forall|k: int| a <= k < i ==> !is_white(#[trigger] t[k])
}

/// Two first words of lines that both reach `i` begin at the same place.
proof fn lemma_open_word_unique(t: Seq<char>, a: int, a0: int, i: int)
    requires
        open_word(t, a, i),
        open_word(t, a0, i),
    ensures
        a == a0,
{
    if a < a0 {
        assert(!is_white(t[a0 - 1]));
        assert(t[a0 - 1] != '\n');
    } else if a0 < a {
        assert(!is_white(t[a - 1]));
        assert(t[a - 1] != '\n');
    }
}

/// Where the scan of lines stands.
enum WordScan {
    /// In the separators before the first word of a line.
    Blank,
    /// In the first word of a line.
    InWord,
    /// After the first word of a line.
    Rest,
}

/// Whether `word` is the first word of some line of `text`.
pub fn is_first_word_of_a_line(text: &str, word: &String) -> (r: bool)
    ensures
        r <==> first_word_of_a_line(text@, word@),
{
    broadcast use vstd::string::group_string_axioms;

    let ghost t = text@;
    let ghost w = word@;
    let mut state = WordScan::Blank;
    let mut current = String::new();
    let mut found = false;
    let ghost mut a0: int = 0;
    let ghost mut seen: int = 0;
    for c in it: text.chars()
        invariant
            t == text@,
            w == word@,
            it.seq() == t,
            it.index() <= t.len(),
            seen == it.index(),
            found == found_before(t, w, it.index() as int),
            match state {
                WordScan::Blank => blank_before(t, it.index() as int) && forall|a: int|
                    !open_word(t, a, it.index() as int),
                WordScan::InWord => open_word(t, a0, it.index() as int) && current@ == t.subrange(
                    a0,
                    it.index() as int,
                ),
                WordScan::Rest => !blank_before(t, it.index() as int) && forall|a: int|
                    !open_word(t, a, it.index() as int),
            },
    {
        let ghost i: int = it.index() as int;
        let ghost j: int = i + 1;
        proof {
            assert(c == t[i]);
            seen = i + 1;
        }
        let white = is_white_char(c);
        match state {
            WordScan::Blank => {
                proof {
                    assert forall|a: int| !(line_word_start(t, a) && word_at(t, a, i)) by {
                        if line_word_start(t, a) && word_at(t, a, i) {
                            assert(open_word(t, a, i));
                        }
                    }
                    lemma_found_none(t, w, i);
                }
                if !white {
                    current = String::new();
                    push_char(&mut current, c);
                    state = WordScan::InWord;
                    proof {
                        a0 = i;
                        assert(current@ =~= t.subrange(i, i + 1));
                        assert(open_word(t, i, i + 1));
                    }
                } else {
                    proof {
                        assert(blank_before(t, i + 1));
                        assert forall|a: int| !#[trigger] open_word(t, a, j) by {
                            if open_word(t, a, j) {
                                assert(!is_white(t[i]));
                            }
                        }
                    }
                }
            },
            WordScan::InWord => {
                if white {
                    proof {
                        assert(word_at(t, a0, i));
                        assert forall|a: int| line_word_start(t, a) && word_at(t, a, i) implies a
                            == a0 by {
                            assert(open_word(t, a, i));
                            lemma_open_word_unique(t, a, a0, i);
                        }
                        lemma_found_one(t, w, a0, i);
                        assert forall|a: int| !#[trigger] open_word(t, a, j) by {
                            if open_word(t, a, j) {
                                assert(!is_white(t[i]));
                            }
                        }
                        assert(!is_white(t[i - 1]));
                    }
                    if current == *word {
                        found = true;
                    }
                    if c == '\n' {
                        state = WordScan::Blank;
                        proof {
                            assert(blank_before(t, j));
                        }
                    } else {
                        state = WordScan::Rest;
                        proof {
                            assert(!blank_before(t, i));
                            assert(!blank_before(t, j));
                        }
                    }
                } else {
                    proof {
                        assert forall|a: int| !(line_word_start(t, a) && word_at(t, a, i)) by {
                            if line_word_start(t, a) && word_at(t, a, i) {
                                assert(is_white(t[i]));
                            }
                        }
                        lemma_found_none(t, w, i);
                    }
                    push_char(&mut current, c);
                    proof {
                        assert(current@ =~= t.subrange(a0, i + 1));
                        assert(open_word(t, a0, i + 1));
                    }
                }
            },
            WordScan::Rest => {
                proof {
                    assert forall|a: int| !(line_word_start(t, a) && word_at(t, a, i)) by {
                        if line_word_start(t, a) && word_at(t, a, i) {
                            assert(open_word(t, a, i));
                        }
                    }
                    lemma_found_none(t, w, i);
                    assert forall|a: int| !#[trigger] open_word(t, a, j) by {
                        if open_word(t, a, j) {
                            if a < i {
                                assert(open_word(t, a, i));
                            }
                        }
                    }
                }
                if c == '\n' {
                    state = WordScan::Blank;
                    proof {
                        assert(blank_before(t, j));
                    }
                } else {
                    proof {
                        assert(!blank_before(t, j));
                    }
                }
            },
        }
    }
    proof {
        assert(seen == t.len());
    }
    if let WordScan::InWord = state {
        if current == *word {
            found = true;
        }
    }
    proof {
        let n = t.len() as int;
        if first_word_of_a_line(t, w) {
            let (a, b) = choose|a: int, b: int| #[trigger] word_is(t, w, a, b);
            if b == n {
                assert(open_word(t, a, n));
                assert(!(state is Blank) && !(state is Rest));
                if let WordScan::InWord = state {
                    lemma_open_word_unique(t, a, a0, n);
                }
            } else {
                assert(b < n && word_is(t, w, a, b));
            }
        }
        if found {
            if found_before(t, w, n) {
                let (a, b) = choose|a: int, b: int| b < n && #[trigger] word_is(t, w, a, b);
                assert(word_is(t, w, a, b));
            } else {
                assert(word_is(t, w, a0, n));
            }
        }
    }
    found
}

/// Whether `c` separates words (`char::is_whitespace`).
fn is_white_char(c: char) -> (r: bool)
    ensures
        r == is_white(c),
{
    c == '\t' || c == '\n' || c == '\u{0B}' || c == '\u{0C}' || c == '\r' || c == ' '
        || c == '\u{85}' || c == '\u{A0}' || c == '\u{1680}' || ('\u{2000}' <= c && c
        <= '\u{200A}') || c == '\u{2028}' || c == '\u{2029}' || c == '\u{202F}' || c
        == '\u{205F}' || c == '\u{3000}'
}

/// The hexadecimal digits, lower case, in order.
pub open spec fn hex_digits() -> Seq<char> {
    seq!['0', '1', '2', '3', '4', '5', '6', '7', '8', '9', 'a', 'b', 'c', 'd', 'e', 'f']
}

/// Writing bytes in hexadecimal gives two characters per byte: the lower-case digit of its high
/// four bits, then that of its low four bits.
pub proof fn law_hex_lower(bytes: Seq<u8>)
    ensures
        hex_lower(bytes).len() == 2 * bytes.len(),
        forall|i: int|
            0 <= i < bytes.len() ==> {
                &&& #[trigger] hex_lower(bytes)[2 * i] == hex_digits()[bytes[i] as int / 16]
                &&& hex_lower(bytes)[2 * i + 1] == hex_digits()[bytes[i] as int % 16]
            },
    decreases bytes.len(),
{
    assert forall|n: int| 0 <= n < 16 implies #[trigger] hex_digit(n) == hex_digits()[n] by {
        if n < 0 {
        } else if n == 0 {
            assert(hex_digits()[0] == '0');
        } else if n == 1 {
            assert(hex_digits()[1] == '1');
        } else if n == 2 {
            assert(hex_digits()[2] == '2');
        } else if n == 3 {
            assert(hex_digits()[3] == '3');
        } else if n == 4 {
            assert(hex_digits()[4] == '4');
        } else if n == 5 {
            assert(hex_digits()[5] == '5');
        } else if n == 6 {
            assert(hex_digits()[6] == '6');
        } else if n == 7 {
            assert(hex_digits()[7] == '7');
        } else if n == 8 {
            assert(hex_digits()[8] == '8');
        } else if n == 9 {
            assert(hex_digits()[9] == '9');
        } else if n == 10 {
            assert(hex_digits()[10] == 'a');
        } else if n == 11 {
            assert(hex_digits()[11] == 'b');
        } else if n == 12 {
            assert(hex_digits()[12] == 'c');
        } else if n == 13 {
            assert(hex_digits()[13] == 'd');
        } else if n == 14 {
            assert(hex_digits()[14] == 'e');
        } else if n == 15 {
            assert(hex_digits()[15] == 'f');
        }
    }
    if bytes.len() > 0 {
        let front = bytes.drop_last();
        law_hex_lower(front);
        let b = bytes.last() as int;
        assert(hex_digit(b / 16) == hex_digits()[b / 16]);
        assert(hex_digit(b % 16) == hex_digits()[b % 16]);
        assert forall|i: int| 0 <= i < bytes.len() implies {
            &&& #[trigger] hex_lower(bytes)[2 * i] == hex_digits()[bytes[i] as int / 16]
            &&& hex_lower(bytes)[2 * i + 1] == hex_digits()[bytes[i] as int % 16]
        } by {
            if i < front.len() {
                assert(bytes[i] == front[i]);
                assert(hex_lower(front)[2 * i] == hex_digits()[front[i] as int / 16]);
            }
        }
    }
}

} // verus!
