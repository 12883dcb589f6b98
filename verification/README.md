# openh264 (verified core)

Building blocks of an H.264 wrapper around the native OpenH264 codec, written in Verus.

- `src/` is the verified library:
  - `utils`: splitting a byte stream at NAL start codes (`nal_units`, `NalParser`), with the
    laws that the units reassemble the stream, that complete units only grow as data arrives, and
    that feeding the stream in pieces hands out the units of the whole;
  - `stream`: the incremental parser for network streams, and `VideoStreamDecoder`, which counts
    packets and pictures and decides which decoded pictures are written out;
  - `formats`: RGB sources, the integer RGB to I420 conversion, I420 buffers, and the
    fixed-point I420 to RGB conversion used on CPUs with AVX2;
  - `encoder` / `decoder`: settings, the parameters handed to the native codec, the order of
    native calls and the decision after each of them (`Encoder::encode_step`, `decode_step`),
    encoded bitstreams and decoded pictures;
  - `error`, `time`, `sys`: the error type, timestamps, native constants and the check of a
    shared library's SHA-256 digest against a list of well-known ones.
- `app/` holds what is not verified: floating-point color conversion (scalar and `wide` SIMD),
  CPU feature dispatch, writing to `std::io::Write`, and reading files.
- `tests/` exercises the library on concrete values.
