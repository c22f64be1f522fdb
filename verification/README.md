# scuffle_media

Verified readers and writers for media headers, written in Verus:

- `src/bits.rs`, `src/cursor.rs`, `src/bytes_be.rs`, `src/expgolomb.rs`: bit and byte readers and
  writers, big-endian numbers and Exp-Golomb codes.
- `src/h264/`: H.264 sequence parameter sets (parse, build, width and height), decoder
  configuration records, emulation prevention, and the proofs that parsing reads back what
  building writes (`sps_roundtrip.rs`).
- `src/amf0/`: AMF0 markers, values, decoder and encoder, and the proof that decoding reads back
  what encoding writes (`roundtrip.rs`), and that every object it reads holds each key once
  (`keys.rs`).
- `src/flv/`: FLV headers and audio and video tags, legacy and enhanced, demuxed from bytes.
- `src/ffmpeg/`: FFmpeg's log levels.

`app/` is ordinary Rust around the library: readers over `std::io::Cursor<Bytes>`, AMF0 with
serde, FLV script data and colour metadata (floating point), the H.264 frame rate, emulation
prevention as `std::io` reader and writer, byte and string buffers, and configuration parsing.
