use scuffle_media::amf0::error::Amf0Error;
use scuffle_media::amf0::marker::{Amf0Marker, Amf0MarkerSet};
use scuffle_media::bits::BitReader;
use scuffle_media::cursor::ByteCursor;
use scuffle_media::error::IoError;
use scuffle_media::expgolomb::read_exp_golomb;
use scuffle_media::flv::error::FlvError;
use scuffle_media::flv::header::FlvHeader;
use scuffle_media::flv::video_body::VideoData;

#[test]
fn flv_header_reads_fields_and_extra_bytes() {
    let mut reader = ByteCursor::new(vec![b'F', b'L', b'V', 1, 0b0000_0101, 0, 0, 0, 11, 7, 8, 42]);
    let header = FlvHeader::demux(&mut reader).unwrap();
    assert_eq!(header.version, 1);
    assert!(header.is_audio_present);
    assert!(header.is_video_present);
    assert_eq!(header.extra, vec![7, 8]);
    assert_eq!(reader.position(), 11);
}

#[test]
fn flv_header_with_wrong_signature_is_refused() {
    let mut reader = ByteCursor::new(vec![b'F', b'L', b'X', 1, 5, 0, 0, 0, 9]);
    assert_eq!(FlvHeader::demux(&mut reader), Err(FlvError::InvalidSignature(0x46_4c_58)));
}

#[test]
fn flv_header_with_short_data_offset_is_refused() {
    let mut reader = ByteCursor::new(vec![b'F', b'L', b'V', 1, 5, 0, 0, 0, 8]);
    assert_eq!(FlvHeader::demux(&mut reader), Err(FlvError::InvalidDataOffset(8)));
}

#[test]
fn flv_header_cut_short_is_an_io_error() {
    let mut reader = ByteCursor::new(vec![b'F', b'L']);
    assert_eq!(FlvHeader::demux(&mut reader), Err(FlvError::Io(IoError::UnexpectedEof)));
}

#[test]
fn metadata_key_that_is_no_string_is_an_amf0_error() {
    let mut reader = ByteCursor::new(vec![
        0b1001_0100, // enhanced + keyframe + metadata
        1,
        2,
        3,
        4,
        Amf0Marker::Null.value(),
    ]);
    assert_eq!(
        VideoData::demux(&mut reader),
        Err(FlvError::Amf0Read(Amf0Error::UnexpectedType {
            expected: Amf0MarkerSet::AnyString,
            got: Amf0Marker::Null,
        }))
    );
}

#[test]
fn exp_golomb_code_over_64_bits_is_refused() {
    let mut reader = BitReader::new(vec![0; 9]);
    assert_eq!(read_exp_golomb(&mut reader), Err(IoError::ExpGolombOverflow));
}
