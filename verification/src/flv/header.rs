//! The FLV file header (legacy FLV spec, Annex E.2): the signature, the version, the audio and
//! video flags and the data offset.
use vstd::prelude::*;

use crate::cursor::{be24, be32, ByteCursor};
use crate::error::IoError;
use crate::flv::error::FlvError;

verus! {

/// The signature `FLV` as a 24-bit big-endian number.
pub open spec fn flv_signature() -> nat {
    0x46_4c_56
}

/// The FLV header: the first bytes of an FLV file.
#[derive(Debug, Clone, PartialEq, Eq)]
pub struct FlvHeader {
    /// The version of the file.
    pub version: u8,
    /// Whether the file holds audio tags.
    pub is_audio_present: bool,
    /// Whether the file holds video tags.
    pub is_video_present: bool,
    /// The bytes between the data offset field and the data offset.
    pub extra: Vec<u8>,
}

/// The mathematical value of an [`FlvHeader`].
pub struct FlvHeaderView {
    pub version: u8,
    pub is_audio_present: bool,
    pub is_video_present: bool,
    pub extra: Seq<u8>,
}

impl View for FlvHeader {
    type V = FlvHeaderView;

    open spec fn view(&self) -> FlvHeaderView {
        FlvHeaderView {
            version: self.version,
            is_audio_present: self.is_audio_present,
            is_video_present: self.is_video_present,
            extra: self.extra@,
        }
    }
}

/// Reads a header from the front of `s`: the signature must be `FLV`, the data offset at least
/// the nine bytes read; the bytes up to the data offset are kept as `extra`.
pub open spec fn spec_flv_header(s: Seq<u8>) -> Result<(FlvHeaderView, nat), FlvError> {
    if s.len() < 3 {
        Err(FlvError::Io(IoError::UnexpectedEof))
    } else if be24(s) != flv_signature() {
        Err(FlvError::InvalidSignature(be24(s) as u32))
    } else if s.len() < 9 {
        Err(FlvError::Io(IoError::UnexpectedEof))
    } else {
        let offset = be32(s.subrange(5, 9));
        if offset < 9 {
            Err(FlvError::InvalidDataOffset(offset as u32))
        } else if s.len() < offset {
            Err(FlvError::Io(IoError::UnexpectedEof))
        } else {
            Ok(
                (
                    FlvHeaderView {
                        version: s[3],
                        is_audio_present: (s[4] / 4) % 2 == 1,
                        is_video_present: s[4] % 2 == 1,
                        extra: s.subrange(9, offset as int),
                    },
                    offset,
                ),
            )
        }
    }
}

impl FlvHeader {
    /// Reads the header; the cursor is left at the data offset.
    pub fn demux(reader: &mut ByteCursor) -> (r: Result<Self, FlvError>)
        requires
            old(reader).wf(),
        ensures
            final(reader).wf(),
            final(reader).data@ == old(reader).data@,
            match r {
                Ok(h) => final(reader).pos >= old(reader).pos && spec_flv_header(old(reader).rest())
                    == Ok::<(FlvHeaderView, nat), FlvError>(
                    (h@, (final(reader).pos - old(reader).pos) as nat),
                ),
                Err(e) => spec_flv_header(old(reader).rest()) == Err::<(FlvHeaderView, nat), FlvError>(
                    e,
                ),
            },
            r matches Ok(h) ==> h.version == old(reader).rest()[3] && h.is_audio_present == (old(
                reader,
            ).rest()[4] & 4u8 != 0) && h.is_video_present == (old(reader).rest()[4] & 1u8 != 0),
    {
        let ghost s = reader.rest();
        let signature = match reader.read_u24_be() {
            Ok(v) => v,
            Err(e) => return Err(FlvError::Io(e)),
        };
        if signature != 0x46_4c_56 {
            return Err(FlvError::InvalidSignature(signature));
        }
        if reader.remaining() < 6 {
            return Err(FlvError::Io(IoError::UnexpectedEof));
        }
        let version = match reader.read_u8() {
            Ok(v) => v,
            Err(e) => return Err(FlvError::Io(e)),
        };
        let flags = match reader.read_u8() {
            Ok(v) => v,
            Err(e) => return Err(FlvError::Io(e)),
        };
        let ghost at5 = reader.rest();
        assert(at5 =~= s.subrange(5, s.len() as int));
        let data_offset = match reader.read_u32_be() {
            Ok(v) => v,
            Err(e) => return Err(FlvError::Io(e)),
        };
        assert(at5.subrange(0, 4) =~= s.subrange(5, 9));
        if data_offset < 9 {
            return Err(FlvError::InvalidDataOffset(data_offset));
        }
        let remaining = (data_offset - 9) as usize;
        let extra = match reader.extract_bytes(remaining) {
            Ok(v) => v,
            Err(e) => return Err(FlvError::Io(e)),
        };
        assert(extra@ =~= s.subrange(9, data_offset as int));
        assert((flags & 4 != 0) == ((flags / 4) % 2 == 1)) by (bit_vector);
        assert((flags & 1 != 0) == (flags % 2 == 1)) by (bit_vector);
        proof {
            lemma_header_from_bytes(s);
        }
        Ok(
            FlvHeader {
                version,
                is_audio_present: (flags & 0b0000_0100) != 0,
                is_video_present: (flags & 0b0000_0001) != 0,
                extra,
            },
        )
    }
}

/// What a header that reads holds, said of the bytes: the signature `F` `L` `V`, the version
/// from the fourth byte, audio when bit 2 (value 4) of the flags byte is set and video when bit 0
/// (value 1) is, the data offset from the big-endian 32-bit number at bytes 5 to 8, and the
/// bytes from 9 up to that offset as `extra`. A signature other than `FLV` is refused, and so
/// is a data offset below nine.
pub proof fn lemma_header_from_bytes(s: Seq<u8>)
    ensures
        spec_flv_header(s) is Ok ==> {
            let (h, n) = spec_flv_header(s)->Ok_0;
            &&& 9 <= s.len()
            &&& s[0] == 0x46u8 && s[1] == 0x4cu8 && s[2] == 0x56u8
            &&& h.version == s[3]
            &&& h.is_audio_present == (s[4] & 4u8 != 0)
            &&& h.is_video_present == (s[4] & 1u8 != 0)
            &&& n == s[5] as nat * 16777216 + s[6] as nat * 65536 + s[7] as nat * 256 + s[8] as nat
            &&& 9 <= n <= s.len()
            &&& h.extra == s.subrange(9, n as int)
        },
        3 <= s.len() && !(s[0] == 0x46u8 && s[1] == 0x4cu8 && s[2] == 0x56u8) ==> spec_flv_header(s)
            is Err,
        9 <= s.len() && s[5] == 0u8 && s[6] == 0u8 && s[7] == 0u8 && s[8] < 9 ==> spec_flv_header(s)
            is Err,
        9 <= s.len() && s[0] == 0x46u8 && s[1] == 0x4cu8 && s[2] == 0x56u8 && s[5] == 0u8 && s[6] == 0u8
            && s[7] == 0u8 && s[8] == 9u8 ==> spec_flv_header(s) is Ok,
{
    if s.len() >= 9 {
        let f = s[4];
        assert((f & 4u8 != 0) == ((f / 4) % 2 == 1) && (f & 1u8 != 0) == (f % 2 == 1)) by (bit_vector);
        assert(s.subrange(5, 9)[0] == s[5] && s.subrange(5, 9)[1] == s[6] && s.subrange(5, 9)[2] == s[7]
            && s.subrange(5, 9)[3] == s[8]);
    }
    if s.len() >= 3 && be24(s) == flv_signature() {
        assert(s[0] == 0x46u8 && s[1] == 0x4cu8 && s[2] == 0x56u8) by (nonlinear_arith)
            requires
                s[0] as nat * 0x1_0000 + s[1] as nat * 0x100 + s[2] as nat == 0x46_4c_56,
                s[1] < 256,
                s[2] < 256,
        ;
    }
}

} // verus!
