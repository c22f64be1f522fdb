//! What the decoder reads of each plain kind of value, said of the bytes on the wire.
use vstd::prelude::*;

use vstd::utf8::{decode_utf8, valid_utf8};

use crate::amf0::decoder::spec_value;
use crate::amf0::error::Amf0Error;
use crate::amf0::value::Amf0ValueView;
use crate::cursor::be32;

verus! {

/// A byte 0x01 and one more byte read as a boolean that is true unless the byte is zero.
/// A byte 0x00 and eight more read as a number whose bits are those eight bytes, big-endian.
/// A byte 0x05 (null) or 0x06 (undefined) reads as null by itself. A byte 0x02 and a
/// big-endian 16-bit length read as the string of that many UTF-8 bytes, and invalid UTF-8 is
/// refused. A byte above 0x11 is no marker.
pub proof fn lemma_plain_values_from_bytes(s: Seq<u8>)
    ensures
        s.len() >= 2 && s[0] == 0x01 ==> spec_value(s) == Ok::<(Amf0ValueView, nat), Amf0Error>(
            (Amf0ValueView::Boolean(s[1] != 0), 2),
        ),
        s.len() >= 9 && s[0] == 0x00 ==> spec_value(s) is Ok && spec_value(s)->Ok_0.1 == 9 && (spec_value(s)->Ok_0.0 matches Amf0ValueView::Number(n)
            && n == s[1] as int * 0x100_0000_0000_0000 + s[2] as int * 0x1_0000_0000_0000 + s[3] as int * 0x100_0000_0000
            + s[4] as int * 0x1_0000_0000 + s[5] as int * 0x100_0000 + s[6] as int * 0x1_0000 + s[7] as int * 0x100 + s[8] as int),
        s.len() >= 1 && (s[0] == 0x05 || s[0] == 0x06) ==> spec_value(s) == Ok::<(Amf0ValueView, nat), Amf0Error>(
            (Amf0ValueView::Null, 1),
        ),
        s.len() >= 3 && s[0] == 0x02 && s.len() >= 3 + s[1] as int * 256 + s[2] as int ==> spec_value(s) == (if valid_utf8(
            s.subrange(3, 3 + s[1] as int * 256 + s[2] as int),
        ) {
            Ok::<(Amf0ValueView, nat), Amf0Error>(
                (
                    Amf0ValueView::String(decode_utf8(s.subrange(3, 3 + s[1] as int * 256 + s[2] as int))),
                    (3 + s[1] as int * 256 + s[2] as int) as nat,
                ),
            )
        } else {
            Err::<(Amf0ValueView, nat), Amf0Error>(Amf0Error::StringParseError)
        }),
        s.len() >= 1 && s[0] > 0x11 ==> spec_value(s) == Err::<(Amf0ValueView, nat), Amf0Error>(
            Amf0Error::UnknownMarker(s[0]),
        ),
{
    if s.len() >= 3 {
        let t = s.subrange(1, s.len() as int);
        let len = s[1] as int * 256 + s[2] as int;
        if s.len() >= 3 + len {
            assert(t.subrange(2, 2 + len) =~= s.subrange(3, 3 + len));
        }
    }
    if s.len() >= 9 {
        let t = s.subrange(1, s.len() as int);
        assert(t.subrange(4, 8)[0] == s[5] && t.subrange(4, 8)[1] == s[6] && t.subrange(4, 8)[2] == s[7]
            && t.subrange(4, 8)[3] == s[8]);
        assert(be32(t) * 0x1_0000_0000 == s[1] as int * 0x100_0000_0000_0000 + s[2] as int * 0x1_0000_0000_0000
            + s[3] as int * 0x100_0000_0000 + s[4] as int * 0x1_0000_0000);
    }
}

} // verus!
