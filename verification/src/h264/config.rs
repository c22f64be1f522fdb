//! The AVC decoder configuration record (ISO/IEC 14496-15:2022(E) - 5.3.2.1.2): the profile and
//! level bytes, the length size of the NAL unit lengths, and the SPS, PPS and SPS extension NAL
//! units, each behind a 16-bit big-endian length.
use vstd::prelude::*;

use crate::cursor::{be16, ByteCursor};
use crate::error::IoError;

verus! {

/// The extended part of the record, present for profiles other than 66, 77 and 88.
#[derive(Debug, Clone, PartialEq, Eq)]
pub struct AvccExtendedConfig {
    /// `chroma_format_idc` (two bits).
    pub chroma_format_idc: u8,
    /// `bit_depth_luma_minus8` (three bits).
    pub bit_depth_luma_minus8: u8,
    /// `bit_depth_chroma_minus8` (three bits).
    pub bit_depth_chroma_minus8: u8,
    /// The SPS extension NAL units.
    pub sequence_parameter_set_ext: Vec<Vec<u8>>,
}

/// The AVC (H.264) Decoder Configuration Record.
#[derive(Debug, Clone, PartialEq, Eq)]
pub struct AVCDecoderConfigurationRecord {
    /// `configuration_version`, 1 for this edition of the standard.
    pub configuration_version: u8,
    /// `AVCProfileIndication`: the `profile_idc` of the SPS.
    pub profile_indication: u8,
    /// `profile_compatibility`.
    pub profile_compatibility: u8,
    /// `AVCLevelIndication`: the `level_idc` of the SPS.
    pub level_indication: u8,
    /// `lengthSizeMinusOne` (two bits): the size in bytes of a NAL unit length, less one.
    pub length_size_minus_one: u8,
    /// The SPS NAL units, in ascending SPS id.
    pub sps: Vec<Vec<u8>>,
    /// The PPS NAL units, in ascending PPS id.
    pub pps: Vec<Vec<u8>>,
    /// The extended part.
    pub extended_config: Option<AvccExtendedConfig>,
}

/// The mathematical value of an [`AvccExtendedConfig`].
pub struct AvccExtendedConfigView {
    pub chroma_format_idc: u8,
    pub bit_depth_luma_minus8: u8,
    pub bit_depth_chroma_minus8: u8,
    pub sequence_parameter_set_ext: Seq<Seq<u8>>,
}

/// The mathematical value of an [`AVCDecoderConfigurationRecord`].
pub struct AvcConfigView {
    pub configuration_version: u8,
    pub profile_indication: u8,
    pub profile_compatibility: u8,
    pub level_indication: u8,
    pub length_size_minus_one: u8,
    pub sps: Seq<Seq<u8>>,
    pub pps: Seq<Seq<u8>>,
    pub extended_config: Option<AvccExtendedConfigView>,
}

/// The byte strings held by a vector of buffers.
pub open spec fn units_view(v: Seq<Vec<u8>>) -> Seq<Seq<u8>> {
    v.map_values(|u: Vec<u8>| u@)
}

impl View for AvccExtendedConfig {
    type V = AvccExtendedConfigView;

    open spec fn view(&self) -> AvccExtendedConfigView {
        AvccExtendedConfigView {
            chroma_format_idc: self.chroma_format_idc,
            bit_depth_luma_minus8: self.bit_depth_luma_minus8,
            bit_depth_chroma_minus8: self.bit_depth_chroma_minus8,
            sequence_parameter_set_ext: units_view(self.sequence_parameter_set_ext@),
        }
    }
}

impl View for AVCDecoderConfigurationRecord {
    type V = AvcConfigView;

    open spec fn view(&self) -> AvcConfigView {
        AvcConfigView {
            configuration_version: self.configuration_version,
            profile_indication: self.profile_indication,
            profile_compatibility: self.profile_compatibility,
            level_indication: self.level_indication,
            length_size_minus_one: self.length_size_minus_one,
            sps: units_view(self.sps@),
            pps: units_view(self.pps@),
            extended_config: match self.extended_config {
                Some(e) => Some(e@),
                None => None,
            },
        }
    }
}

/// Reads `count` NAL units from the front of `s`, each a 16-bit big-endian length and that many
/// bytes; gives the units and the number of bytes they take.
pub open spec fn spec_nal_units(s: Seq<u8>, count: nat) -> Result<(Seq<Seq<u8>>, nat), IoError>
    decreases count,
{
    if count == 0 {
        Ok((seq![], 0))
    } else {
        match spec_nal_units(s, (count - 1) as nat) {
            Err(e) => Err(e),
            Ok((us, used)) => {
                let t = s.subrange(used as int, s.len() as int);
                if t.len() < 2 {
                    Err(IoError::UnexpectedEof)
                } else if t.len() < 2 + be16(t) {
                    Err(IoError::UnexpectedEof)
                } else {
                    Ok((us.push(t.subrange(2, 2 + be16(t) as int)), used + 2 + be16(t)))
                }
            },
        }
    }
}

/// The profiles whose record has no extended part.
pub open spec fn is_base_profile(profile: u8) -> bool {
    profile == 66 || profile == 77 || profile == 88
}

/// Reads the extended part from the front of `t`: none for profiles 66, 77 and 88, nor when
/// nothing remains; otherwise the three masked fields, a count and that many SPS extensions.
pub open spec fn spec_ext_config(t: Seq<u8>, profile: u8) -> Result<
    (Option<AvccExtendedConfigView>, nat),
    IoError,
> {
    if is_base_profile(profile) || t.len() == 0 {
        Ok((None, 0))
    } else if t.len() < 4 {
        Err(IoError::UnexpectedEof)
    } else {
        match spec_nal_units(t.subrange(4, t.len() as int), t[3] as nat) {
            Err(e) => Err(e),
            Ok((us, used)) => Ok(
                (
                    Some(
                        AvccExtendedConfigView {
                            chroma_format_idc: (t[0] % 4) as u8,
                            bit_depth_luma_minus8: (t[1] % 8) as u8,
                            bit_depth_chroma_minus8: (t[2] % 8) as u8,
                            sequence_parameter_set_ext: us,
                        },
                    ),
                    4 + used,
                ),
            ),
        }
    }
}

/// Reads the PPS units and the extended part of a record whose first `p` bytes (the fixed
/// fields and the SPS units) hold the given values.
pub open spec fn spec_config_rest(s: Seq<u8>, p: nat, head: AvcConfigView) -> Result<
    (AvcConfigView, nat),
    IoError,
> {
    if s.len() < p + 1 {
        Err(IoError::UnexpectedEof)
    } else {
        match spec_nal_units(s.subrange((p + 1) as int, s.len() as int), s[p as int] as nat) {
            Err(e) => Err(e),
            Ok((pps, u2)) => {
                let q = p + 1 + u2;
                match spec_ext_config(s.subrange(q as int, s.len() as int), head.profile_indication) {
                    Err(e) => Err(e),
                    Ok((ext, u3)) => Ok(
                        (AvcConfigView { pps, extended_config: ext, ..head }, q + u3),
                    ),
                }
            },
        }
    }
}

/// Reads a record from the front of `s`: the record and the number of bytes it takes. A
/// stream that ends early gives [`IoError::UnexpectedEof`].
pub open spec fn spec_config(s: Seq<u8>) -> Result<(AvcConfigView, nat), IoError> {
    if s.len() < 6 {
        Err(IoError::UnexpectedEof)
    } else {
        match spec_nal_units(s.subrange(6, s.len() as int), (s[5] % 32) as nat) {
            Err(e) => Err(e),
            Ok((sps, u1)) => spec_config_rest(
                s,
                6 + u1,
                AvcConfigView {
                    configuration_version: s[0],
                    profile_indication: s[1],
                    profile_compatibility: s[2],
                    level_indication: s[3],
                    length_size_minus_one: (s[4] % 4) as u8,
                    sps,
                    pps: seq![],
                    extended_config: None,
                },
            ),
        }
    }
}

/// A 16-bit number as two big-endian bytes.
pub open spec fn u16_be(n: nat) -> Seq<u8> {
    seq![((n / 256) % 256) as u8, (n % 256) as u8]
}

/// The bytes of NAL units, each behind its length modulo 2^16.
pub open spec fn unit_bytes(us: Seq<Seq<u8>>) -> Seq<u8>
    decreases us.len(),
{
    if us.len() == 0 {
        seq![]
    } else {
        unit_bytes(us.drop_last()) + u16_be(us.last().len() % 0x1_0000) + us.last()
    }
}

/// The number of bytes of [`unit_bytes`]: two for each length and the units themselves.
pub open spec fn units_size(us: Seq<Seq<u8>>) -> nat
    decreases us.len(),
{
    if us.len() == 0 {
        0
    } else {
        units_size(us.drop_last()) + 2 + us.last().len()
    }
}

impl AvccExtendedConfigView {
    /// The bytes of the extended part: the reserved bits set, the fields masked to their widths
    /// and the count taken modulo 256.
    pub open spec fn spec_bytes(&self) -> Seq<u8> {
        seq![
            (0xfc + self.chroma_format_idc % 4) as u8,
            (0xf8 + self.bit_depth_luma_minus8 % 8) as u8,
            (0xf8 + self.bit_depth_chroma_minus8 % 8) as u8,
            (self.sequence_parameter_set_ext.len() % 256) as u8,
        ] + unit_bytes(self.sequence_parameter_set_ext)
    }
}

impl AvcConfigView {
    /// The bytes that `build` writes: the fixed fields with their reserved bits set, the SPS
    /// count modulo 32, the PPS count modulo 256, each unit behind its length modulo 2^16, and
    /// the extended part when there is one.
    pub open spec fn spec_bytes(&self) -> Seq<u8> {
        seq![
            self.configuration_version,
            self.profile_indication,
            self.profile_compatibility,
            self.level_indication,
            (0xfc + self.length_size_minus_one % 4) as u8,
            (0xe0 + self.sps.len() % 32) as u8,
        ] + unit_bytes(self.sps) + seq![(self.pps.len() % 256) as u8] + unit_bytes(self.pps) + (
        match self.extended_config {
            Some(e) => e.spec_bytes(),
            None => seq![],
        })
    }

    /// The size in bytes of the record.
    pub open spec fn spec_size(&self) -> nat {
        7 + units_size(self.sps) + units_size(self.pps) + match self.extended_config {
            Some(e) => 4 + units_size(e.sequence_parameter_set_ext),
            None => 0,
        }
    }
}

impl AvccExtendedConfigView {
    /// Every field fits its width and every count and length fits its field, so that writing
    /// loses nothing.
    pub open spec fn fits(&self) -> bool {
        &&& self.chroma_format_idc < 4
        &&& self.bit_depth_luma_minus8 < 8
        &&& self.bit_depth_chroma_minus8 < 8
        &&& self.sequence_parameter_set_ext.len() < 256
        &&& units_fit(self.sequence_parameter_set_ext)
    }
}

impl AvcConfigView {
    /// Every field fits its width and every count and length fits its field, so that writing
    /// loses nothing.
    pub open spec fn fits(&self) -> bool {
        &&& self.length_size_minus_one < 4
        &&& self.sps.len() < 32
        &&& self.pps.len() < 256
        &&& units_fit(self.sps)
        &&& units_fit(self.pps)
        &&& (self.extended_config matches Some(e) ==> e.fits())
    }
}

/// Every unit is shorter than 2^16 bytes.
pub open spec fn units_fit(us: Seq<Seq<u8>>) -> bool {
    forall|i: int| 0 <= i < us.len() ==> #[trigger] us[i].len() < 0x1_0000
}

/// The length of the written units is their size.
pub proof fn lemma_unit_bytes_len(us: Seq<Seq<u8>>)
    ensures
        unit_bytes(us).len() == units_size(us),
    decreases us.len(),
{
    if us.len() > 0 {
        lemma_unit_bytes_len(us.drop_last());
    }
}

/// Reading back written units gives the same units and takes all their bytes.
pub proof fn lemma_nal_units_roundtrip(us: Seq<Seq<u8>>, rest: Seq<u8>)
    requires
        units_fit(us),
    ensures
        spec_nal_units(unit_bytes(us) + rest, us.len()) == Ok::<(Seq<Seq<u8>>, nat), IoError>(
            (us, unit_bytes(us).len()),
        ),
    decreases us.len(),
{
    if us.len() > 0 {
        let init = us.drop_last();
        let last = us.last();
        let head = u16_be(last.len() % 0x1_0000) + last;
        assert(units_fit(init)) by {
            assert forall|i: int| 0 <= i < init.len() implies #[trigger] init[i].len() < 0x1_0000 by {
                assert(init[i] == us[i]);
            }
        }
        assert(last.len() < 0x1_0000) by {
            assert(last == us[us.len() - 1]);
        }
        lemma_nal_units_roundtrip(init, head + rest);
        let s = unit_bytes(us) + rest;
        assert(s =~= unit_bytes(init) + (head + rest));
        let used = unit_bytes(init).len();
        let t = s.subrange(used as int, s.len() as int);
        assert(t =~= head + rest);
        let n = last.len();
        assert(be16(t) == n) by {
            assert(t[0] == ((n / 256) % 256) as u8);
            assert(t[1] == (n % 256) as u8);
            assert((n / 256) % 256 == n / 256) by (nonlinear_arith)
                requires
                    n < 0x1_0000,
            ;
        }
        assert(t.subrange(2, 2 + n as int) =~= last);
        assert(init.push(last) =~= us);
    } else {
        assert(us =~= Seq::<Seq<u8>>::empty());
    }
}

/// Once reading the units fails, reading more of them fails the same way.
pub proof fn lemma_nal_units_err(s: Seq<u8>, k: nat, m: nat)
    requires
        k <= m,
        spec_nal_units(s, k) is Err,
    ensures
        spec_nal_units(s, m) == spec_nal_units(s, k),
    decreases m - k,
{
    if k < m {
        lemma_nal_units_err(s, k, (m - 1) as nat);
    }
}

/// The units read never take more bytes than there are.
pub proof fn lemma_nal_units_len(s: Seq<u8>, k: nat)
    requires
        spec_nal_units(s, k) is Ok,
    ensures
        spec_nal_units(s, k)->Ok_0.1 <= s.len(),
        spec_nal_units(s, k)->Ok_0.0.len() == k,
    decreases k,
{
    if k > 0 {
        lemma_nal_units_len(s, (k - 1) as nat);
    }
}

/// The bytes of an optional extended part.
pub open spec fn ext_bytes(e: Option<AvccExtendedConfigView>) -> Seq<u8> {
    match e {
        Some(x) => x.spec_bytes(),
        None => seq![],
    }
}

/// Reading a written extended part gives it back.
pub proof fn lemma_ext_roundtrip(e: Option<AvccExtendedConfigView>, profile: u8, rest: Seq<u8>)
    requires
        e matches Some(x) ==> x.fits() && !is_base_profile(profile),
        e is None && !is_base_profile(profile) ==> rest.len() == 0,
    ensures
        spec_ext_config(ext_bytes(e) + rest, profile) == Ok::<
            (Option<AvccExtendedConfigView>, nat),
            IoError,
        >((e, ext_bytes(e).len())),
{
    match e {
        Some(x) => {
            let t = ext_bytes(e) + rest;
            let a = x.chroma_format_idc;
            let y = x.bit_depth_luma_minus8;
            let z = x.bit_depth_chroma_minus8;
            let n = x.sequence_parameter_set_ext.len();
            assert(((0xfc + a % 4) as u8) % 4 == a) by (nonlinear_arith)
                requires
                    a < 4,
            ;
            assert(((0xf8 + y % 8) as u8) % 8 == y) by (nonlinear_arith)
                requires
                    y < 8,
            ;
            assert(((0xf8 + z % 8) as u8) % 8 == z) by (nonlinear_arith)
                requires
                    z < 8,
            ;
            assert(t[3] == n);
            assert(t.subrange(4, t.len() as int) =~= unit_bytes(x.sequence_parameter_set_ext)
                + rest);
            lemma_nal_units_roundtrip(x.sequence_parameter_set_ext, rest);
        },
        None => {
            assert(rest =~= seq![] + rest);
        },
    }
}

/// Reading a written record gives the record back, and takes exactly the written bytes, when
/// every field fits its width, the extended part is present only for profiles other than 66,
/// 77 and 88, and, for such a profile without an extended part, nothing follows.
#[verifier::rlimit(100)]
pub proof fn lemma_config_roundtrip(c: AvcConfigView, rest: Seq<u8>)
    requires
        c.fits(),
        c.extended_config is Some ==> !is_base_profile(c.profile_indication),
        c.extended_config is None && !is_base_profile(c.profile_indication) ==> rest.len() == 0,
    ensures
        spec_config(c.spec_bytes() + rest) == Ok::<(AvcConfigView, nat), IoError>(
            (c, c.spec_bytes().len()),
        ),
{
    let b = c.spec_bytes();
    let s = b + rest;
    let head = seq![
        c.configuration_version,
        c.profile_indication,
        c.profile_compatibility,
        c.level_indication,
        (0xfc + c.length_size_minus_one % 4) as u8,
        (0xe0 + c.sps.len() % 32) as u8,
    ];
    let after_pps = ext_bytes(c.extended_config) + rest;
    let after_sps = seq![(c.pps.len() % 256) as u8] + unit_bytes(c.pps) + after_pps;
    assert(b =~= head + unit_bytes(c.sps) + seq![(c.pps.len() % 256) as u8] + unit_bytes(c.pps)
        + ext_bytes(c.extended_config));
    assert(s =~= head + (unit_bytes(c.sps) + after_sps));
    let l4 = c.length_size_minus_one;
    assert(((0xfc + l4 % 4) as u8) % 4 == l4) by (nonlinear_arith)
        requires
            l4 < 4,
    ;
    let ns = c.sps.len();
    assert(((0xe0 + ns % 32) as u8) % 32 == ns) by (nonlinear_arith)
        requires
            ns < 32,
    ;
    let u1 = unit_bytes(c.sps).len();
    assert(spec_nal_units(s.subrange(6, s.len() as int), (s[5] % 32) as nat) == Ok::<
        (Seq<Seq<u8>>, nat),
        IoError,
    >((c.sps, u1))) by {
        assert(s.subrange(6, s.len() as int) =~= unit_bytes(c.sps) + after_sps);
        lemma_nal_units_roundtrip(c.sps, after_sps);
    }
    let hv = AvcConfigView {
        configuration_version: s[0],
        profile_indication: s[1],
        profile_compatibility: s[2],
        level_indication: s[3],
        length_size_minus_one: (s[4] % 4) as u8,
        sps: c.sps,
        pps: seq![],
        extended_config: None,
    };
    assert(spec_config(s) == spec_config_rest(s, 6 + u1, hv));
    let p = 6 + u1;
    let u2 = unit_bytes(c.pps).len();
    assert(s[p as int] == (c.pps.len() % 256) as u8);
    assert(spec_nal_units(s.subrange((p + 1) as int, s.len() as int), s[p as int] as nat) == Ok::<
        (Seq<Seq<u8>>, nat),
        IoError,
    >((c.pps, u2))) by {
        assert(s.subrange((p + 1) as int, s.len() as int) =~= unit_bytes(c.pps) + after_pps);
        lemma_nal_units_roundtrip(c.pps, after_pps);
    }
    let q = p + 1 + u2;
    assert(spec_ext_config(s.subrange(q as int, s.len() as int), c.profile_indication) == Ok::<
        (Option<AvccExtendedConfigView>, nat),
        IoError,
    >((c.extended_config, ext_bytes(c.extended_config).len()))) by {
        assert(s.subrange(q as int, s.len() as int) =~= after_pps);
        lemma_ext_roundtrip(c.extended_config, c.profile_indication, rest);
    }
    assert(b.len() == q + ext_bytes(c.extended_config).len());
}

/// What a record that reads holds, said of the bytes: the version, the profile, the profile
/// compatibility and the level are bytes 0 to 3, the NAL unit length size less one is the low
/// two bits of byte 4, and there are as many SPS units as the low five bits of byte 5 say,
/// followed by as many PPS units as the byte after them says. A record shorter than six bytes
/// is refused.
pub proof fn lemma_config_from_bytes(s: Seq<u8>)
    ensures
        s.len() < 6 ==> spec_config(s) is Err,
        spec_config(s) is Ok ==> {
            let (c, n) = spec_config(s)->Ok_0;
            &&& 6 <= s.len()
            &&& c.configuration_version == s[0]
            &&& c.profile_indication == s[1]
            &&& c.profile_compatibility == s[2]
            &&& c.level_indication == s[3]
            &&& c.length_size_minus_one == s[4] & 3u8
            &&& c.sps.len() == s[5] & 31u8
            &&& 6 + units_size(c.sps) < s.len()
            &&& c.pps.len() == s[6 + units_size(c.sps) as int]
            &&& n <= s.len()
        },
{
    if s.len() >= 6 {
        let b4 = s[4];
        let b5 = s[5];
        assert(b4 & 3u8 == b4 % 4 && b5 & 31u8 == b5 % 32) by (bit_vector);
        let t = s.subrange(6, s.len() as int);
        if spec_config(s) is Ok {
            lemma_nal_units_len(t, (s[5] % 32) as nat);
            let (sps, u1) = spec_nal_units(t, (s[5] % 32) as nat)->Ok_0;
            lemma_nal_units_size(t, (s[5] % 32) as nat);
            let p = 6 + u1;
            let t2 = s.subrange((p + 1) as int, s.len() as int);
            lemma_nal_units_len(t2, s[p as int] as nat);
            let (pps, u2) = spec_nal_units(t2, s[p as int] as nat)->Ok_0;
            lemma_nal_units_len(t2, s[p as int] as nat);
            let q = p + 1 + u2;
            let u = s.subrange(q as int, s.len() as int);
            let profile = s[1];
            if !(is_base_profile(profile) || u.len() == 0) && u.len() >= 4 {
                lemma_nal_units_len(u.subrange(4, u.len() as int), u[3] as nat);
            }
        }
    }
}

/// The extended part, said of its bytes: none for profiles 66, 77 and 88 or when no byte is
/// left; otherwise the chroma format is the low two bits of its first byte, the luma and chroma
/// bit depths less eight the low three bits of the next two, and the fourth byte counts the SPS
/// extension units that follow.
pub proof fn lemma_ext_config_from_bytes(t: Seq<u8>, profile: u8)
    ensures
        (profile == 66 || profile == 77 || profile == 88 || t.len() == 0) ==> spec_ext_config(t, profile)
            == Ok::<(Option<AvccExtendedConfigView>, nat), IoError>((None, 0)),
        spec_ext_config(t, profile) matches Ok((Some(e), _)) ==> t.len() >= 4 && e.chroma_format_idc == t[0] % 4
            && e.bit_depth_luma_minus8 == t[1] % 8 && e.bit_depth_chroma_minus8 == t[2] % 8
            && e.sequence_parameter_set_ext.len() == t[3],
{
    if !(is_base_profile(profile) || t.len() == 0) && t.len() >= 4 {
        if spec_nal_units(t.subrange(4, t.len() as int), t[3] as nat) is Ok {
            lemma_nal_units_len(t.subrange(4, t.len() as int), t[3] as nat);
        }
    }
}

/// The number of bytes that reading units takes is their size.
proof fn lemma_nal_units_size(s: Seq<u8>, k: nat)
    requires
        spec_nal_units(s, k) is Ok,
    ensures
        spec_nal_units(s, k)->Ok_0.1 == units_size(spec_nal_units(s, k)->Ok_0.0),
    decreases k,
{
    if k > 0 {
        lemma_nal_units_size(s, (k - 1) as nat);
        let (us, used) = spec_nal_units(s, (k - 1) as nat)->Ok_0;
        let r = spec_nal_units(s, k)->Ok_0.0;
        assert(r.drop_last() =~= us);
    }
}

/// Where `build` puts each fixed field: the version, the profile, the profile compatibility and
/// the level as bytes 0 to 3; byte 4 has its six high bits set and the length size less one in
/// its low two; byte 5 has its three high bits set and the SPS count in its low five.
pub proof fn lemma_config_bytes_layout(c: AvcConfigView)
    ensures
        c.spec_bytes().len() >= 7,
        c.spec_bytes()[0] == c.configuration_version,
        c.spec_bytes()[1] == c.profile_indication,
        c.spec_bytes()[2] == c.profile_compatibility,
        c.spec_bytes()[3] == c.level_indication,
        c.length_size_minus_one < 4 ==> c.spec_bytes()[4] == 0xfcu8 | c.length_size_minus_one,
        c.sps.len() < 32 ==> c.spec_bytes()[5] == 0xe0u8 | (c.sps.len() as u8),
{
    let l = c.length_size_minus_one;
    assert(l < 4 ==> 0xfcu8 | l == (0xfc + l % 4) as u8) by (bit_vector);
    if c.sps.len() < 32 {
        let n = c.sps.len() as u8;
        assert(n < 32 ==> 0xe0u8 | n == (0xe0 + n % 32) as u8) by (bit_vector);
    }
}

/// The size of a record is the number of bytes that `build` writes.
pub proof fn lemma_config_size(c: AvcConfigView)
    ensures
        c.spec_size() == c.spec_bytes().len(),
{
    lemma_unit_bytes_len(c.sps);
    lemma_unit_bytes_len(c.pps);
    if let Some(e) = c.extended_config {
        lemma_unit_bytes_len(e.sequence_parameter_set_ext);
    }
}

/// Reads `count` NAL units, each behind a big-endian 16-bit length.
fn parse_units(cur: &mut ByteCursor, count: u8) -> (r: Result<Vec<Vec<u8>>, IoError>)
    requires
        old(cur).wf(),
    ensures
        final(cur).wf(),
        final(cur).data@ == old(cur).data@,
        match r {
            Ok(v) => final(cur).pos >= old(cur).pos && spec_nal_units(old(cur).rest(), count as nat)
                == Ok::<(Seq<Seq<u8>>, nat), IoError>(
                (units_view(v@), (final(cur).pos - old(cur).pos) as nat),
            ),
            Err(e) => spec_nal_units(old(cur).rest(), count as nat) == Err::<
                (Seq<Seq<u8>>, nat),
                IoError,
            >(e),
        },
{
    let ghost s = cur.rest();
    let ghost start = cur.pos;
    let mut v: Vec<Vec<u8>> = Vec::new();
    let mut i: u8 = 0;
    assert(units_view(v@) =~= Seq::<Seq<u8>>::empty());
    while i < count
        invariant
            cur.wf(),
            cur.data@ == old(cur).data@,
            start == old(cur).pos,
            s == old(cur).rest(),
            start <= cur.pos,
            i <= count,
            spec_nal_units(s, i as nat) == Ok::<(Seq<Seq<u8>>, nat), IoError>(
                (units_view(v@), (cur.pos - start) as nat),
            ),
        decreases count - i,
    {
        let ghost used = (cur.pos - start) as nat;
        assert(cur.rest() =~= s.subrange(used as int, s.len() as int));
        let len = match cur.read_u16_be() {
            Ok(l) => l,
            Err(e) => {
                proof {
                    lemma_nal_units_err(s, (i + 1) as nat, count as nat);
                }
                return Err(e);
            },
        };
        let ghost t = s.subrange(used as int, s.len() as int);
        assert(cur.rest() =~= t.subrange(2, t.len() as int));
        let data = match cur.extract_bytes(len as usize) {
            Ok(d) => d,
            Err(e) => {
                proof {
                    lemma_nal_units_err(s, (i + 1) as nat, count as nat);
                }
                return Err(e);
            },
        };
        assert(data@ =~= t.subrange(2, 2 + be16(t) as int));
        let ghost before = v@;
        v.push(data);
        assert(units_view(v@) =~= units_view(before).push(t.subrange(2, 2 + be16(t) as int)));
        i = i + 1;
    }
    Ok(v)
}

/// Appends the bytes of `src` to `out`.
fn push_all(out: &mut Vec<u8>, src: &Vec<u8>)
    ensures
        final(out)@ == old(out)@ + src@,
{
    let mut i: usize = 0;
    while i < src.len()
        invariant
            i <= src.len(),
            out@ == old(out)@ + src@.subrange(0, i as int),
        decreases src.len() - i,
    {
        out.push(src[i]);
        i = i + 1;
        assert(out@ =~= old(out)@ + src@.subrange(0, i as int));
    }
    assert(src@.subrange(0, src.len() as int) =~= src@);
}

/// Appends NAL units, each behind its length as two big-endian bytes (modulo 2^16).
fn write_units(units: &Vec<Vec<u8>>, out: &mut Vec<u8>)
    ensures
        final(out)@ == old(out)@ + unit_bytes(units_view(units@)),
{
    let mut i: usize = 0;
    while i < units.len()
        invariant
            i <= units.len(),
            out@ == old(out)@ + unit_bytes(units_view(units@).subrange(0, i as int)),
        decreases units.len() - i,
    {
        let u = &units[i];
        let len: usize = u.len();
        let hi: u8 = ((len / 256) % 256) as u8;
        let lo: u8 = (len % 256) as u8;
        let ghost before = out@;
        out.push(hi);
        out.push(lo);
        push_all(out, u);
        let ghost us = units_view(units@).subrange(0, i + 1);
        assert(us.drop_last() =~= units_view(units@).subrange(0, i as int));
        assert(us.last() == u@);
        assert((len % 0x1_0000) / 256 == (len / 256) % 256) by (nonlinear_arith);
        assert((len % 0x1_0000) % 256 == len % 256) by (nonlinear_arith);
        assert(u16_be(us.last().len() % 0x1_0000) =~= seq![hi, lo]);
        assert(out@ =~= before + u16_be(us.last().len() % 0x1_0000) + us.last());
        i = i + 1;
    }
    assert(units_view(units@).subrange(0, units.len() as int) =~= units_view(units@));
}

/// The number of bytes of `units` behind their lengths.
fn units_byte_size(units: &Vec<Vec<u8>>) -> (r: u64)
    requires
        units_size(units_view(units@)) <= u64::MAX,
    ensures
        r == units_size(units_view(units@)),
{
    let mut total: u64 = 0;
    let mut i: usize = 0;
    while i < units.len()
        invariant
            i <= units.len(),
            units_size(units_view(units@)) <= u64::MAX,
            total == units_size(units_view(units@).subrange(0, i as int)),
        decreases units.len() - i,
    {
        let ghost us = units_view(units@).subrange(0, i + 1);
        assert(us.drop_last() =~= units_view(units@).subrange(0, i as int));
        proof {
            lemma_units_size_prefix(units_view(units@), i + 1);
        }
        total = total + 2 + units[i].len() as u64;
        i = i + 1;
    }
    assert(units_view(units@).subrange(0, units.len() as int) =~= units_view(units@));
    total
}

/// The size of a prefix of the units is at most the size of them all.
pub proof fn lemma_units_size_prefix(us: Seq<Seq<u8>>, k: int)
    requires
        0 <= k <= us.len(),
    ensures
        units_size(us.subrange(0, k)) <= units_size(us),
    decreases us.len() - k,
{
    if k < us.len() {
        lemma_units_size_prefix(us, k + 1);
        assert(us.subrange(0, k + 1).drop_last() =~= us.subrange(0, k));
    } else {
        assert(us.subrange(0, k) =~= us);
    }
}

impl AVCDecoderConfigurationRecord {
    /// Reads a record from the cursor. The masked fields keep only their low bits; for profiles
    /// other than 66, 77 and 88 the extended part is read when any byte remains.
    pub fn parse(cur: &mut ByteCursor) -> (r: Result<Self, IoError>)
        requires
            old(cur).wf(),
        ensures
            final(cur).wf(),
            final(cur).data@ == old(cur).data@,
            match r {
                Ok(c) => final(cur).pos >= old(cur).pos && spec_config(old(cur).rest()) == Ok::<
                    (AvcConfigView, nat),
                    IoError,
                >((c@, (final(cur).pos - old(cur).pos) as nat)),
                Err(e) => spec_config(old(cur).rest()) == Err::<(AvcConfigView, nat), IoError>(e),
            },
            r matches Ok(c) ==> c.configuration_version == old(cur).rest()[0] && c.profile_indication
                == old(cur).rest()[1] && c.profile_compatibility == old(cur).rest()[2]
                && c.level_indication == old(cur).rest()[3],
    {
        let ghost s = cur.rest();
        let ghost start = cur.pos;
        if cur.remaining() < 6 {
            return Err(IoError::UnexpectedEof);
        }
        let configuration_version = cur.read_u8()?;
        let profile_indication = cur.read_u8()?;
        let profile_compatibility = cur.read_u8()?;
        let level_indication = cur.read_u8()?;
        let b4 = cur.read_u8()?;
        let b5 = cur.read_u8()?;
        let length_size_minus_one = b4 & 0b0000_0011;
        let num_sps = b5 & 0b0001_1111;
        assert(b4 & 3 == b4 % 4) by (bit_vector);
        assert(b5 & 31 == b5 % 32) by (bit_vector);
        assert(cur.rest() =~= s.subrange(6, s.len() as int));
        let sps = parse_units(cur, num_sps)?;
        let ghost p = (cur.pos - start) as nat;
        proof {
            lemma_nal_units_len(s.subrange(6, s.len() as int), num_sps as nat);
        }
        assert(cur.rest() =~= s.subrange(p as int, s.len() as int));
        let num_pps = cur.read_u8()?;
        assert(cur.rest() =~= s.subrange((p + 1) as int, s.len() as int));
        let pps = parse_units(cur, num_pps)?;
        let ghost q = (cur.pos - start) as nat;
        proof {
            lemma_nal_units_len(s.subrange((p + 1) as int, s.len() as int), num_pps as nat);
        }
        assert(cur.rest() =~= s.subrange(q as int, s.len() as int));
        let extended_config = parse_ext(cur, profile_indication)?;
        let r = AVCDecoderConfigurationRecord {
            configuration_version,
            profile_indication,
            profile_compatibility,
            level_indication,
            length_size_minus_one,
            sps,
            pps,
            extended_config,
        };
        proof {
            lemma_config_from_bytes(s);
        }
        Ok(r)
    }

    /// The size in bytes of the record as `build` writes it.
    pub fn size(&self) -> (r: u64)
        requires
            self@.spec_size() <= u64::MAX,
        ensures
            r == self@.spec_size(),
    {
        let sps_size = units_byte_size(&self.sps);
        let pps_size = units_byte_size(&self.pps);
        let ext_size: u64 = match &self.extended_config {
            Some(config) => 4 + units_byte_size(&config.sequence_parameter_set_ext),
            None => 0,
        };
        7 + sps_size + pps_size + ext_size
    }

    /// Appends the bytes of the record to `out`.
    pub fn build(&self, out: &mut Vec<u8>)
        ensures
            final(out)@ == old(out)@ + self@.spec_bytes(),
            final(out)@[old(out)@.len() as int] == self.configuration_version,
            final(out)@[old(out)@.len() as int + 1] == self.profile_indication,
            final(out)@[old(out)@.len() as int + 2] == self.profile_compatibility,
            final(out)@[old(out)@.len() as int + 3] == self.level_indication,
    {
        let ghost o = out@;
        out.push(self.configuration_version);
        out.push(self.profile_indication);
        out.push(self.profile_compatibility);
        out.push(self.level_indication);
        let lsm1 = self.length_size_minus_one;
        let b4: u8 = 0b1111_1100 | (lsm1 & 0b11);
        assert(0xfc | (lsm1 & 3) == 0xfc + lsm1 % 4) by (bit_vector);
        out.push(b4);
        let n_sps: u8 = (self.sps.len() % 32) as u8;
        let b5: u8 = 0b1110_0000 | n_sps;
        assert(n_sps < 32 ==> 0xe0 | n_sps == 0xe0 + n_sps) by (bit_vector);
        out.push(b5);
        let ghost head = seq![
            self.configuration_version,
            self.profile_indication,
            self.profile_compatibility,
            self.level_indication,
            b4,
            b5,
        ];
        assert(out@ =~= o + head);
        write_units(&self.sps, out);
        let n_pps: u8 = (self.pps.len() % 256) as u8;
        out.push(n_pps);
        write_units(&self.pps, out);
        let ghost mid = out@;
        if let Some(config) = &self.extended_config {
            let c = config.chroma_format_idc;
            let l = config.bit_depth_luma_minus8;
            let d = config.bit_depth_chroma_minus8;
            assert(0xfc | (c & 3) == 0xfc + c % 4) by (bit_vector);
            assert(0xf8 | (l & 7) == 0xf8 + l % 8) by (bit_vector);
            assert(0xf8 | (d & 7) == 0xf8 + d % 8) by (bit_vector);
            out.push(0b1111_1100 | (c & 0b11));
            out.push(0b1111_1000 | (l & 0b111));
            out.push(0b1111_1000 | (d & 0b111));
            out.push((config.sequence_parameter_set_ext.len() % 256) as u8);
            write_units(&config.sequence_parameter_set_ext, out);
            assert(out@ =~= mid + config@.spec_bytes());
        }
        assert(out@ =~= o + self@.spec_bytes());
        proof {
            lemma_config_bytes_layout(self@);
        }
    }
}

/// Reads the extended part: none for profiles 66, 77 and 88 or when nothing remains.
fn parse_ext(cur: &mut ByteCursor, profile: u8) -> (r: Result<Option<AvccExtendedConfig>, IoError>)
    requires
        old(cur).wf(),
    ensures
        final(cur).wf(),
        final(cur).data@ == old(cur).data@,
        match r {
            Ok(e) => final(cur).pos >= old(cur).pos && spec_ext_config(old(cur).rest(), profile)
                == Ok::<(Option<AvccExtendedConfigView>, nat), IoError>(
                (
                    match e {
                        Some(x) => Some(x@),
                        None => None,
                    },
                    (final(cur).pos - old(cur).pos) as nat,
                ),
            ),
            Err(e) => spec_ext_config(old(cur).rest(), profile) == Err::<
                (Option<AvccExtendedConfigView>, nat),
                IoError,
            >(e),
        },
{
    if profile == 66 || profile == 77 || profile == 88 || !cur.has_remaining() {
        return Ok(None);
    }
    let ghost t = cur.rest();
    if cur.remaining() < 4 {
        return Err(IoError::UnexpectedEof);
    }
    let c = cur.read_u8()?;
    let l = cur.read_u8()?;
    let d = cur.read_u8()?;
    let n = cur.read_u8()?;
    assert(c & 3 == c % 4) by (bit_vector);
    assert(l & 7 == l % 8) by (bit_vector);
    assert(d & 7 == d % 8) by (bit_vector);
    assert(cur.rest() =~= t.subrange(4, t.len() as int));
    let units = parse_units(cur, n)?;
    Ok(
        Some(
            AvccExtendedConfig {
                chroma_format_idc: c & 0b11,
                bit_depth_luma_minus8: l & 0b111,
                bit_depth_chroma_minus8: d & 0b111,
                sequence_parameter_set_ext: units,
            },
        ),
    )
}

} // verus!
