//! The sequence parameter set extension: chroma format, bit depths and scaling matrices.
use vstd::prelude::*;

use crate::bits::{bit_at, read_result_view, BitReader, BitWriter};
use crate::error::IoError;
use crate::expgolomb::{
    read_exp_golomb, read_signed_exp_golomb, se_at, ue_at, ue_bits, write_exp_golomb,
    write_signed_exp_golomb,
};
use crate::h264::sps_parts::se_list_bits;

verus! {

/// The part of a sequence parameter set that profiles 44, 83, 86, 100, 110, 118, 122, 128,
/// 134, 135, 138, 139 and 244 carry. ISO/IEC-14496-10-2022 - 7.3.2.1.1
#[derive(Debug, Clone, PartialEq, Eq)]
pub struct SpsExtended {
    /// `chroma_format_idc`.
    pub chroma_format_idc: u8,
    /// `separate_colour_plane_flag`; present only when `chroma_format_idc` is 3.
    pub separate_color_plane_flag: bool,
    /// `bit_depth_luma_minus8`.
    pub bit_depth_luma_minus8: u8,
    /// `bit_depth_chroma_minus8`.
    pub bit_depth_chroma_minus8: u8,
    /// `qpprime_y_zero_transform_bypass_flag`.
    pub qpprime_y_zero_transform_bypass_flag: bool,
    /// The scaling lists, as their delta values; empty when `seq_scaling_matrix_present_flag`
    /// is not set.
    pub scaling_matrix: Vec<Vec<i64>>,
}

/// The mathematical value of an [`SpsExtended`].
pub struct SpsExtendedView {
    pub chroma_format_idc: u8,
    pub separate_color_plane_flag: bool,
    pub bit_depth_luma_minus8: u8,
    pub bit_depth_chroma_minus8: u8,
    pub qpprime_y_zero_transform_bypass_flag: bool,
    pub scaling_matrix: Seq<Seq<i64>>,
}

impl View for SpsExtended {
    type V = SpsExtendedView;

    open spec fn view(&self) -> SpsExtendedView {
        SpsExtendedView {
            chroma_format_idc: self.chroma_format_idc,
            separate_color_plane_flag: self.separate_color_plane_flag,
            bit_depth_luma_minus8: self.bit_depth_luma_minus8,
            bit_depth_chroma_minus8: self.bit_depth_chroma_minus8,
            qpprime_y_zero_transform_bypass_flag: self.qpprime_y_zero_transform_bypass_flag,
            scaling_matrix: self.scaling_matrix@.map_values(|v: Vec<i64>| v@),
        }
    }
}

/// Rust's remainder for a divisor of 256: it takes the sign of the dividend.
pub open spec fn rem256(a: int) -> int {
    if a >= 0 {
        a % 256
    } else {
        -((-a) % 256)
    }
}

/// Puts `acc` in front of what a read gave.
pub open spec fn prepend<T>(acc: Seq<T>, r: Result<(Seq<T>, int), IoError>) -> Result<
    (Seq<T>, int),
    IoError,
> {
    match r {
        Ok((rest, q)) => Ok((acc + rest, q)),
        Err(e) => Err(e),
    }
}

/// Reads at most `remaining` delta values of a scaling list; the list ends early once the
/// running scale `next_scale` becomes zero.
pub open spec fn spec_scaling_list(b: Seq<bool>, p: int, remaining: nat, next_scale: int) -> Result<
    (Seq<i64>, int),
    IoError,
>
    decreases remaining,
{
    if remaining == 0 {
        Ok((seq![], p))
    } else {
        match se_at(b, p) {
            Err(e) => Err(e),
            Ok((d, p1)) => {
                let ns = rem256(next_scale + d + 256);
                if ns == 0 {
                    Ok((seq![d], p1))
                } else {
                    prepend(seq![d], spec_scaling_list(b, p1, (remaining - 1) as nat, ns))
                }
            },
        }
    }
}

/// The number of delta values a full scaling list has: 16 for the first six, 64 after.
pub open spec fn scaling_list_size(i: nat) -> nat {
    if i < 6 {
        16
    } else {
        64
    }
}

/// Reads the scaling lists `i` to `count - 1`: each is a presence bit and, when set, its deltas.
pub open spec fn spec_scaling_lists(b: Seq<bool>, p: int, i: nat, count: nat) -> Result<
    (Seq<Seq<i64>>, int),
    IoError,
>
    decreases count - i,
{
    if i >= count {
        Ok((seq![], p))
    } else {
        match bit_at(b, p) {
            Err(e) => Err(e),
            Ok((present, p1)) => {
                let list = if present {
                    spec_scaling_list(b, p1, scaling_list_size(i), 8)
                } else {
                    Ok((seq![], p1))
                };
                match list {
                    Err(e) => Err(e),
                    Ok((l, p2)) => prepend(seq![l], spec_scaling_lists(b, p2, i + 1, count)),
                }
            },
        }
    }
}

/// Reads an SPS extension.
pub open spec fn spec_sps_extended(b: Seq<bool>, p: int) -> Result<(SpsExtendedView, int), IoError> {
    match ue_at(b, p) {
        Err(e) => Err(e),
        Ok((cf, p1)) => {
            let chroma = cf as u8;
            match (if chroma == 3 {
                bit_at(b, p1)
            } else {
                Ok((false, p1))
            }) {
                Err(e) => Err(e),
                Ok((sep, p2)) => match ue_at(b, p2) {
                    Err(e) => Err(e),
                    Ok((luma, p3)) => match ue_at(b, p3) {
                        Err(e) => Err(e),
                        Ok((cd, p4)) => match bit_at(b, p4) {
                            Err(e) => Err(e),
                            Ok((bypass, p5)) => match bit_at(b, p5) {
                                Err(e) => Err(e),
                                Ok((present, p6)) => match (if present {
                                    spec_scaling_lists(
                                        b,
                                        p6,
                                        0,
                                        if chroma != 3 {
                                            8
                                        } else {
                                            12
                                        },
                                    )
                                } else {
                                    Ok((seq![], p6))
                                }) {
                                    Err(e) => Err(e),
                                    Ok((m, p7)) => Ok(
                                        (
                                            SpsExtendedView {
                                                chroma_format_idc: chroma,
                                                separate_color_plane_flag: sep,
                                                bit_depth_luma_minus8: luma as u8,
                                                bit_depth_chroma_minus8: cd as u8,
                                                qpprime_y_zero_transform_bypass_flag: bypass,
                                                scaling_matrix: m,
                                            },
                                            p7,
                                        ),
                                    ),
                                },
                            },
                        },
                    },
                },
            }
        },
    }
}

/// The bits of the scaling lists: for each, a presence bit and its deltas.
pub open spec fn scaling_matrix_bits(m: Seq<Seq<i64>>) -> Seq<bool>
    decreases m.len(),
{
    if m.len() == 0 {
        seq![]
    } else {
        scaling_matrix_bits(m.drop_last()) + seq![m.last().len() > 0] + se_list_bits(m.last())
    }
}

impl SpsExtendedView {
    /// The values can be written: no scaling delta is `i64::MIN`.
    pub open spec fn writable(&self) -> bool {
        forall|i: int, j: int|
            0 <= i < self.scaling_matrix.len() && 0 <= j < self.scaling_matrix[i].len()
                ==> #[trigger] self.scaling_matrix[i][j] > i64::MIN
    }

    /// The bits that `build` writes.
    pub open spec fn spec_bits(&self) -> Seq<bool> {
        ue_bits(self.chroma_format_idc as u64) + (if self.chroma_format_idc == 3 {
            seq![self.separate_color_plane_flag]
        } else {
            seq![]
        }) + ue_bits(self.bit_depth_luma_minus8 as u64) + ue_bits(
            self.bit_depth_chroma_minus8 as u64,
        ) + seq![self.qpprime_y_zero_transform_bypass_flag] + seq![self.scaling_matrix.len() > 0]
            + scaling_matrix_bits(self.scaling_matrix)
    }
}

/// Reads one scaling list of at most `size` deltas.
fn parse_scaling_list(reader: &mut BitReader, size: usize) -> (r: Result<Vec<i64>, IoError>)
    requires
        old(reader).wf(),
    ensures
        final(reader).wf(),
        final(reader).data@ == old(reader).data@,
        read_result_view(
            spec_scaling_list(old(reader).bits(), old(reader).pos as int, size as nat, 8),
            r,
            final(reader).pos as int,
        ),
{
    let ghost b = reader.bits();
    let ghost p0 = reader.pos as int;
    let mut list: Vec<i64> = Vec::new();
    let mut next_scale: i64 = 8;
    let mut j: usize = 0;
    loop
        invariant_except_break
            j <= size,
            -255 <= next_scale <= 255,
            next_scale != 0,
            spec_scaling_list(b, p0, size as nat, 8) == prepend(
                list@,
                spec_scaling_list(b, reader.pos as int, (size - j) as nat, next_scale as int),
            ),
        invariant
            reader.wf(),
            reader.data@ == old(reader).data@,
            b == reader.bits(),
            p0 == old(reader).pos,
        ensures
            spec_scaling_list(b, p0, size as nat, 8) == Ok::<(Seq<i64>, int), IoError>(
                (list@, reader.pos as int),
            ),
        decreases size - j,
    {
        if j >= size {
            assert(list@ + seq![] =~= list@);
            break ;
        }
        let ghost before = list@;
        let ghost pos = reader.pos as int;
        let d = read_signed_exp_golomb(reader)?;
        list.push(d);
        let t: i128 = next_scale as i128 + d as i128 + 256;
        let ns: i128 = if t >= 0 {
            ((t as u128) % 256) as i128
        } else {
            -((((0 - t) as u128) % 256) as i128)
        };
        assert(ns == rem256(next_scale + d + 256));
        next_scale = ns as i64;
        j = j + 1;
        if next_scale == 0 {
            assert(before + seq![d] =~= list@);
            break ;
        }
        proof {
            let r = spec_scaling_list(b, reader.pos as int, (size - j) as nat, next_scale as int);
            assert(prepend(before, prepend(seq![d], r)) == prepend(list@, r)) by {
                assert(before + seq![d] =~= list@);
                match r {
                    Ok((rest, q)) => {
                        assert(before + (seq![d] + rest) =~= list@ + rest);
                    },
                    Err(_) => {},
                }
            }
        }
    }
    Ok(list)
}

/// Writes the signed Exp-Golomb codes of a list.
pub fn write_se_list(writer: &mut BitWriter, list: &Vec<i64>)
    requires
        old(writer).wf(),
        forall|j: int| 0 <= j < list@.len() ==> #[trigger] list@[j] > i64::MIN,
    ensures
        final(writer).wf(),
        final(writer).bits() == old(writer).bits() + se_list_bits(list@),
{
    let mut j: usize = 0;
    assert(old(writer).bits() + se_list_bits(list@.subrange(0, 0)) =~= old(writer).bits());
    while j < list.len()
        invariant
            writer.wf(),
            forall|j: int| 0 <= j < list@.len() ==> #[trigger] list@[j] > i64::MIN,
            j <= list.len(),
            writer.bits() == old(writer).bits() + se_list_bits(list@.subrange(0, j as int)),
        decreases list.len() - j,
    {
        write_signed_exp_golomb(writer, list[j]);
        assert(list@.subrange(0, j + 1).drop_last() =~= list@.subrange(0, j as int));
        j = j + 1;
        assert(writer.bits() =~= old(writer).bits() + se_list_bits(list@.subrange(0, j as int)));
    }
    assert(list@.subrange(0, j as int) =~= list@);
}

impl SpsExtended {
    /// The default values of ISO/IEC-14496-10-2022 - 7.4.2.1.1: `chroma_format_idc` is 1,
    /// everything else zero or empty.
    pub fn default() -> (r: Self)
        ensures
            r@ == (SpsExtendedView {
                chroma_format_idc: 1,
                separate_color_plane_flag: false,
                bit_depth_luma_minus8: 0,
                bit_depth_chroma_minus8: 0,
                qpprime_y_zero_transform_bypass_flag: false,
                scaling_matrix: seq![],
            }),
    {
        let r = SpsExtended {
            chroma_format_idc: 1,
            separate_color_plane_flag: false,
            bit_depth_luma_minus8: 0,
            bit_depth_chroma_minus8: 0,
            qpprime_y_zero_transform_bypass_flag: false,
            scaling_matrix: Vec::new(),
        };
        assert(r@.scaling_matrix =~= seq![]);
        r
    }

    /// Parses an extended SPS from a bitstream.
    #[verifier::loop_isolation(false)]
    pub fn parse(reader: &mut BitReader) -> (r: Result<Self, IoError>)
        requires
            old(reader).wf(),
        ensures
            final(reader).wf(),
            final(reader).data@ == old(reader).data@,
            read_result_view(
                spec_sps_extended(old(reader).bits(), old(reader).pos as int),
                r,
                final(reader).pos as int,
            ),
    {
        let ghost b = reader.bits();
        let chroma_format_idc = read_exp_golomb(reader)? as u8;
        let mut separate_color_plane_flag = false;
        if chroma_format_idc == 3 {
            separate_color_plane_flag = reader.read_bit()?;
        }
        let bit_depth_luma_minus8 = read_exp_golomb(reader)? as u8;
        let bit_depth_chroma_minus8 = read_exp_golomb(reader)? as u8;
        let qpprime_y_zero_transform_bypass_flag = reader.read_bit()?;
        let seq_scaling_matrix_present_flag = reader.read_bit()?;
        let mut scaling_matrix: Vec<Vec<i64>> = Vec::new();
        let ghost p6 = reader.pos as int;
        if seq_scaling_matrix_present_flag {
            let count: usize = if chroma_format_idc != 3 {
                8
            } else {
                12
            };
            let mut i: usize = 0;
            while i < count
                invariant
                    reader.wf(),
                    reader.data@ == old(reader).data@,
                    b == reader.bits(),
                    i <= count,
                    spec_scaling_lists(b, p6, 0, count as nat) == prepend(
                        scaling_matrix@.map_values(|v: Vec<i64>| v@),
                        spec_scaling_lists(b, reader.pos as int, i as nat, count as nat),
                    ),
                decreases count - i,
            {
                let ghost before = scaling_matrix@.map_values(|v: Vec<i64>| v@);
                let bit = reader.read_bit()?;
                let list = if bit {
                    let size: usize = if i < 6 {
                        16
                    } else {
                        64
                    };
                    parse_scaling_list(reader, size)?
                } else {
                    let empty: Vec<i64> = Vec::new();
                    assert(empty@ =~= seq![]);
                    empty
                };
                let ghost l = list@;
                scaling_matrix.push(list);
                i = i + 1;
                proof {
                    let now = scaling_matrix@.map_values(|v: Vec<i64>| v@);
                    assert(now =~= before + seq![l]);
                    let r = spec_scaling_lists(b, reader.pos as int, i as nat, count as nat);
                    match r {
                        Ok((rest, q)) => {
                            assert(before + (seq![l] + rest) =~= now + rest);
                        },
                        Err(_) => {},
                    }
                }
            }
            proof {
                let m = scaling_matrix@.map_values(|v: Vec<i64>| v@);
                assert(m + seq![] =~= m);
            }
        } else {
            assert(scaling_matrix@.map_values(|v: Vec<i64>| v@) =~= seq![]);
        }
        Ok(SpsExtended {
            chroma_format_idc,
            separate_color_plane_flag,
            bit_depth_luma_minus8,
            bit_depth_chroma_minus8,
            qpprime_y_zero_transform_bypass_flag,
            scaling_matrix,
        })
    }

    /// Writes the extension.
    #[verifier::spinoff_prover]
    #[verifier::rlimit(30)]
    pub fn build(&self, writer: &mut BitWriter)
        requires
            old(writer).wf(),
            self@.writable(),
        ensures
            final(writer).wf(),
            final(writer).bits() == old(writer).bits() + self@.spec_bits(),
    {
        let ghost b0 = writer.bits();
        write_exp_golomb(writer, self.chroma_format_idc as u64);
        if self.chroma_format_idc == 3 {
            writer.write_bit(self.separate_color_plane_flag);
        }
        write_exp_golomb(writer, self.bit_depth_luma_minus8 as u64);
        write_exp_golomb(writer, self.bit_depth_chroma_minus8 as u64);
        writer.write_bit(self.qpprime_y_zero_transform_bypass_flag);
        writer.write_bit(self.scaling_matrix.len() > 0);
        let ghost b1 = writer.bits();
        proof {
            let v = self@;
            assert forall|i: int, j: int|
                0 <= i < self.scaling_matrix@.len() && 0 <= j < self.scaling_matrix@[i]@.len()
                    implies #[trigger] self.scaling_matrix@[i]@[j] > i64::MIN by {
                assert(v.scaling_matrix[i] == self.scaling_matrix@[i]@);
                assert(v.scaling_matrix[i][j] > i64::MIN);
            }
        }
        write_scaling_matrix(writer, &self.scaling_matrix);
        proof {
            let v = self@;
            let head = ue_bits(v.chroma_format_idc as u64) + (if v.chroma_format_idc == 3 {
                seq![v.separate_color_plane_flag]
            } else {
                seq![]
            }) + ue_bits(v.bit_depth_luma_minus8 as u64) + ue_bits(v.bit_depth_chroma_minus8 as u64)
                + seq![v.qpprime_y_zero_transform_bypass_flag] + seq![v.scaling_matrix.len() > 0];
            assert(b1 =~= b0 + head);
            assert(v.spec_bits() == head + scaling_matrix_bits(v.scaling_matrix));
            assert(writer.bits() =~= b0 + v.spec_bits());
        }
    }
}

/// Writes the scaling lists: for each, a presence bit and its deltas.
fn write_scaling_matrix(writer: &mut BitWriter, matrix: &Vec<Vec<i64>>)
    requires
        old(writer).wf(),
        forall|i: int, j: int|
            0 <= i < matrix@.len() && 0 <= j < matrix@[i]@.len() ==> #[trigger] matrix@[i]@[j]
                > i64::MIN,
    ensures
        final(writer).wf(),
        final(writer).bits() == old(writer).bits() + scaling_matrix_bits(
            matrix@.map_values(|v: Vec<i64>| v@),
        ),
{
    let ghost m = matrix@.map_values(|v: Vec<i64>| v@);
    let mut i: usize = 0;
    assert(old(writer).bits() + scaling_matrix_bits(m.subrange(0, 0)) =~= old(writer).bits());
    while i < matrix.len()
        invariant
            writer.wf(),
            forall|i: int, j: int|
                0 <= i < matrix@.len() && 0 <= j < matrix@[i]@.len() ==> #[trigger] matrix@[i]@[j]
                    > i64::MIN,
            m == matrix@.map_values(|v: Vec<i64>| v@),
            i <= matrix.len(),
            writer.bits() == old(writer).bits() + scaling_matrix_bits(m.subrange(0, i as int)),
        decreases matrix.len() - i,
    {
        let list = &matrix[i];
        let ghost before = writer.bits();
        writer.write_bit(list.len() > 0);
        assert forall|j: int| 0 <= j < list@.len() implies #[trigger] list@[j] > i64::MIN by {
            assert(matrix@[i as int]@[j] > i64::MIN);
        }
        write_se_list(writer, list);
        proof {
            assert(m[i as int] == list@);
            assert(m.subrange(0, i + 1).drop_last() =~= m.subrange(0, i as int));
            assert(m.subrange(0, i + 1).last() == list@);
        }
        i = i + 1;
        assert(writer.bits() =~= old(writer).bits() + scaling_matrix_bits(m.subrange(0, i as int)));
    }
    assert(m.subrange(0, i as int) =~= m);
}

} // verus!
