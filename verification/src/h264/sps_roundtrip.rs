//! What parsing reads back of what building writes: the bit readers of the sequence parameter
//! set read back the bits of its writers.
use vstd::prelude::*;

use crate::bits::{bit_at, bits_at, bits_of_bytes, lemma_bits_of_bytes_injective, lemma_byte_at_bytes, bits_value, byte_at, repeat_bit, lemma_nat_bits_value, lemma_p2_64, lemma_p2_mono, nat_bits, p2};
use crate::error::IoError;
use crate::h264::emulation::rbsp;
use crate::expgolomb::{first_one, lemma_se_roundtrip, lemma_ue_roundtrip, se_at, se_bits, ue_at, ue_bits};
use crate::h264::enums::{lemma_h264_numbers_kept, AspectRatioIdc, NALUnitType, VideoFormat};
use crate::h264::sps::{
    blank_sps_view, chroma_format_of, optional_part, has_sps_ext, spec_sps, spec_sps_from_bits, present_bits, spec_sps_vui, spec_vui_first, spec_vui_second,
    vui_parts_bits, reads_flag4, reads_flag5, skips_flags012, spec_constraint_flags,
    spec_sps_ext_stage, spec_sps_frame, spec_sps_head, spec_sps_order, SpsView,
};
use crate::h264::sps_ext::{
    rem256, scaling_list_size, scaling_matrix_bits, spec_scaling_list, spec_scaling_lists,
    spec_sps_extended, SpsExtendedView,
};
use crate::h264::sps_parts::{
    se_list_bits, spec_chroma_sample_loc, spec_color_config, spec_frame_crop_info,
    spec_pic_order_count_type1, spec_sar_dimensions, spec_se_list, spec_timing_info, ChromaSampleLoc,
    ColorConfig, FrameCropInfo, PicOrderCountType1View, SarDimensions, TimingInfo,
};

verus! {

/// The bits `x` stand in `b` from position `p` on.
pub open spec fn window(b: Seq<bool>, p: int, x: Seq<bool>) -> bool {
    &&& 0 <= p
    &&& p + x.len() <= b.len()
    &&& b.subrange(p, p + x.len()) == x
}

/// A window of `x + y` is a window of `x` followed by a window of `y`.
pub proof fn lemma_window_split(b: Seq<bool>, p: int, x: Seq<bool>, y: Seq<bool>)
    requires
        window(b, p, x + y),
    ensures
        window(b, p, x),
        window(b, p + x.len(), y),
{
    let w = b.subrange(p, p + x.len() + y.len());
    assert forall|i: int| 0 <= i < x.len() implies b.subrange(p, p + x.len())[i] == x[i] by {
        assert(w[i] == (x + y)[i]);
    }
    assert(b.subrange(p, p + x.len()) =~= x);
    assert forall|i: int| 0 <= i < y.len() implies b.subrange(p + x.len(), p + x.len() + y.len())[i]
        == y[i] by {
        assert(w[x.len() + i] == (x + y)[x.len() + i]);
    }
    assert(b.subrange(p + x.len(), p + x.len() + y.len()) =~= y);
}

/// Reading a bit in a window of that bit.
pub proof fn lemma_bit_window(b: Seq<bool>, p: int, x: bool)
    requires
        window(b, p, seq![x]),
    ensures
        bit_at(b, p) == Ok::<(bool, int), IoError>((x, p + 1)),
{
    assert(b[p] == b.subrange(p, p + 1)[0]);
}

/// Reading `n` bits in a window of the `n`-bit spelling of `v`.
pub proof fn lemma_bits_window(b: Seq<bool>, p: int, v: nat, n: nat)
    requires
        n <= 64,
        v < p2(n),
        window(b, p, nat_bits(v, n)),
    ensures
        bits_at(b, p, n) == Ok::<(u64, int), IoError>((v as u64, p + n)),
{
    lemma_nat_bits_value(v, n);
    lemma_p2_64();
    lemma_p2_mono(n, 64);
}

/// Reading a byte in a window of its eight bits.
pub proof fn lemma_byte_window(b: Seq<bool>, p: int, v: u8)
    requires
        window(b, p, nat_bits(v as nat, 8)),
    ensures
        byte_at(b, p) == Ok::<(u8, int), IoError>((v, p + 8)),
{
    lemma_p2_64();
    lemma_bits_window(b, p, v as nat, 8);
}

/// The first set bit from `p + i` on in `b` is the first one from `i` on in the rest of `b`
/// after `p`, moved by `p`.
proof fn lemma_first_one_shift(b: Seq<bool>, p: int, i: int)
    requires
        0 <= p <= b.len(),
        0 <= i,
    ensures
        first_one(b, p + i) == p + first_one(b.subrange(p, b.len() as int), i),
    decreases b.len() - (p + i),
{
    let c = b.subrange(p, b.len() as int);
    if p + i < b.len() {
        assert(b[p + i] == c[i]);
        if !b[p + i] {
            lemma_first_one_shift(b, p, i + 1);
        }
    }
}

/// Reading an unsigned Exp-Golomb code in a window of the code of `v`.
pub proof fn lemma_ue_window(b: Seq<bool>, p: int, v: u64)
    requires
        v < u64::MAX,
        window(b, p, ue_bits(v)),
    ensures
        ue_at(b, p) == Ok::<(u64, int), IoError>((v, p + ue_bits(v).len())),
{
    let k = ue_bits(v).len();
    let c = b.subrange(p, b.len() as int);
    let rest = c.subrange(k as int, c.len() as int);
    assert(c =~= ue_bits(v) + rest) by {
        assert forall|i: int| 0 <= i < k implies c[i] == ue_bits(v)[i] by {
            assert(c[i] == b.subrange(p, p + k)[i]);
        }
    }
    lemma_ue_roundtrip(v, rest);
    lemma_first_one_shift(b, p, 0);
    let q = first_one(b, p);
    let q1 = first_one(c, 0);
    let z = q - p;
    assert(q == p + q1);
    if q1 + 1 + z <= c.len() {
        assert(b.subrange(q, q + 1 + z) =~= c.subrange(q1, q1 + 1 + z));
    }
}

/// Reading a signed Exp-Golomb code in a window of the code of `v`.
pub proof fn lemma_se_window(b: Seq<bool>, p: int, v: i64)
    requires
        v > i64::MIN,
        window(b, p, se_bits(v)),
    ensures
        se_at(b, p) == Ok::<(i64, int), IoError>((v, p + se_bits(v).len())),
{
    let k = se_bits(v).len();
    let c = b.subrange(p, b.len() as int);
    let rest = c.subrange(k as int, c.len() as int);
    assert(c =~= se_bits(v) + rest) by {
        assert forall|i: int| 0 <= i < k implies c[i] == se_bits(v)[i] by {
            assert(c[i] == b.subrange(p, p + k)[i]);
        }
    }
    lemma_se_roundtrip(v, rest);
    lemma_ue_window(b, p, crate::expgolomb::se_code(v));
}

/// The crop offsets read back.
pub proof fn lemma_frame_crop_window(b: Seq<bool>, p: int, c: FrameCropInfo)
    requires
        c.writable(),
        window(b, p, c.spec_bits()),
    ensures
        spec_frame_crop_info(b, p) == Ok::<(FrameCropInfo, int), IoError>(
            (c, p + c.spec_bits().len()),
        ),
{
    let l = ue_bits(c.frame_crop_left_offset);
    let r = ue_bits(c.frame_crop_right_offset);
    let t = ue_bits(c.frame_crop_top_offset);
    let bo = ue_bits(c.frame_crop_bottom_offset);
    lemma_window_split(b, p, l + r + t, bo);
    lemma_window_split(b, p, l + r, t);
    lemma_window_split(b, p, l, r);
    lemma_ue_window(b, p, c.frame_crop_left_offset);
    lemma_ue_window(b, p + l.len(), c.frame_crop_right_offset);
    lemma_ue_window(b, p + l.len() + r.len(), c.frame_crop_top_offset);
    lemma_ue_window(b, p + l.len() + r.len() + t.len(), c.frame_crop_bottom_offset);
}

/// The aspect ratio reads back when its number names it and the sizes are zero unless the
/// number is 255.
pub open spec fn sar_canonical(s: SarDimensions) -> bool {
    &&& AspectRatioIdc::spec_from(s.aspect_ratio_idc.spec_value()) == s.aspect_ratio_idc
    &&& (s.aspect_ratio_idc.spec_value() != 255 ==> s.sar_width == 0 && s.sar_height == 0)
}

/// The aspect ratio reads back.
pub proof fn lemma_sar_window(b: Seq<bool>, p: int, s: SarDimensions)
    requires
        sar_canonical(s),
        window(b, p, s.spec_bits()),
    ensures
        spec_sar_dimensions(b, p) == Ok::<(SarDimensions, int), IoError>((s, p + s.spec_bits().len())),
{
    let idc = s.aspect_ratio_idc.spec_value();
    let ib = nat_bits(idc as nat, 8);
    lemma_p2_64();
    crate::bits::lemma_nat_bits_len(idc as nat, 8);
    if idc == 255 {
        let wb = nat_bits(s.sar_width as nat, 16);
        let hb = nat_bits(s.sar_height as nat, 16);
        assert(s.spec_bits() =~= ib + wb + hb);
        lemma_window_split(b, p, ib + wb, hb);
        lemma_window_split(b, p, ib, wb);
        lemma_nat_bits_value(idc as nat, 8);
        lemma_nat_bits_value(s.sar_width as nat, 16);
        lemma_nat_bits_value(s.sar_height as nat, 16);
        lemma_byte_window(b, p, idc);
        lemma_bits_window(b, p + 8, s.sar_width as nat, 16);
        lemma_bits_window(b, p + 24, s.sar_height as nat, 16);
    } else {
        assert(s.spec_bits() =~= ib);
        lemma_byte_window(b, p, idc);
    }
}

/// The colour description reads back when the video format names its number, which fits
/// three bits.
pub open spec fn color_canonical(c: ColorConfig) -> bool {
    &&& c.video_format.spec_value() < 8
    &&& VideoFormat::spec_from(c.video_format.spec_value()) == c.video_format
}

/// The colour description reads back.
pub proof fn lemma_color_window(b: Seq<bool>, p: int, c: ColorConfig)
    requires
        color_canonical(c),
        window(b, p, c.spec_bits()),
    ensures
        spec_color_config(b, p) == Ok::<(ColorConfig, int), IoError>((c, p + c.spec_bits().len())),
{
    let vf = c.video_format.spec_value();
    let vb = nat_bits(vf as nat, 3);
    assert(p2(3) == 8) by {
        reveal_with_fuel(p2, 4);
    }
    lemma_nat_bits_value(vf as nat, 3);
    let head = vb + seq![c.video_full_range_flag];
    if c.color_primaries == 2 && c.transfer_characteristics == 2 && c.matrix_coefficients == 2 {
        assert(c.spec_bits() =~= head + seq![false]);
        lemma_window_split(b, p, head, seq![false]);
        lemma_window_split(b, p, vb, seq![c.video_full_range_flag]);
        lemma_bits_window(b, p, vf as nat, 3);
        lemma_bit_window(b, p + 3, c.video_full_range_flag);
        lemma_bit_window(b, p + 4, false);
    } else {
        let cb = nat_bits(c.color_primaries as nat, 8);
        let tb = nat_bits(c.transfer_characteristics as nat, 8);
        let mb = nat_bits(c.matrix_coefficients as nat, 8);
        lemma_p2_64();
        lemma_nat_bits_value(c.color_primaries as nat, 8);
        lemma_nat_bits_value(c.transfer_characteristics as nat, 8);
        lemma_nat_bits_value(c.matrix_coefficients as nat, 8);
        lemma_p2_64();
        assert(c.spec_bits() =~= head + seq![true] + cb + tb + mb);
        lemma_window_split(b, p, head + seq![true] + cb + tb, mb);
        lemma_window_split(b, p, head + seq![true] + cb, tb);
        lemma_window_split(b, p, head + seq![true], cb);
        lemma_window_split(b, p, head, seq![true]);
        lemma_window_split(b, p, vb, seq![c.video_full_range_flag]);
        lemma_bits_window(b, p, vf as nat, 3);
        lemma_bit_window(b, p + 3, c.video_full_range_flag);
        lemma_bit_window(b, p + 4, true);
        lemma_byte_window(b, p + 5, c.color_primaries);
        lemma_byte_window(b, p + 13, c.transfer_characteristics);
        lemma_byte_window(b, p + 21, c.matrix_coefficients);
    }
}

/// The chroma sample locations read back.
pub proof fn lemma_chroma_loc_window(b: Seq<bool>, p: int, c: ChromaSampleLoc)
    requires
        window(b, p, c.spec_bits()),
    ensures
        spec_chroma_sample_loc(b, p) == Ok::<(ChromaSampleLoc, int), IoError>(
            (c, p + c.spec_bits().len()),
        ),
{
    let t = ue_bits(c.chroma_sample_loc_type_top_field as u64);
    lemma_window_split(b, p, t, ue_bits(c.chroma_sample_loc_type_bottom_field as u64));
    lemma_ue_window(b, p, c.chroma_sample_loc_type_top_field as u64);
    lemma_ue_window(b, p + t.len(), c.chroma_sample_loc_type_bottom_field as u64);
}

/// The timing reads back when neither of its values is zero.
pub proof fn lemma_timing_window(b: Seq<bool>, p: int, t: TimingInfo)
    requires
        t.num_units_in_tick != 0,
        t.time_scale != 0,
        window(b, p, t.spec_bits()),
    ensures
        spec_timing_info(b, p) == Ok::<(TimingInfo, int), IoError>((t, p + t.spec_bits().len())),
{
    lemma_p2_64();
    let nb = nat_bits(t.num_units_in_tick as nat, 32);
    lemma_nat_bits_value(t.num_units_in_tick as nat, 32);
    lemma_nat_bits_value(t.time_scale as nat, 32);
    lemma_window_split(b, p, nb, nat_bits(t.time_scale as nat, 32));
    lemma_bits_window(b, p, t.num_units_in_tick as nat, 32);
    lemma_bits_window(b, p + 32, t.time_scale as nat, 32);
}

/// A list of signed codes reads back.
pub proof fn lemma_se_list_window(b: Seq<bool>, p: int, l: Seq<i64>)
    requires
        forall|i: int| 0 <= i < l.len() ==> #[trigger] l[i] > i64::MIN,
        window(b, p, se_list_bits(l)),
    ensures
        spec_se_list(b, p, l.len()) == Ok::<(Seq<i64>, int), IoError>(
            (l, p + se_list_bits(l).len()),
        ),
    decreases l.len(),
{
    if l.len() > 0 {
        let l1 = l.drop_last();
        assert forall|i: int| 0 <= i < l1.len() implies #[trigger] l1[i] > i64::MIN by {
            assert(l1[i] == l[i]);
        }
        assert(l.last() == l[l.len() - 1]);
        lemma_window_split(b, p, se_list_bits(l1), se_bits(l.last()));
        lemma_se_list_window(b, p, l1);
        lemma_se_window(b, p + se_list_bits(l1).len(), l.last());
        assert(l1.push(l.last()) =~= l);
        assert(se_list_bits(l) == se_list_bits(l1) + se_bits(l.last()));
        let r1 = spec_se_list(b, p, l1.len());
        assert(r1 == Ok::<(Seq<i64>, int), IoError>((l1, p + se_list_bits(l1).len())));
        assert(spec_se_list(b, p, l.len()) == Ok::<(Seq<i64>, int), IoError>(
            (l1.push(l.last()), p + se_list_bits(l1).len() + se_bits(l.last()).len()),
        ));
    } else {
        assert(l =~= Seq::<i64>::empty());
    }
}

/// The fields of picture order count type 1 read back when the count is the number of
/// offsets.
pub proof fn lemma_poc1_window(b: Seq<bool>, p: int, t: PicOrderCountType1View)
    requires
        t.writable(),
        t.num_ref_frames_in_pic_order_cnt_cycle == t.offset_for_ref_frame.len(),
        window(b, p, t.spec_bits()),
    ensures
        spec_pic_order_count_type1(b, p) == Ok::<(PicOrderCountType1View, int), IoError>(
            (t, p + t.spec_bits().len()),
        ),
{
    let f = seq![t.delta_pic_order_always_zero_flag];
    let nb = se_bits(t.offset_for_non_ref_pic);
    let tb = se_bits(t.offset_for_top_to_bottom_field);
    let cb = ue_bits(t.num_ref_frames_in_pic_order_cnt_cycle);
    let lb = se_list_bits(t.offset_for_ref_frame);
    lemma_window_split(b, p, f + nb + tb + cb, lb);
    lemma_window_split(b, p, f + nb + tb, cb);
    lemma_window_split(b, p, f + nb, tb);
    lemma_window_split(b, p, f, nb);
    lemma_bit_window(b, p, t.delta_pic_order_always_zero_flag);
    lemma_se_window(b, p + 1, t.offset_for_non_ref_pic);
    lemma_se_window(b, p + 1 + nb.len(), t.offset_for_top_to_bottom_field);
    lemma_ue_window(b, p + 1 + nb.len() + tb.len(), t.num_ref_frames_in_pic_order_cnt_cycle);
    lemma_se_list_window(b, p + 1 + nb.len() + tb.len() + cb.len(), t.offset_for_ref_frame);
}

/// The signed codes of a list are the code of its first value and the codes of the rest.
pub proof fn lemma_se_list_bits_front(l: Seq<i64>)
    requires
        l.len() > 0,
    ensures
        se_list_bits(l) == se_bits(l[0]) + se_list_bits(l.drop_first()),
    decreases l.len(),
{
    if l.len() == 1 {
        assert(l.drop_last() =~= Seq::<i64>::empty());
        assert(l.drop_first() =~= Seq::<i64>::empty());
        assert(se_list_bits(l.drop_last()) =~= Seq::<bool>::empty());
        assert(se_list_bits(l.drop_first()) =~= Seq::<bool>::empty());
        assert(se_list_bits(l) =~= se_bits(l[0]));
        assert(se_bits(l[0]) + se_list_bits(l.drop_first()) =~= se_bits(l[0]));
    } else {
        let l1 = l.drop_last();
        lemma_se_list_bits_front(l1);
        assert(l1.drop_first() =~= l.drop_first().drop_last());
        assert(l.drop_first().last() == l.last());
        assert(se_list_bits(l) =~= se_bits(l[0]) + se_list_bits(l.drop_first()));
    }
}

/// A scaling list reads back as it is kept: read with at most `remaining` deltas from the
/// running scale `next_scale`, it stops exactly at its end.
pub open spec fn scaling_list_fits(l: Seq<i64>, remaining: nat, next_scale: int) -> bool
    decreases l.len(),
{
    if l.len() == 0 {
        remaining == 0
    } else if remaining == 0 {
        false
    } else {
        let ns = rem256(next_scale + l[0] + 256);
        if ns == 0 {
            l.len() == 1
        } else {
            scaling_list_fits(l.drop_first(), (remaining - 1) as nat, ns)
        }
    }
}

/// A scaling list reads back.
pub proof fn lemma_scaling_list_window(b: Seq<bool>, p: int, l: Seq<i64>, remaining: nat, next_scale: int)
    requires
        scaling_list_fits(l, remaining, next_scale),
        forall|i: int| 0 <= i < l.len() ==> #[trigger] l[i] > i64::MIN,
        window(b, p, se_list_bits(l)),
    ensures
        spec_scaling_list(b, p, remaining, next_scale) == Ok::<(Seq<i64>, int), IoError>(
            (l, p + se_list_bits(l).len()),
        ),
    decreases l.len(),
{
    if l.len() == 0 {
        assert(l =~= Seq::<i64>::empty());
    } else {
        let d = l[0];
        let rest = l.drop_first();
        lemma_se_list_bits_front(l);
        lemma_window_split(b, p, se_bits(d), se_list_bits(rest));
        lemma_se_window(b, p, d);
        let p1 = p + se_bits(d).len();
        let ns = rem256(next_scale + d + 256);
        if ns == 0 {
            assert(rest =~= Seq::<i64>::empty());
            assert(seq![d] =~= l);
        } else {
            assert forall|i: int| 0 <= i < rest.len() implies #[trigger] rest[i] > i64::MIN by {
                assert(rest[i] == l[i + 1]);
            }
            lemma_scaling_list_window(b, p1, rest, (remaining - 1) as nat, ns);
            assert(seq![d] + rest =~= l);
        }
    }
}

/// The bits of one scaling list: its presence bit and its deltas.
pub open spec fn scaling_list_bits(l: Seq<i64>) -> Seq<bool> {
    seq![l.len() > 0] + se_list_bits(l)
}

/// The bits of scaling lists are the bits of the first and the bits of the rest.
pub proof fn lemma_scaling_matrix_bits_front(m: Seq<Seq<i64>>)
    requires
        m.len() > 0,
    ensures
        scaling_matrix_bits(m) == scaling_list_bits(m[0]) + scaling_matrix_bits(m.drop_first()),
    decreases m.len(),
{
    if m.len() == 1 {
        assert(m.drop_last() =~= Seq::<Seq<i64>>::empty());
        assert(m.drop_first() =~= Seq::<Seq<i64>>::empty());
        assert(scaling_matrix_bits(m.drop_last()) =~= Seq::<bool>::empty());
        assert(scaling_matrix_bits(m.drop_first()) =~= Seq::<bool>::empty());
        assert(scaling_matrix_bits(m) =~= scaling_list_bits(m[0]));
        assert(scaling_list_bits(m[0]) + scaling_matrix_bits(m.drop_first()) =~= scaling_list_bits(
            m[0],
        ));
    } else {
        let m1 = m.drop_last();
        lemma_scaling_matrix_bits_front(m1);
        assert(m1.drop_first() =~= m.drop_first().drop_last());
        assert(m.drop_first().last() == m.last());
        assert(scaling_matrix_bits(m) =~= scaling_list_bits(m[0]) + scaling_matrix_bits(
            m.drop_first(),
        ));
    }
}

/// Every scaling list, the one at index `i` of the matrix being the `start + i`-th, is absent
/// or reads back, and no delta is `i64::MIN`.
pub open spec fn scaling_lists_fit(m: Seq<Seq<i64>>, start: nat) -> bool {
    forall|i: int|
        0 <= i < m.len() ==> {
            &&& (#[trigger] m[i]).len() == 0 || scaling_list_fits(
                m[i],
                scaling_list_size((start + i) as nat),
                8,
            )
            &&& forall|j: int| 0 <= j < m[i].len() ==> #[trigger] m[i][j] > i64::MIN
        }
}

/// Scaling lists `start` to `start + m.len() - 1` read back.
pub proof fn lemma_scaling_lists_window(b: Seq<bool>, p: int, m: Seq<Seq<i64>>, start: nat)
    requires
        scaling_lists_fit(m, start),
        window(b, p, scaling_matrix_bits(m)),
    ensures
        spec_scaling_lists(b, p, start, start + m.len()) == Ok::<(Seq<Seq<i64>>, int), IoError>(
            (m, p + scaling_matrix_bits(m).len()),
        ),
    decreases m.len(),
{
    if m.len() == 0 {
        assert(m =~= Seq::<Seq<i64>>::empty());
    } else {
        let l = m[0];
        let rest = m.drop_first();
        lemma_scaling_matrix_bits_front(m);
        lemma_window_split(b, p, scaling_list_bits(l), scaling_matrix_bits(rest));
        lemma_window_split(b, p, seq![l.len() > 0], se_list_bits(l));
        lemma_bit_window(b, p, l.len() > 0);
        if l.len() > 0 {
            lemma_scaling_list_window(b, p + 1, l, scaling_list_size(start), 8);
        } else {
            assert(l =~= Seq::<i64>::empty());
        }
        assert forall|i: int| 0 <= i < rest.len() implies {
            &&& (#[trigger] rest[i]).len() == 0 || scaling_list_fits(
                rest[i],
                scaling_list_size((start + 1 + i) as nat),
                8,
            )
            &&& forall|j: int| 0 <= j < rest[i].len() ==> #[trigger] rest[i][j] > i64::MIN
        } by {
            assert(rest[i] == m[i + 1]);
        }
        lemma_scaling_lists_window(b, p + scaling_list_bits(l).len(), rest, start + 1);
        assert((start + 1) + rest.len() == start + m.len());
        assert(seq![l] + rest =~= m);
    }
}

/// An SPS extension reads back: the separate colour plane flag is set only with chroma
/// format 3, and the scaling matrix is absent or has all its lists, each absent or read back.
pub open spec fn ext_canonical(e: SpsExtendedView) -> bool {
    &&& e.writable()
    &&& (e.chroma_format_idc != 3 ==> !e.separate_color_plane_flag)
    &&& (e.scaling_matrix.len() == 0 || e.scaling_matrix.len() == (if e.chroma_format_idc != 3 {
        8nat
    } else {
        12nat
    }))
    &&& scaling_lists_fit(e.scaling_matrix, 0)
}

/// An SPS extension reads back.
pub proof fn lemma_ext_window(b: Seq<bool>, p: int, e: SpsExtendedView)
    requires
        ext_canonical(e),
        window(b, p, e.spec_bits()),
    ensures
        spec_sps_extended(b, p) == Ok::<(SpsExtendedView, int), IoError>((e, p + e.spec_bits().len())),
{
    let cb = ue_bits(e.chroma_format_idc as u64);
    let sb: Seq<bool> = if e.chroma_format_idc == 3 {
        seq![e.separate_color_plane_flag]
    } else {
        seq![]
    };
    let lb = ue_bits(e.bit_depth_luma_minus8 as u64);
    let db = ue_bits(e.bit_depth_chroma_minus8 as u64);
    let m = e.scaling_matrix;
    let mb = scaling_matrix_bits(m);
    let x1 = cb + sb;
    let x2 = x1 + lb;
    let x3 = x2 + db;
    let x4 = x3 + seq![e.qpprime_y_zero_transform_bypass_flag];
    let x5 = x4 + seq![m.len() > 0];
    assert(e.spec_bits() == x5 + mb);
    lemma_window_split(b, p, x5, mb);
    lemma_window_split(b, p, x4, seq![m.len() > 0]);
    lemma_window_split(b, p, x3, seq![e.qpprime_y_zero_transform_bypass_flag]);
    lemma_window_split(b, p, x2, db);
    lemma_window_split(b, p, x1, lb);
    lemma_window_split(b, p, cb, sb);
    lemma_ue_window(b, p, e.chroma_format_idc as u64);
    if e.chroma_format_idc == 3 {
        lemma_bit_window(b, p + cb.len(), e.separate_color_plane_flag);
    }
    lemma_ue_window(b, p + x1.len(), e.bit_depth_luma_minus8 as u64);
    lemma_ue_window(b, p + x2.len(), e.bit_depth_chroma_minus8 as u64);
    lemma_bit_window(b, p + x3.len(), e.qpprime_y_zero_transform_bypass_flag);
    lemma_bit_window(b, p + x4.len(), m.len() > 0);
    if m.len() > 0 {
        lemma_scaling_lists_window(b, p + x5.len(), m, 0);
    } else {
        assert(m =~= Seq::<Seq<i64>>::empty());
    }
}

/// The header of an SPS reads back: the forbidden bit is unset, `nal_ref_idc` fits two bits,
/// the unit type is SPS, and each constraint flag that the profile does not read is unset.
pub open spec fn head_canonical(s: SpsView) -> bool {
    &&& !s.forbidden_zero_bit
    &&& s.nal_ref_idc < 4
    &&& s.nal_unit_type == NALUnitType::spec_from(7)
    &&& (skips_flags012(s.profile_idc) ==> !s.constraint_set0_flag && !s.constraint_set1_flag
        && !s.constraint_set2_flag)
    &&& (s.profile_idc == 44 ==> !s.constraint_set3_flag)
    &&& (!reads_flag4(s.profile_idc) ==> !s.constraint_set4_flag)
    &&& (!reads_flag5(s.profile_idc) ==> !s.constraint_set5_flag)
}

/// The constraint flags and the reserved bits read back.
proof fn lemma_flags_window(b: Seq<bool>, p: int, s: SpsView)
    requires
        head_canonical(s),
        window(
            b,
            p,
            seq![
                s.constraint_set0_flag,
                s.constraint_set1_flag,
                s.constraint_set2_flag,
                s.constraint_set3_flag,
                s.constraint_set4_flag,
                s.constraint_set5_flag,
            ] + nat_bits(0, 2),
        ),
    ensures
        spec_constraint_flags(b, p, s.profile_idc) == Ok::<
            ((bool, bool, bool, bool, bool, bool), int),
            IoError,
        >(
            (
                (
                    s.constraint_set0_flag,
                    s.constraint_set1_flag,
                    s.constraint_set2_flag,
                    s.constraint_set3_flag,
                    s.constraint_set4_flag,
                    s.constraint_set5_flag,
                ),
                p + 8,
            ),
        ),
{
    crate::bits::lemma_nat_bits_len(0, 2);
    let w = b.subrange(p, p + 8);
    assert(b[p] == w[0]);
    assert(b[p + 1] == w[1]);
    assert(b[p + 2] == w[2]);
    assert(b[p + 3] == w[3]);
    assert(b[p + 4] == w[4]);
    assert(b[p + 5] == w[5]);
}

/// The header of an SPS reads back into any starting view.
proof fn lemma_head_window(b: Seq<bool>, s: SpsView, s0: SpsView)
    requires
        head_canonical(s),
        window(b, 0, s.spec_head_bits()),
    ensures
        spec_sps_head(b, s0) == Ok::<(SpsView, int), IoError>(
            (
                SpsView {
                    forbidden_zero_bit: s.forbidden_zero_bit,
                    nal_ref_idc: s.nal_ref_idc,
                    nal_unit_type: s.nal_unit_type,
                    profile_idc: s.profile_idc,
                    constraint_set0_flag: s.constraint_set0_flag,
                    constraint_set1_flag: s.constraint_set1_flag,
                    constraint_set2_flag: s.constraint_set2_flag,
                    constraint_set3_flag: s.constraint_set3_flag,
                    constraint_set4_flag: s.constraint_set4_flag,
                    constraint_set5_flag: s.constraint_set5_flag,
                    level_idc: s.level_idc,
                    seq_parameter_set_id: s.seq_parameter_set_id,
                    ..s0
                },
                s.spec_head_bits().len() as int,
            ),
        ),
{
    lemma_p2_64();
    assert(p2(2) == 4 && p2(5) == 32) by {
        reveal_with_fuel(p2, 6);
    }
    let fl = seq![
        s.constraint_set0_flag,
        s.constraint_set1_flag,
        s.constraint_set2_flag,
        s.constraint_set3_flag,
        s.constraint_set4_flag,
        s.constraint_set5_flag,
    ];
    let a0 = seq![false];
    let a1 = nat_bits(s.nal_ref_idc as nat, 2);
    let a2 = nat_bits(s.nal_unit_type.spec_value() as nat, 5);
    let a3 = nat_bits(s.profile_idc as nat, 8);
    let a4 = fl + nat_bits(0, 2);
    let a5 = nat_bits(s.level_idc as nat, 8);
    let a6 = ue_bits(s.seq_parameter_set_id as u64);
    lemma_nat_bits_value(s.nal_ref_idc as nat, 2);
    assert(s.nal_unit_type.spec_value() == 7);
    lemma_nat_bits_value(7, 5);
    lemma_nat_bits_value(s.profile_idc as nat, 8);
    lemma_nat_bits_value(s.level_idc as nat, 8);
    crate::bits::lemma_nat_bits_len(0, 2);
    assert(s.spec_head_bits() =~= a0 + a1 + a2 + a3 + a4 + a5 + a6);
    lemma_window_split(b, 0, a0 + a1 + a2 + a3 + a4 + a5, a6);
    lemma_window_split(b, 0, a0 + a1 + a2 + a3 + a4, a5);
    lemma_window_split(b, 0, a0 + a1 + a2 + a3, a4);
    lemma_window_split(b, 0, a0 + a1 + a2, a3);
    lemma_window_split(b, 0, a0 + a1, a2);
    lemma_window_split(b, 0, a0, a1);
    lemma_bit_window(b, 0, false);
    lemma_bits_window(b, 1, s.nal_ref_idc as nat, 2);
    lemma_bits_window(b, 3, 7, 5);
    lemma_byte_window(b, 8, s.profile_idc);
    lemma_flags_window(b, 16, s);
    lemma_byte_window(b, 24, s.level_idc);
    lemma_ue_window(b, 32, s.seq_parameter_set_id as u64);
}

/// The extension reads back: it is present exactly for the profiles that carry one.
pub open spec fn ext_stage_canonical(s: SpsView) -> bool {
    &&& (s.ext is Some <==> has_sps_ext(s.profile_idc))
    &&& (s.ext matches Some(e) ==> ext_canonical(e))
}

/// The bits of the extension, or nothing.
pub open spec fn ext_bits(s: SpsView) -> Seq<bool> {
    match s.ext {
        Some(e) => e.spec_bits(),
        None => seq![],
    }
}

/// The extension stage reads back.
proof fn lemma_ext_stage_window(b: Seq<bool>, p: int, s: SpsView, s1: SpsView)
    requires
        ext_stage_canonical(s),
        s1.profile_idc == s.profile_idc,
        window(b, p, ext_bits(s)),
    ensures
        spec_sps_ext_stage(b, p, s1) == Ok::<(SpsView, int), IoError>(
            (SpsView { ext: s.ext, ..s1 }, p + ext_bits(s).len()),
        ),
{
    if let Some(e) = s.ext {
        lemma_ext_window(b, p, e);
    }
}

/// The picture order count fields read back: the LSB field is present exactly for type 0,
/// the type 1 fields exactly for type 1, with as many offsets as their count says.
pub open spec fn order_canonical(s: SpsView) -> bool {
    &&& (s.pic_order_cnt_type == 0 ==> s.log2_max_pic_order_cnt_lsb_minus4 is Some
        && s.pic_order_cnt_type1 is None)
    &&& (s.pic_order_cnt_type == 1 ==> s.log2_max_pic_order_cnt_lsb_minus4 is None && (
    s.pic_order_cnt_type1 matches Some(t) && t.num_ref_frames_in_pic_order_cnt_cycle
        == t.offset_for_ref_frame.len()))
    &&& (s.pic_order_cnt_type != 0 && s.pic_order_cnt_type != 1
        ==> s.log2_max_pic_order_cnt_lsb_minus4 is None && s.pic_order_cnt_type1 is None)
}

/// The bits of the picture order count fields.
pub open spec fn poc_bits(s: SpsView) -> Seq<bool> {
    if s.pic_order_cnt_type == 0 {
        ue_bits(s.log2_max_pic_order_cnt_lsb_minus4.unwrap() as u64)
    } else {
        match s.pic_order_cnt_type1 {
            Some(t) => t.spec_bits(),
            None => seq![],
        }
    }
}

/// The bits of the frame numbering, the picture order count fields and the reference frame
/// count: the order bits without the extension.
pub open spec fn order_tail_bits(s: SpsView) -> Seq<bool> {
    ue_bits(s.log2_max_frame_num_minus4 as u64) + ue_bits(s.pic_order_cnt_type as u64) + poc_bits(s)
        + ue_bits(s.max_num_ref_frames as u64)
}

/// The order stage reads back.
proof fn lemma_order_window(b: Seq<bool>, p: int, s: SpsView, s2: SpsView)
    requires
        s.writable(),
        order_canonical(s),
        window(b, p, order_tail_bits(s)),
    ensures
        spec_sps_order(b, p, s2) == Ok::<(SpsView, int), IoError>(
            (
                SpsView {
                    log2_max_frame_num_minus4: s.log2_max_frame_num_minus4,
                    pic_order_cnt_type: s.pic_order_cnt_type,
                    log2_max_pic_order_cnt_lsb_minus4: s.log2_max_pic_order_cnt_lsb_minus4,
                    pic_order_cnt_type1: s.pic_order_cnt_type1,
                    max_num_ref_frames: s.max_num_ref_frames,
                    ..s2
                },
                p + order_tail_bits(s).len(),
            ),
        ),
{
    let fb = ue_bits(s.log2_max_frame_num_minus4 as u64);
    let tb = ue_bits(s.pic_order_cnt_type as u64);
    let pb = poc_bits(s);
    let rb = ue_bits(s.max_num_ref_frames as u64);
    lemma_window_split(b, p, fb + tb + pb, rb);
    lemma_window_split(b, p, fb + tb, pb);
    lemma_window_split(b, p, fb, tb);
    lemma_ue_window(b, p, s.log2_max_frame_num_minus4 as u64);
    lemma_ue_window(b, p + fb.len(), s.pic_order_cnt_type as u64);
    let p2 = p + fb.len() + tb.len();
    if s.pic_order_cnt_type == 0 {
        lemma_ue_window(b, p2, s.log2_max_pic_order_cnt_lsb_minus4.unwrap() as u64);
    } else if s.pic_order_cnt_type == 1 {
        lemma_poc1_window(b, p2, s.pic_order_cnt_type1.unwrap());
    }
    lemma_ue_window(b, p2 + pb.len(), s.max_num_ref_frames as u64);
}

/// The field flags read back: `frame_mbs_only_flag` unset and `mb_adaptive_frame_field_flag`,
/// or `frame_mbs_only_flag` set.
proof fn lemma_mbaff_window(b: Seq<bool>, p: int, m: Option<bool>)
    requires
        window(
            b,
            p,
            match m {
                Some(f) => seq![false, f],
                None => seq![true],
            },
        ),
    ensures
        bit_at(b, p) == Ok::<(bool, int), IoError>((m is None, p + 1)),
        m matches Some(f) ==> bit_at(b, p + 1) == Ok::<(bool, int), IoError>((f, p + 2)),
{
    match m {
        Some(f) => {
            assert(seq![false, f] =~= seq![false] + seq![f]);
            lemma_window_split(b, p, seq![false], seq![f]);
            lemma_bit_window(b, p, false);
            lemma_bit_window(b, p + 1, f);
        },
        None => {
            lemma_bit_window(b, p, true);
        },
    }
}

/// The cropping flag and the crop offsets read back.
proof fn lemma_crop_part_window(b: Seq<bool>, p: int, crop: Option<FrameCropInfo>)
    requires
        crop matches Some(c) ==> c.writable(),
        window(
            b,
            p,
            present_bits(
                match crop {
                    Some(c) => Some(c.spec_bits()),
                    None => None,
                },
            ),
        ),
    ensures
        bit_at(b, p) == Ok::<(bool, int), IoError>((crop is Some, p + 1)),
        crop matches Some(c) ==> spec_frame_crop_info(b, p + 1) == Ok::<(FrameCropInfo, int), IoError>(
            (c, p + 1 + c.spec_bits().len()),
        ),
{
    match crop {
        Some(c) => {
            lemma_window_split(b, p, seq![true], c.spec_bits());
            lemma_bit_window(b, p, true);
            lemma_frame_crop_window(b, p + 1, c);
        },
        None => {
            lemma_bit_window(b, p, false);
        },
    }
}

/// The frame stage reads back.
#[verifier::rlimit(40)]
proof fn lemma_frame_window(b: Seq<bool>, p: int, s: SpsView, s3: SpsView)
    requires
        s.writable(),
        window(b, p, s.spec_frame_bits()),
    ensures
        spec_sps_frame(b, p, s3) == Ok::<(SpsView, int), IoError>(
            (
                SpsView {
                    gaps_in_frame_num_value_allowed_flag: s.gaps_in_frame_num_value_allowed_flag,
                    pic_width_in_mbs_minus1: s.pic_width_in_mbs_minus1,
                    pic_height_in_map_units_minus1: s.pic_height_in_map_units_minus1,
                    mb_adaptive_frame_field_flag: s.mb_adaptive_frame_field_flag,
                    direct_8x8_inference_flag: s.direct_8x8_inference_flag,
                    frame_crop_info: s.frame_crop_info,
                    ..s3
                },
                p + s.spec_frame_bits().len(),
            ),
        ),
{
    let g = seq![s.gaps_in_frame_num_value_allowed_flag];
    let wb = ue_bits(s.pic_width_in_mbs_minus1);
    let hb = ue_bits(s.pic_height_in_map_units_minus1);
    let mb: Seq<bool> = match s.mb_adaptive_frame_field_flag {
        Some(f) => seq![false, f],
        None => seq![true],
    };
    let db = seq![s.direct_8x8_inference_flag];
    let cb = present_bits(
        match s.frame_crop_info {
            Some(c) => Some(c.spec_bits()),
            None => None,
        },
    );
    assert(s.spec_frame_bits() == g + wb + hb + mb + db + cb);
    lemma_window_split(b, p, g + wb + hb + mb + db, cb);
    lemma_window_split(b, p, g + wb + hb + mb, db);
    lemma_window_split(b, p, g + wb + hb, mb);
    lemma_window_split(b, p, g + wb, hb);
    lemma_window_split(b, p, g, wb);
    lemma_bit_window(b, p, s.gaps_in_frame_num_value_allowed_flag);
    lemma_ue_window(b, p + 1, s.pic_width_in_mbs_minus1);
    lemma_ue_window(b, p + 1 + wb.len(), s.pic_height_in_map_units_minus1);
    let p3 = p + 1 + wb.len() + hb.len();
    lemma_mbaff_window(b, p3, s.mb_adaptive_frame_field_flag);
    let p5 = p3 + mb.len();
    lemma_bit_window(b, p5, s.direct_8x8_inference_flag);
    lemma_crop_part_window(b, p5 + 1, s.frame_crop_info);
}

/// The VUI reads back: its aspect ratio and colour description do, chroma locations come
/// only with chroma format 1, and the timing values are not zero.
pub open spec fn vui_canonical(s: SpsView) -> bool {
    &&& (s.sample_aspect_ratio matches Some(x) ==> sar_canonical(x))
    &&& (s.color_config matches Some(c) ==> color_canonical(c))
    &&& (s.chroma_sample_loc is Some ==> chroma_format_of(s) == 1)
    &&& (s.timing_info matches Some(t) ==> t.num_units_in_tick != 0 && t.time_scale != 0)
}

/// The VUI is written but its timing is not: the reader then takes the bit after the SPS
/// as the timing presence flag.
pub open spec fn vui_without_timing(s: SpsView) -> bool {
    &&& !(s.sample_aspect_ratio is None && s.overscan_appropriate_flag is None && s.color_config
        is None && s.chroma_sample_loc is None)
    &&& s.timing_info is None
}

/// The aspect ratio part reads back.
proof fn lemma_sar_part_window(b: Seq<bool>, p: int, sar: Option<SarDimensions>)
    requires
        sar matches Some(x) ==> sar_canonical(x),
        window(
            b,
            p,
            present_bits(
                match sar {
                    Some(x) => Some(x.spec_bits()),
                    None => None,
                },
            ),
        ),
    ensures
        bit_at(b, p) == Ok::<(bool, int), IoError>((sar is Some, p + 1)),
        sar matches Some(x) ==> spec_sar_dimensions(b, p + 1) == Ok::<(SarDimensions, int), IoError>(
            (x, p + 1 + x.spec_bits().len()),
        ),
{
    match sar {
        Some(x) => {
            lemma_window_split(b, p, seq![true], x.spec_bits());
            lemma_bit_window(b, p, true);
            lemma_sar_window(b, p + 1, x);
        },
        None => {
            lemma_bit_window(b, p, false);
        },
    }
}

/// The overscan part reads back.
proof fn lemma_overscan_part_window(b: Seq<bool>, p: int, o: Option<bool>)
    requires
        window(
            b,
            p,
            present_bits(
                match o {
                    Some(x) => Some(seq![x]),
                    None => None,
                },
            ),
        ),
    ensures
        bit_at(b, p) == Ok::<(bool, int), IoError>((o is Some, p + 1)),
        o matches Some(x) ==> bit_at(b, p + 1) == Ok::<(bool, int), IoError>((x, p + 2)),
{
    match o {
        Some(x) => {
            lemma_window_split(b, p, seq![true], seq![x]);
            lemma_bit_window(b, p, true);
            lemma_bit_window(b, p + 1, x);
        },
        None => {
            lemma_bit_window(b, p, false);
        },
    }
}

/// The colour part reads back.
proof fn lemma_color_part_window(b: Seq<bool>, p: int, color: Option<ColorConfig>)
    requires
        color matches Some(c) ==> color_canonical(c),
        window(
            b,
            p,
            present_bits(
                match color {
                    Some(x) => Some(x.spec_bits()),
                    None => None,
                },
            ),
        ),
    ensures
        bit_at(b, p) == Ok::<(bool, int), IoError>((color is Some, p + 1)),
        color matches Some(c) ==> spec_color_config(b, p + 1) == Ok::<(ColorConfig, int), IoError>(
            (c, p + 1 + c.spec_bits().len()),
        ),
{
    match color {
        Some(c) => {
            lemma_window_split(b, p, seq![true], c.spec_bits());
            lemma_bit_window(b, p, true);
            lemma_color_window(b, p + 1, c);
        },
        None => {
            lemma_bit_window(b, p, false);
        },
    }
}

/// The chroma location part reads back.
proof fn lemma_chroma_part_window(b: Seq<bool>, p: int, chroma: Option<ChromaSampleLoc>)
    requires
        window(
            b,
            p,
            present_bits(
                match chroma {
                    Some(x) => Some(x.spec_bits()),
                    None => None,
                },
            ),
        ),
    ensures
        bit_at(b, p) == Ok::<(bool, int), IoError>((chroma is Some, p + 1)),
        chroma matches Some(c) ==> spec_chroma_sample_loc(b, p + 1) == Ok::<
            (ChromaSampleLoc, int),
            IoError,
        >((c, p + 1 + c.spec_bits().len())),
{
    match chroma {
        Some(c) => {
            lemma_window_split(b, p, seq![true], c.spec_bits());
            lemma_bit_window(b, p, true);
            lemma_chroma_loc_window(b, p + 1, c);
        },
        None => {
            lemma_bit_window(b, p, false);
        },
    }
}

/// The first VUI stage reads back.
proof fn lemma_vui_first_window(b: Seq<bool>, p: int, s: SpsView, s0: SpsView)
    requires
        vui_canonical(s),
        window(b, p, vui_parts_bits(s.sample_aspect_ratio, s.overscan_appropriate_flag, s.color_config)),
    ensures
        spec_vui_first(b, p, s0) == Ok::<(SpsView, int), IoError>(
            (
                SpsView {
                    sample_aspect_ratio: s.sample_aspect_ratio,
                    overscan_appropriate_flag: s.overscan_appropriate_flag,
                    color_config: s.color_config,
                    ..s0
                },
                p + vui_parts_bits(
                    s.sample_aspect_ratio,
                    s.overscan_appropriate_flag,
                    s.color_config,
                ).len(),
            ),
        ),
{
    let sb = present_bits(
        match s.sample_aspect_ratio {
            Some(x) => Some(x.spec_bits()),
            None => None,
        },
    );
    let ob = present_bits(
        match s.overscan_appropriate_flag {
            Some(x) => Some(seq![x]),
            None => None,
        },
    );
    let cb = present_bits(
        match s.color_config {
            Some(x) => Some(x.spec_bits()),
            None => None,
        },
    );
    lemma_window_split(b, p, sb + ob, cb);
    lemma_window_split(b, p, sb, ob);
    lemma_sar_part_window(b, p, s.sample_aspect_ratio);
    lemma_overscan_part_window(b, p + sb.len(), s.overscan_appropriate_flag);
    lemma_color_part_window(b, p + sb.len() + ob.len(), s.color_config);
}

/// The second VUI stage reads back; an absent timing reads as the unset bit that follows.
proof fn lemma_vui_second_window(b: Seq<bool>, p: int, s: SpsView, s1: SpsView)
    requires
        vui_canonical(s),
        chroma_format_of(s1) == chroma_format_of(s),
        window(
            b,
            p,
            present_bits(
                match s.chroma_sample_loc {
                    Some(x) => Some(x.spec_bits()),
                    None => None,
                },
            ) + match s.timing_info {
                Some(x) => seq![true] + x.spec_bits(),
                None => seq![],
            },
        ),
        s.timing_info is None ==> window(
            b,
            p + present_bits(
                match s.chroma_sample_loc {
                    Some(x) => Some(x.spec_bits()),
                    None => None,
                },
            ).len(),
            seq![false],
        ),
    ensures
        spec_vui_second(b, p, s1) matches Ok((v, _)) && v == (SpsView {
            chroma_sample_loc: s.chroma_sample_loc,
            timing_info: s.timing_info,
            ..s1
        }),
{
    let cb = present_bits(
        match s.chroma_sample_loc {
            Some(x) => Some(x.spec_bits()),
            None => None,
        },
    );
    let tb: Seq<bool> = match s.timing_info {
        Some(x) => seq![true] + x.spec_bits(),
        None => seq![],
    };
    lemma_window_split(b, p, cb, tb);
    lemma_chroma_part_window(b, p, s.chroma_sample_loc);
    match s.timing_info {
        Some(t) => {
            lemma_window_split(b, p + cb.len(), seq![true], t.spec_bits());
            lemma_bit_window(b, p + cb.len(), true);
            lemma_timing_window(b, p + cb.len() + 1, t);
        },
        None => {
            lemma_bit_window(b, p + cb.len(), false);
        },
    }
}

/// The VUI stage reads back.
proof fn lemma_vui_window(b: Seq<bool>, p: int, s: SpsView, s4: SpsView)
    requires
        vui_canonical(s),
        chroma_format_of(s4) == chroma_format_of(s),
        window(b, p, s.spec_vui_bits()),
        vui_without_timing(s) ==> window(b, p + s.spec_vui_bits().len(), seq![false]),
    ensures
        spec_sps_vui(b, p, s4) matches Ok((v, _)) && v == (SpsView {
            sample_aspect_ratio: s.sample_aspect_ratio,
            overscan_appropriate_flag: s.overscan_appropriate_flag,
            color_config: s.color_config,
            chroma_sample_loc: s.chroma_sample_loc,
            timing_info: s.timing_info,
            ..s4
        }),
{
    if s.sample_aspect_ratio is None && s.overscan_appropriate_flag is None && s.color_config is None
        && s.chroma_sample_loc is None && s.timing_info is None {
        lemma_bit_window(b, p, false);
    } else {
        let pb = vui_parts_bits(s.sample_aspect_ratio, s.overscan_appropriate_flag, s.color_config);
        let cb = present_bits(
            match s.chroma_sample_loc {
                Some(x) => Some(x.spec_bits()),
                None => None,
            },
        );
        let tb: Seq<bool> = match s.timing_info {
            Some(x) => seq![true] + x.spec_bits(),
            None => seq![],
        };
        assert(s.spec_vui_bits() == seq![true] + pb + (cb + tb));
        lemma_window_split(b, p, seq![true] + pb, cb + tb);
        lemma_window_split(b, p, seq![true], pb);
        lemma_bit_window(b, p, true);
        let s1 = SpsView {
            sample_aspect_ratio: s.sample_aspect_ratio,
            overscan_appropriate_flag: s.overscan_appropriate_flag,
            color_config: s.color_config,
            ..s4
        };
        lemma_vui_first_window(b, p + 1, s, s4);
        lemma_vui_second_window(b, p + 1 + pb.len(), s, s1);
    }
}

/// An SPS reads back as it is kept: it can be written, and every field holds a value that
/// parsing gives.
pub open spec fn sps_canonical(s: SpsView) -> bool {
    &&& s.writable()
    &&& head_canonical(s)
    &&& ext_stage_canonical(s)
    &&& order_canonical(s)
    &&& vui_canonical(s)
}

/// The windows of the parts of an SPS in its bits followed by padding.
proof fn lemma_sps_windows(s: SpsView, pad: Seq<bool>)
    ensures
        ({
            let b = s.spec_bits() + pad;
            let p1 = s.spec_head_bits().len() as int;
            let p2 = p1 + ext_bits(s).len();
            let p3 = p2 + order_tail_bits(s).len();
            let p4 = p3 + s.spec_frame_bits().len();
            &&& window(b, 0, s.spec_head_bits())
            &&& window(b, p1, ext_bits(s))
            &&& window(b, p2, order_tail_bits(s))
            &&& window(b, p3, s.spec_frame_bits())
            &&& window(b, p4, s.spec_vui_bits())
            &&& p4 + s.spec_vui_bits().len() == s.spec_bits().len()
        }),
{
    let b = s.spec_bits() + pad;
    let hb = s.spec_head_bits();
    let eb = ext_bits(s);
    let ob = order_tail_bits(s);
    let fb = s.spec_frame_bits();
    let vb = s.spec_vui_bits();
    assert(s.spec_order_bits() == eb + ob);
    assert(s.spec_bits() == hb + eb + ob + fb + vb);
    assert(b.subrange(0, s.spec_bits().len() as int) =~= s.spec_bits());
    lemma_window_split(b, 0, hb + eb + ob + fb, vb);
    lemma_window_split(b, 0, hb + eb + ob, fb);
    lemma_window_split(b, 0, hb + eb, ob);
    lemma_window_split(b, 0, hb, eb);
}

/// The stages of parsing, each reading what the next one starts from, give the whole SPS.
proof fn lemma_sps_stages(b: Seq<bool>, s: SpsView, p1: int, p2: int, p3: int, p4: int)
    requires
        ({
            let s1 = SpsView {
                forbidden_zero_bit: s.forbidden_zero_bit,
                nal_ref_idc: s.nal_ref_idc,
                nal_unit_type: s.nal_unit_type,
                profile_idc: s.profile_idc,
                constraint_set0_flag: s.constraint_set0_flag,
                constraint_set1_flag: s.constraint_set1_flag,
                constraint_set2_flag: s.constraint_set2_flag,
                constraint_set3_flag: s.constraint_set3_flag,
                constraint_set4_flag: s.constraint_set4_flag,
                constraint_set5_flag: s.constraint_set5_flag,
                level_idc: s.level_idc,
                seq_parameter_set_id: s.seq_parameter_set_id,
                ..blank_sps_view()
            };
            let s2 = SpsView { ext: s.ext, ..s1 };
            let s3 = SpsView {
                log2_max_frame_num_minus4: s.log2_max_frame_num_minus4,
                pic_order_cnt_type: s.pic_order_cnt_type,
                log2_max_pic_order_cnt_lsb_minus4: s.log2_max_pic_order_cnt_lsb_minus4,
                pic_order_cnt_type1: s.pic_order_cnt_type1,
                max_num_ref_frames: s.max_num_ref_frames,
                ..s2
            };
            let s4 = SpsView {
                gaps_in_frame_num_value_allowed_flag: s.gaps_in_frame_num_value_allowed_flag,
                pic_width_in_mbs_minus1: s.pic_width_in_mbs_minus1,
                pic_height_in_map_units_minus1: s.pic_height_in_map_units_minus1,
                mb_adaptive_frame_field_flag: s.mb_adaptive_frame_field_flag,
                direct_8x8_inference_flag: s.direct_8x8_inference_flag,
                frame_crop_info: s.frame_crop_info,
                ..s3
            };
            &&& spec_sps_head(b, blank_sps_view()) == Ok::<(SpsView, int), IoError>((s1, p1))
            &&& spec_sps_ext_stage(b, p1, s1) == Ok::<(SpsView, int), IoError>((s2, p2))
            &&& spec_sps_order(b, p2, s2) == Ok::<(SpsView, int), IoError>((s3, p3))
            &&& spec_sps_frame(b, p3, s3) == Ok::<(SpsView, int), IoError>((s4, p4))
            &&& spec_sps_vui(b, p4, s4) matches Ok((v, _)) && v == (SpsView {
                sample_aspect_ratio: s.sample_aspect_ratio,
                overscan_appropriate_flag: s.overscan_appropriate_flag,
                color_config: s.color_config,
                chroma_sample_loc: s.chroma_sample_loc,
                timing_info: s.timing_info,
                ..s4
            })
        }),
    ensures
        spec_sps_from_bits(b) == Ok::<SpsView, IoError>(s),
{
}

/// Parsing the bits that building an SPS writes, followed by unset padding bits, gives the
/// SPS back. When the VUI is written without its timing, the reader takes one padding bit as
/// the timing flag, so there must be one.
pub proof fn lemma_sps_bits_roundtrip(s: SpsView, pad: Seq<bool>)
    requires
        sps_canonical(s),
        forall|i: int| 0 <= i < pad.len() ==> !#[trigger] pad[i],
        vui_without_timing(s) ==> pad.len() > 0,
    ensures
        spec_sps_from_bits(s.spec_bits() + pad) == Ok::<SpsView, IoError>(s),
{
    let b = s.spec_bits() + pad;
    lemma_sps_windows(s, pad);
    let p1 = s.spec_head_bits().len() as int;
    let p2 = p1 + ext_bits(s).len();
    let p3 = p2 + order_tail_bits(s).len();
    let p4 = p3 + s.spec_frame_bits().len();
    let s1 = SpsView {
        forbidden_zero_bit: s.forbidden_zero_bit,
        nal_ref_idc: s.nal_ref_idc,
        nal_unit_type: s.nal_unit_type,
        profile_idc: s.profile_idc,
        constraint_set0_flag: s.constraint_set0_flag,
        constraint_set1_flag: s.constraint_set1_flag,
        constraint_set2_flag: s.constraint_set2_flag,
        constraint_set3_flag: s.constraint_set3_flag,
        constraint_set4_flag: s.constraint_set4_flag,
        constraint_set5_flag: s.constraint_set5_flag,
        level_idc: s.level_idc,
        seq_parameter_set_id: s.seq_parameter_set_id,
        ..blank_sps_view()
    };
    let s2 = SpsView { ext: s.ext, ..s1 };
    let s3 = SpsView {
        log2_max_frame_num_minus4: s.log2_max_frame_num_minus4,
        pic_order_cnt_type: s.pic_order_cnt_type,
        log2_max_pic_order_cnt_lsb_minus4: s.log2_max_pic_order_cnt_lsb_minus4,
        pic_order_cnt_type1: s.pic_order_cnt_type1,
        max_num_ref_frames: s.max_num_ref_frames,
        ..s2
    };
    let s4 = SpsView {
        gaps_in_frame_num_value_allowed_flag: s.gaps_in_frame_num_value_allowed_flag,
        pic_width_in_mbs_minus1: s.pic_width_in_mbs_minus1,
        pic_height_in_map_units_minus1: s.pic_height_in_map_units_minus1,
        mb_adaptive_frame_field_flag: s.mb_adaptive_frame_field_flag,
        direct_8x8_inference_flag: s.direct_8x8_inference_flag,
        frame_crop_info: s.frame_crop_info,
        ..s3
    };
    lemma_head_window(b, s, blank_sps_view());
    lemma_ext_stage_window(b, p1, s, s1);
    lemma_order_window(b, p2, s, s2);
    lemma_frame_window(b, p3, s, s3);
    if vui_without_timing(s) {
        assert(b[p4 + s.spec_vui_bits().len()] == pad[0]);
        assert(b.subrange(p4 + s.spec_vui_bits().len(), p4 + s.spec_vui_bits().len() + 1)
            =~= seq![false]);
    }
    lemma_vui_window(b, p4, s, s4);
    lemma_sps_stages(b, s, p1, p2, p3, p4);
}

/// The bits of an SPS header are more than four bytes.
proof fn lemma_head_bits_len(s: SpsView)
    ensures
        s.spec_head_bits().len() > 32,
{
    crate::bits::lemma_nat_bits_len(s.nal_ref_idc as nat, 2);
    crate::bits::lemma_nat_bits_len(s.nal_unit_type.spec_value() as nat, 5);
    crate::bits::lemma_nat_bits_len(s.profile_idc as nat, 8);
    crate::bits::lemma_nat_bits_len(0, 2);
    crate::bits::lemma_nat_bits_len(s.level_idc as nat, 8);
    let v = s.seq_parameter_set_id as u64;
    crate::bits::lemma_nat_bits_len((v + 1) as nat, crate::expgolomb::ilog2((v + 1) as nat) + 1);
}

/// Parsing the bytes that building an SPS gives, once the writer has padded its last byte
/// with `pad` unset bits, gives the SPS back. This holds of every SPS that reads back as it
/// is kept, as long as the bytes hold no emulation prevention pattern `00 00 03` (building
/// writes none, parsing removes them) and, when the VUI is written without its timing, the
/// last byte has a padding bit to read as the timing flag.
pub proof fn lemma_sps_roundtrip(s: SpsView, data: Seq<u8>, pad: nat)
    requires
        sps_canonical(s),
        bits_of_bytes(data) == s.spec_bits() + repeat_bit(false, pad),
        vui_without_timing(s) ==> pad > 0,
        rbsp(data) == data,
    ensures
        spec_sps(data) == Ok::<SpsView, IoError>(s),
{
    lemma_head_bits_len(s);
    assert(data.len() * 8 > 32);
    lemma_sps_bits_roundtrip(s, repeat_bit(false, pad));
}

/// Every value that reading `n` bits gives is below `2^n`.
proof fn lemma_bits_at_bound(b: Seq<bool>, p: int, n: nat)
    requires
        n <= 64,
        bits_at(b, p, n) is Ok,
    ensures
        bits_at(b, p, n)->Ok_0.0 < p2(n),
{
    lemma_p2_64();
    lemma_p2_mono(n, 64);
    crate::bits::lemma_bits_value_bound(b.subrange(p, p + n));
}

/// The first set bit from `p` on is at or after `p`, and it is set.
proof fn lemma_first_one_facts(b: Seq<bool>, p: int)
    requires
        0 <= p,
    ensures
        p <= first_one(b, p) <= b.len() || (p > b.len() && first_one(b, p) == b.len()),
        first_one(b, p) < b.len() ==> b[first_one(b, p)],
    decreases b.len() - p,
{
    if p < b.len() && !b[p] {
        lemma_first_one_facts(b, p + 1);
    }
}

/// A bit string that starts with a set bit has a value of at least one.
proof fn lemma_bits_value_pos(s: Seq<bool>)
    requires
        s.len() > 0,
        s[0],
    ensures
        bits_value(s) >= 1,
    decreases s.len(),
{
    if s.len() > 1 {
        lemma_bits_value_pos(s.drop_last());
    }
}

/// Every unsigned Exp-Golomb code that reads gives a value below `u64::MAX` and ends after
/// where it starts.
proof fn lemma_ue_at_bound(b: Seq<bool>, p: int)
    requires
        0 <= p <= b.len(),
        ue_at(b, p) is Ok,
    ensures
        ue_at(b, p)->Ok_0.0 < u64::MAX,
        p < ue_at(b, p)->Ok_0.1 <= b.len(),
{
    let q = first_one(b, p);
    let z = q - p;
    lemma_first_one_facts(b, p);
    if z >= 64 {
        assert(ue_at(b, p) is Err);
    }
    assert(q + 1 + z <= b.len());
    let sub = b.subrange(q, q + 1 + z);
    assert(sub[0] == b[q]);
    lemma_bits_value_pos(sub);
    crate::bits::lemma_bits_value_bound(sub);
    lemma_p2_64();
    lemma_p2_mono((z + 1) as nat, 64);
}

/// Every signed Exp-Golomb code that reads gives a value above `i64::MIN` and ends after
/// where it starts.
proof fn lemma_se_at_bound(b: Seq<bool>, p: int)
    requires
        0 <= p <= b.len(),
        se_at(b, p) is Ok,
    ensures
        se_at(b, p)->Ok_0.0 > i64::MIN,
        p < se_at(b, p)->Ok_0.1 <= b.len(),
{
    lemma_ue_at_bound(b, p);
}

/// A list of signed codes that reads has the length asked for, and no value is `i64::MIN`.
proof fn lemma_se_list_result(b: Seq<bool>, p: int, n: nat)
    requires
        0 <= p <= b.len(),
        spec_se_list(b, p, n) is Ok,
    ensures
        spec_se_list(b, p, n)->Ok_0.0.len() == n,
        p <= spec_se_list(b, p, n)->Ok_0.1 <= b.len(),
        forall|i: int|
            0 <= i < n ==> #[trigger] spec_se_list(b, p, n)->Ok_0.0[i] > i64::MIN,
    decreases n,
{
    if n > 0 {
        lemma_se_list_result(b, p, (n - 1) as nat);
        let (l1, p1) = spec_se_list(b, p, (n - 1) as nat)->Ok_0;
        lemma_se_at_bound(b, p1);
        let l = spec_se_list(b, p, n)->Ok_0.0;
        assert forall|i: int| 0 <= i < n implies #[trigger] l[i] > i64::MIN by {
            if i < n - 1 {
                assert(l[i] == l1[i]);
            }
        }
    }
}

/// A scaling list that reads fits its reading, and no delta is `i64::MIN`.
proof fn lemma_scaling_list_result(b: Seq<bool>, p: int, remaining: nat, next_scale: int)
    requires
        0 <= p <= b.len(),
        spec_scaling_list(b, p, remaining, next_scale) is Ok,
    ensures
        p <= spec_scaling_list(b, p, remaining, next_scale)->Ok_0.1 <= b.len(),
        scaling_list_fits(spec_scaling_list(b, p, remaining, next_scale)->Ok_0.0, remaining, next_scale),
        forall|i: int|
            0 <= i < spec_scaling_list(b, p, remaining, next_scale)->Ok_0.0.len()
                ==> #[trigger] spec_scaling_list(b, p, remaining, next_scale)->Ok_0.0[i] > i64::MIN,
        remaining > 0 ==> spec_scaling_list(b, p, remaining, next_scale)->Ok_0.0.len() > 0,
    decreases remaining,
{
    let l = spec_scaling_list(b, p, remaining, next_scale)->Ok_0.0;
    if remaining == 0 {
        assert(l =~= Seq::<i64>::empty());
    } else {
        lemma_se_at_bound(b, p);
        let (d, p1) = se_at(b, p)->Ok_0;
        let ns = rem256(next_scale + d + 256);
        if ns == 0 {
            assert(l =~= seq![d]);
        } else {
            lemma_scaling_list_result(b, p1, (remaining - 1) as nat, ns);
            let rest = spec_scaling_list(b, p1, (remaining - 1) as nat, ns)->Ok_0.0;
            assert(l =~= seq![d] + rest);
            assert(l.drop_first() =~= rest);
            assert forall|i: int| 0 <= i < l.len() implies #[trigger] l[i] > i64::MIN by {
                if i > 0 {
                    assert(l[i] == rest[i - 1]);
                }
            }
        }
    }
}

/// Scaling lists `i` to `count - 1` that read are `count - i` lists that each fit.
proof fn lemma_scaling_lists_result(b: Seq<bool>, p: int, i: nat, count: nat)
    requires
        0 <= p <= b.len(),
        i <= count,
        spec_scaling_lists(b, p, i, count) is Ok,
    ensures
        spec_scaling_lists(b, p, i, count)->Ok_0.0.len() == count - i,
        scaling_lists_fit(spec_scaling_lists(b, p, i, count)->Ok_0.0, i),
    decreases count - i,
{
    let m = spec_scaling_lists(b, p, i, count)->Ok_0.0;
    if i >= count {
        assert(m =~= Seq::<Seq<i64>>::empty());
    } else {
        let (present, p1) = bit_at(b, p)->Ok_0;
        if present {
            lemma_scaling_list_result(b, p1, scaling_list_size(i), 8);
        }
        let (l, p2) = (if present {
            spec_scaling_list(b, p1, scaling_list_size(i), 8)
        } else {
            Ok((seq![], p1))
        })->Ok_0;
        lemma_scaling_lists_result(b, p2, i + 1, count);
        let rest = spec_scaling_lists(b, p2, i + 1, count)->Ok_0.0;
        assert(m =~= seq![l] + rest);
        assert forall|k: int| 0 <= k < m.len() implies {
            &&& (#[trigger] m[k]).len() == 0 || scaling_list_fits(
                m[k],
                scaling_list_size((i + k) as nat),
                8,
            )
            &&& forall|j: int| 0 <= j < m[k].len() ==> #[trigger] m[k][j] > i64::MIN
        } by {
            if k > 0 {
                assert(m[k] == rest[k - 1]);
                assert((i + 1 + (k - 1)) as nat == (i + k) as nat);
            }
        }
    }
}

/// An extension that reads is one that reads back.
proof fn lemma_ext_result(b: Seq<bool>, p: int)
    requires
        0 <= p <= b.len(),
        spec_sps_extended(b, p) is Ok,
    ensures
        ext_canonical(spec_sps_extended(b, p)->Ok_0.0),
{
    let e = spec_sps_extended(b, p)->Ok_0.0;
    lemma_ue_at_bound(b, p);
    let (cf, p1) = ue_at(b, p)->Ok_0;
    let chroma = cf as u8;
    let p2 = (if chroma == 3 {
        bit_at(b, p1)
    } else {
        Ok((false, p1))
    })->Ok_0.1;
    lemma_ue_at_bound(b, p2);
    let p3 = ue_at(b, p2)->Ok_0.1;
    lemma_ue_at_bound(b, p3);
    let p4 = ue_at(b, p3)->Ok_0.1;
    let p5 = bit_at(b, p4)->Ok_0.1;
    let (present, p6) = bit_at(b, p5)->Ok_0;
    if present {
        lemma_scaling_lists_result(b, p6, 0, if chroma != 3 { 8 } else { 12 });
    } else {
        assert(e.scaling_matrix =~= Seq::<Seq<i64>>::empty());
    }
}

/// The fields of picture order count type 1 that read can be written, with as many offsets
/// as their count says.
proof fn lemma_poc1_result(b: Seq<bool>, p: int)
    requires
        0 <= p <= b.len(),
        spec_pic_order_count_type1(b, p) is Ok,
    ensures
        spec_pic_order_count_type1(b, p)->Ok_0.0.writable(),
        spec_pic_order_count_type1(b, p)->Ok_0.0.num_ref_frames_in_pic_order_cnt_cycle
            == spec_pic_order_count_type1(b, p)->Ok_0.0.offset_for_ref_frame.len(),
{
    let p1 = bit_at(b, p)->Ok_0.1;
    lemma_se_at_bound(b, p1);
    let p2 = se_at(b, p1)->Ok_0.1;
    lemma_se_at_bound(b, p2);
    let p3 = se_at(b, p2)->Ok_0.1;
    lemma_ue_at_bound(b, p3);
    let (n, p4) = ue_at(b, p3)->Ok_0;
    lemma_se_list_result(b, p4, n as nat);
}

/// A header that reads is one that reads back.
proof fn lemma_head_result(b: Seq<bool>, s0: SpsView)
    requires
        spec_sps_head(b, s0) is Ok,
    ensures
        ({
            let (s1, p1) = spec_sps_head(b, s0)->Ok_0;
            &&& head_canonical(s1)
            &&& 0 <= p1 <= b.len()
            &&& s1 == SpsView {
                forbidden_zero_bit: s1.forbidden_zero_bit,
                nal_ref_idc: s1.nal_ref_idc,
                nal_unit_type: s1.nal_unit_type,
                profile_idc: s1.profile_idc,
                constraint_set0_flag: s1.constraint_set0_flag,
                constraint_set1_flag: s1.constraint_set1_flag,
                constraint_set2_flag: s1.constraint_set2_flag,
                constraint_set3_flag: s1.constraint_set3_flag,
                constraint_set4_flag: s1.constraint_set4_flag,
                constraint_set5_flag: s1.constraint_set5_flag,
                level_idc: s1.level_idc,
                seq_parameter_set_id: s1.seq_parameter_set_id,
                ..s0
            }
        }),
{
    lemma_bits_at_bound(b, 1, 2);
    assert(p2(2) == 4) by {
        reveal_with_fuel(p2, 3);
    }
    let p6 = byte_at(b, spec_constraint_flags(b, 16, byte_at(b, 8)->Ok_0.0)->Ok_0.1)->Ok_0.1;
    lemma_ue_at_bound(b, p6);
}

/// An extension stage that reads is one that reads back.
proof fn lemma_ext_stage_result(b: Seq<bool>, p: int, s1: SpsView)
    requires
        0 <= p <= b.len(),
        spec_sps_ext_stage(b, p, s1) is Ok,
    ensures
        ({
            let (s2, p2) = spec_sps_ext_stage(b, p, s1)->Ok_0;
            &&& ext_stage_canonical(s2)
            &&& p <= p2 <= b.len()
            &&& s2 == SpsView { ext: s2.ext, ..s1 }
        }),
{
    if has_sps_ext(s1.profile_idc) {
        lemma_ext_result(b, p);
        lemma_ext_end(b, p);
    }
}

/// An extension that reads ends within the bits.
proof fn lemma_ext_end(b: Seq<bool>, p: int)
    requires
        0 <= p <= b.len(),
        spec_sps_extended(b, p) is Ok,
    ensures
        p <= spec_sps_extended(b, p)->Ok_0.1 <= b.len(),
{
    lemma_ue_at_bound(b, p);
    let (cf, p1) = ue_at(b, p)->Ok_0;
    let chroma = cf as u8;
    let p2 = (if chroma == 3 {
        bit_at(b, p1)
    } else {
        Ok((false, p1))
    })->Ok_0.1;
    lemma_ue_at_bound(b, p2);
    let p3 = ue_at(b, p2)->Ok_0.1;
    lemma_ue_at_bound(b, p3);
    let p4 = ue_at(b, p3)->Ok_0.1;
    let p5 = bit_at(b, p4)->Ok_0.1;
    let (present, p6) = bit_at(b, p5)->Ok_0;
    if present {
        lemma_scaling_lists_end(b, p6, 0, if chroma != 3 { 8 } else { 12 });
    }
}

/// Scaling lists that read end within the bits.
proof fn lemma_scaling_lists_end(b: Seq<bool>, p: int, i: nat, count: nat)
    requires
        0 <= p <= b.len(),
        spec_scaling_lists(b, p, i, count) is Ok,
    ensures
        p <= spec_scaling_lists(b, p, i, count)->Ok_0.1 <= b.len(),
    decreases count - i,
{
    if i < count {
        let (present, p1) = bit_at(b, p)->Ok_0;
        if present {
            lemma_scaling_list_result(b, p1, scaling_list_size(i), 8);
        }
        let p2 = (if present {
            spec_scaling_list(b, p1, scaling_list_size(i), 8)
        } else {
            Ok((seq![], p1))
        })->Ok_0.1;
        lemma_scaling_lists_end(b, p2, i + 1, count);
    }
}

/// An order stage that reads is one that reads back.
proof fn lemma_order_result(b: Seq<bool>, p: int, s2: SpsView)
    requires
        0 <= p <= b.len(),
        spec_sps_order(b, p, s2) is Ok,
    ensures
        ({
            let (s3, p3) = spec_sps_order(b, p, s2)->Ok_0;
            &&& order_canonical(s3)
            &&& (s3.pic_order_cnt_type != 0 ==> (s3.pic_order_cnt_type1 matches Some(t)
                ==> t.writable()))
            &&& p <= p3 <= b.len()
            &&& s3 == SpsView {
                log2_max_frame_num_minus4: s3.log2_max_frame_num_minus4,
                pic_order_cnt_type: s3.pic_order_cnt_type,
                log2_max_pic_order_cnt_lsb_minus4: s3.log2_max_pic_order_cnt_lsb_minus4,
                pic_order_cnt_type1: s3.pic_order_cnt_type1,
                max_num_ref_frames: s3.max_num_ref_frames,
                ..s2
            }
        }),
{
    lemma_ue_at_bound(b, p);
    let p1 = ue_at(b, p)->Ok_0.1;
    lemma_ue_at_bound(b, p1);
    let (poc, p2) = ue_at(b, p1)->Ok_0;
    let poc = poc as u8;
    if poc == 0 {
        lemma_ue_at_bound(b, p2);
        let q = ue_at(b, p2)->Ok_0.1;
        lemma_ue_at_bound(b, q);
    } else if poc == 1 {
        lemma_poc1_result(b, p2);
        lemma_poc1_end(b, p2);
        let q = spec_pic_order_count_type1(b, p2)->Ok_0.1;
        lemma_ue_at_bound(b, q);
    } else {
        lemma_ue_at_bound(b, p2);
    }
}

/// The fields of picture order count type 1 that read end within the bits.
proof fn lemma_poc1_end(b: Seq<bool>, p: int)
    requires
        0 <= p <= b.len(),
        spec_pic_order_count_type1(b, p) is Ok,
    ensures
        p <= spec_pic_order_count_type1(b, p)->Ok_0.1 <= b.len(),
{
    let p1 = bit_at(b, p)->Ok_0.1;
    lemma_se_at_bound(b, p1);
    let p2 = se_at(b, p1)->Ok_0.1;
    lemma_se_at_bound(b, p2);
    let p3 = se_at(b, p2)->Ok_0.1;
    lemma_ue_at_bound(b, p3);
    let (n, p4) = ue_at(b, p3)->Ok_0;
    lemma_se_list_result(b, p4, n as nat);
}

/// A frame stage that reads is one that can be written.
proof fn lemma_frame_result(b: Seq<bool>, p: int, s3: SpsView)
    requires
        0 <= p <= b.len(),
        spec_sps_frame(b, p, s3) is Ok,
    ensures
        ({
            let (s4, p4) = spec_sps_frame(b, p, s3)->Ok_0;
            &&& s4.pic_width_in_mbs_minus1 < u64::MAX
            &&& s4.pic_height_in_map_units_minus1 < u64::MAX
            &&& (s4.frame_crop_info matches Some(c) ==> c.writable())
            &&& p <= p4 <= b.len()
            &&& s4 == SpsView {
                gaps_in_frame_num_value_allowed_flag: s4.gaps_in_frame_num_value_allowed_flag,
                pic_width_in_mbs_minus1: s4.pic_width_in_mbs_minus1,
                pic_height_in_map_units_minus1: s4.pic_height_in_map_units_minus1,
                mb_adaptive_frame_field_flag: s4.mb_adaptive_frame_field_flag,
                direct_8x8_inference_flag: s4.direct_8x8_inference_flag,
                frame_crop_info: s4.frame_crop_info,
                ..s3
            }
        }),
{
    let p1 = p + 1;
    lemma_ue_at_bound(b, p1);
    let p2 = ue_at(b, p1)->Ok_0.1;
    lemma_ue_at_bound(b, p2);
    let p3 = ue_at(b, p2)->Ok_0.1;
    let (frame_mbs_only, p4) = bit_at(b, p3)->Ok_0;
    let p5 = if !frame_mbs_only {
        p4 + 1
    } else {
        p4
    };
    let p7 = p5 + 2;
    let cropping = bit_at(b, p5 + 1)->Ok_0.0;
    if cropping {
        lemma_ue_at_bound(b, p7);
        let q1 = ue_at(b, p7)->Ok_0.1;
        lemma_ue_at_bound(b, q1);
        let q2 = ue_at(b, q1)->Ok_0.1;
        lemma_ue_at_bound(b, q2);
        let q3 = ue_at(b, q2)->Ok_0.1;
        lemma_ue_at_bound(b, q3);
    }
}

/// A VUI that reads is one that reads back.
proof fn lemma_vui_result(b: Seq<bool>, p: int, s4: SpsView)
    requires
        0 <= p <= b.len(),
        spec_sps_vui(b, p, s4) is Ok,
    ensures
        ({
            let s5 = spec_sps_vui(b, p, s4)->Ok_0.0;
            &&& vui_canonical(s5)
            &&& s5 == SpsView {
                sample_aspect_ratio: s5.sample_aspect_ratio,
                overscan_appropriate_flag: s5.overscan_appropriate_flag,
                color_config: s5.color_config,
                chroma_sample_loc: s5.chroma_sample_loc,
                timing_info: s5.timing_info,
                ..s4
            }
        }),
{
    let (present, p1) = bit_at(b, p)->Ok_0;
    if present {
        let (ar, q1) = bit_at(b, p1)->Ok_0;
        if ar {
            let idc = byte_at(b, q1)->Ok_0.0;
            lemma_h264_numbers_kept(idc);
        }
        let s1 = spec_vui_first(b, p1, s4)->Ok_0.0;
        if let Some(c) = s1.color_config {
            lemma_color_result(b, p1, s4);
        }
        let (s1b, p2) = spec_vui_first(b, p1, s4)->Ok_0;
        if let Some(t) = spec_vui_second(b, p2, s1b)->Ok_0.0.timing_info {
            lemma_timing_result(b, p2, s1b);
        }
    }
}

/// A colour description that reads has a format that fits three bits.
proof fn lemma_color_result(b: Seq<bool>, p1: int, s4: SpsView)
    requires
        spec_vui_first(b, p1, s4) is Ok,
        spec_vui_first(b, p1, s4)->Ok_0.0.color_config is Some,
    ensures
        color_canonical(spec_vui_first(b, p1, s4)->Ok_0.0.color_config.unwrap()),
{
    let (ar, q1) = bit_at(b, p1)->Ok_0;
    let q2 = optional_part(b, q1, spec_sar_dimensions(b, q1), ar)->Ok_0.1;
    let (os, q3) = bit_at(b, q2)->Ok_0;
    let q4 = optional_part(b, q3, bit_at(b, q3), os)->Ok_0.1;
    let q5 = bit_at(b, q4)->Ok_0.1;
    let vf = bits_at(b, q5, 3)->Ok_0.0;
    lemma_bits_at_bound(b, q5, 3);
    assert(p2(3) == 8) by {
        reveal_with_fuel(p2, 4);
    }
    lemma_h264_numbers_kept(vf as u8);
}

/// A timing that reads has values that fit 32 bits and are not zero.
proof fn lemma_timing_result(b: Seq<bool>, p2: int, s1: SpsView)
    requires
        spec_vui_second(b, p2, s1) is Ok,
        spec_vui_second(b, p2, s1)->Ok_0.0.timing_info is Some,
    ensures
        spec_vui_second(b, p2, s1)->Ok_0.0.timing_info.unwrap().num_units_in_tick != 0,
        spec_vui_second(b, p2, s1)->Ok_0.0.timing_info.unwrap().time_scale != 0,
{
    let (cl, r1) = bit_at(b, p2)->Ok_0;
    let r2 = optional_part(b, r1, spec_chroma_sample_loc(b, r1), cl)->Ok_0.1;
    let r3 = bit_at(b, r2)->Ok_0.1;
    lemma_p2_64();
    lemma_bits_at_bound(b, r3, 32);
    let q = bits_at(b, r3, 32)->Ok_0.1;
    lemma_bits_at_bound(b, q, 32);
}

/// Every SPS that parses from bits reads back as it is kept: building it and parsing the
/// bits again gives it back, by [`lemma_sps_bits_roundtrip`].
pub proof fn lemma_parsed_sps_canonical(b: Seq<bool>)
    requires
        spec_sps_from_bits(b) is Ok,
    ensures
        sps_canonical(spec_sps_from_bits(b)->Ok_0),
{
    let s0 = blank_sps_view();
    lemma_head_result(b, s0);
    let (s1, p1) = spec_sps_head(b, s0)->Ok_0;
    lemma_ext_stage_result(b, p1, s1);
    let (s2, p2) = spec_sps_ext_stage(b, p1, s1)->Ok_0;
    lemma_order_result(b, p2, s2);
    let (s3, p3) = spec_sps_order(b, p2, s2)->Ok_0;
    lemma_frame_result(b, p3, s3);
    let (s4, p4) = spec_sps_frame(b, p3, s3)->Ok_0;
    lemma_vui_result(b, p4, s4);
}

/// Parsing an SPS, building it again and parsing the new bytes gives the same SPS: building
/// and parsing again changes nothing that a first parse gave. `rebuilt` is what building the
/// parsed SPS and padding its last byte with `pad` unset bits gives. This holds unless the
/// rebuilt bytes hold an emulation prevention pattern `00 00 03`, or the VUI is rebuilt
/// without timing and ends at a byte boundary.
pub proof fn lemma_parse_build_parse(data: Seq<u8>, rebuilt: Seq<u8>, pad: nat)
    requires
        spec_sps(data) is Ok,
        bits_of_bytes(rebuilt) == spec_sps(data)->Ok_0.spec_bits() + repeat_bit(false, pad),
        vui_without_timing(spec_sps(data)->Ok_0) ==> pad > 0,
        rbsp(rebuilt) == rebuilt,
    ensures
        spec_sps(rebuilt) == spec_sps(data),
{
    lemma_parsed_sps_canonical(bits_of_bytes(rbsp(data)));
    lemma_sps_roundtrip(spec_sps(data)->Ok_0, rebuilt, pad);
}

/// Building the SPS that a rebuild parses to writes the same bits as building the first parse:
/// a second rebuild gives the same bytes as the first.
pub proof fn lemma_rebuild_same_bits(data: Seq<u8>, rebuilt: Seq<u8>, pad: nat)
    requires
        spec_sps(data) is Ok,
        bits_of_bytes(rebuilt) == spec_sps(data)->Ok_0.spec_bits() + repeat_bit(false, pad),
        vui_without_timing(spec_sps(data)->Ok_0) ==> pad > 0,
        rbsp(rebuilt) == rebuilt,
    ensures
        spec_sps(rebuilt) is Ok,
        spec_sps(rebuilt)->Ok_0.spec_bits() == spec_sps(data)->Ok_0.spec_bits(),
{
    lemma_parse_build_parse(data, rebuilt, pad);
}

/// The bits before the first set bit from `p` on are all unset.
proof fn lemma_first_one_zeros(b: Seq<bool>, p: int, j: int)
    requires
        0 <= p <= j < first_one(b, p),
        first_one(b, p) <= b.len(),
    ensures
        !b[j],
    decreases j - p,
{
    if p < b.len() && !b[p] {
        if j > p {
            lemma_first_one_zeros(b, p + 1, j);
        }
    }
}

/// A bit string that starts with a set bit is at least `2^(len - 1)`.
proof fn lemma_bits_value_top(s: Seq<bool>)
    requires
        s.len() > 0,
        s[0],
    ensures
        bits_value(s) >= p2((s.len() - 1) as nat),
    decreases s.len(),
{
    if s.len() > 1 {
        lemma_bits_value_top(s.drop_last());
    }
}

/// The bits that an unsigned Exp-Golomb code reads from are the code of the value read.
pub proof fn lemma_ue_at_bits(b: Seq<bool>, p: int)
    requires
        0 <= p <= b.len(),
        ue_at(b, p) is Ok,
    ensures
        b.subrange(p, ue_at(b, p)->Ok_0.1) == ue_bits(ue_at(b, p)->Ok_0.0),
{
    lemma_ue_at_bound(b, p);
    lemma_first_one_facts(b, p);
    let q1 = first_one(b, p);
    let z = q1 - p;
    if z >= 64 {
        assert(ue_at(b, p) is Err);
    }
    let q = q1 + 1 + z;
    let sub = b.subrange(q1, q);
    let n = bits_value(sub);
    let v = ue_at(b, p)->Ok_0.0;
    assert(sub[0] == b[q1]);
    lemma_bits_value_top(sub);
    crate::bits::lemma_bits_value_bound(sub);
    lemma_p2_64();
    lemma_p2_mono((z + 1) as nat, 64);
    assert(v + 1 == n);
    crate::expgolomb::lemma_ilog2_bounds(n);
    let k = crate::expgolomb::ilog2(n);
    if k > z {
        lemma_p2_mono((z + 1) as nat, k);
    }
    if k < z {
        lemma_p2_mono(k + 1, z as nat);
    }
    assert(k == z);
    crate::bits::lemma_value_nat_bits(sub);
    assert forall|j: int| 0 <= j < z implies !#[trigger] b.subrange(p, q)[j] by {
        lemma_first_one_zeros(b, p, p + j);
    }
    assert(b.subrange(p, q) =~= repeat_bit(false, z as nat) + sub);
}

/// The bits that a signed Exp-Golomb code reads from are the code of the value read.
pub proof fn lemma_se_at_bits(b: Seq<bool>, p: int)
    requires
        0 <= p <= b.len(),
        se_at(b, p) is Ok,
    ensures
        b.subrange(p, se_at(b, p)->Ok_0.1) == se_bits(se_at(b, p)->Ok_0.0),
{
    lemma_ue_at_bits(b, p);
    lemma_ue_at_bound(b, p);
    let k = ue_at(b, p)->Ok_0.0;
    assert(crate::expgolomb::se_code(crate::expgolomb::se_of(k)) == k);
}

/// The bits that a scaling list reads from are the codes of its deltas.
proof fn lemma_scaling_list_bits(b: Seq<bool>, p: int, remaining: nat, next_scale: int)
    requires
        0 <= p <= b.len(),
        spec_scaling_list(b, p, remaining, next_scale) is Ok,
    ensures
        b.subrange(p, spec_scaling_list(b, p, remaining, next_scale)->Ok_0.1) == se_list_bits(
            spec_scaling_list(b, p, remaining, next_scale)->Ok_0.0,
        ),
    decreases remaining,
{
    let (l, q) = spec_scaling_list(b, p, remaining, next_scale)->Ok_0;
    if remaining == 0 {
        assert(l =~= Seq::<i64>::empty());
        assert(b.subrange(p, q) =~= Seq::<bool>::empty());
    } else {
        lemma_se_at_bits(b, p);
        lemma_se_at_bound(b, p);
        let (d, p1) = se_at(b, p)->Ok_0;
        let ns = rem256(next_scale + d + 256);
        lemma_se_list_bits_front(l);
        if ns == 0 {
            assert(l =~= seq![d]);
            assert(l.drop_first() =~= Seq::<i64>::empty());
            assert(se_list_bits(l.drop_first()) =~= Seq::<bool>::empty());
            assert(b.subrange(p, q) =~= se_bits(d) + se_list_bits(l.drop_first()));
        } else {
            lemma_scaling_list_bits(b, p1, (remaining - 1) as nat, ns);
            lemma_scaling_list_result(b, p1, (remaining - 1) as nat, ns);
            let rest = spec_scaling_list(b, p1, (remaining - 1) as nat, ns)->Ok_0.0;
            assert(l =~= seq![d] + rest);
            assert(l.drop_first() =~= rest);
            assert(b.subrange(p, q) =~= b.subrange(p, p1) + b.subrange(p1, q));
        }
    }
}

/// The bits that scaling lists read from are the bits that writing them gives.
proof fn lemma_scaling_lists_bits(b: Seq<bool>, p: int, i: nat, count: nat)
    requires
        0 <= p <= b.len(),
        i <= count,
        spec_scaling_lists(b, p, i, count) is Ok,
    ensures
        b.subrange(p, spec_scaling_lists(b, p, i, count)->Ok_0.1) == scaling_matrix_bits(
            spec_scaling_lists(b, p, i, count)->Ok_0.0,
        ),
    decreases count - i,
{
    let (m, q) = spec_scaling_lists(b, p, i, count)->Ok_0;
    if i >= count {
        assert(m =~= Seq::<Seq<i64>>::empty());
        assert(b.subrange(p, q) =~= Seq::<bool>::empty());
    } else {
        let (present, p1) = bit_at(b, p)->Ok_0;
        if present {
            lemma_scaling_list_result(b, p1, scaling_list_size(i), 8);
            lemma_scaling_list_bits(b, p1, scaling_list_size(i), 8);
        }
        let (l, p2) = (if present {
            spec_scaling_list(b, p1, scaling_list_size(i), 8)
        } else {
            Ok((seq![], p1))
        })->Ok_0;
        if !present {
            assert(se_list_bits(l) =~= Seq::<bool>::empty());
        }
        lemma_scaling_lists_bits(b, p2, i + 1, count);
        lemma_scaling_lists_end(b, p2, i + 1, count);
        let rest = spec_scaling_lists(b, p2, i + 1, count)->Ok_0.0;
        assert(m =~= seq![l] + rest);
        assert(m.drop_first() =~= rest);
        lemma_scaling_matrix_bits_front(m);
        assert(b.subrange(p, p1) =~= seq![l.len() > 0]);
        assert(b.subrange(p, q) =~= b.subrange(p, p1) + b.subrange(p1, p2) + b.subrange(p2, q));
    }
}

/// The chroma format and the two bit depths that an SPS extension at `p` spells fit a byte,
/// the width of the fields that keep them.
pub open spec fn ext_fields_fit(b: Seq<bool>, p: int) -> bool {
    match ue_at(b, p) {
        Err(_) => true,
        Ok((cf, p1)) => {
            let p2 = if cf as u8 == 3 {
                p1 + 1
            } else {
                p1
            };
            &&& cf < 256
            &&& (ue_at(b, p2) matches Ok((luma, p3)) ==> luma < 256 && (ue_at(b, p3) matches Ok((
                cd,
                _,
            )) ==> cd < 256))
        },
    }
}

/// Building an SPS extension that was parsed writes exactly the bits that parsing read, as
/// long as the values read fit the fields that keep them.
#[verifier::rlimit(60)]
pub proof fn lemma_ext_build_of_parse(b: Seq<bool>, p: int)
    requires
        0 <= p <= b.len(),
        spec_sps_extended(b, p) is Ok,
        ext_fields_fit(b, p),
    ensures
        spec_sps_extended(b, p)->Ok_0.0.spec_bits() == b.subrange(p, spec_sps_extended(b, p)->Ok_0.1),
{
    let (e, q) = spec_sps_extended(b, p)->Ok_0;
    lemma_ue_at_bound(b, p);
    lemma_ue_at_bits(b, p);
    let (cf, p1) = ue_at(b, p)->Ok_0;
    let chroma = cf as u8;
    let p2 = (if chroma == 3 {
        bit_at(b, p1)
    } else {
        Ok((false, p1))
    })->Ok_0.1;
    lemma_ue_at_bound(b, p2);
    lemma_ue_at_bits(b, p2);
    let p3 = ue_at(b, p2)->Ok_0.1;
    lemma_ue_at_bound(b, p3);
    lemma_ue_at_bits(b, p3);
    let p4 = ue_at(b, p3)->Ok_0.1;
    let p5 = p4 + 1;
    let (present, p6) = bit_at(b, p5)->Ok_0;
    let count: nat = if chroma != 3 {
        8
    } else {
        12
    };
    if present {
        lemma_scaling_lists_bits(b, p6, 0, count);
        lemma_scaling_lists_result(b, p6, 0, count);
        lemma_scaling_lists_end(b, p6, 0, count);
    } else {
        assert(e.scaling_matrix =~= Seq::<Seq<i64>>::empty());
        assert(scaling_matrix_bits(e.scaling_matrix) =~= Seq::<bool>::empty());
    }
    let sb: Seq<bool> = if chroma == 3 {
        seq![e.separate_color_plane_flag]
    } else {
        seq![]
    };
    assert(b.subrange(p1, p2) =~= sb);
    assert(b.subrange(p4, p5) =~= seq![e.qpprime_y_zero_transform_bypass_flag]);
    assert(b.subrange(p5, p6) =~= seq![e.scaling_matrix.len() > 0]);
    lemma_subrange_concat(b, p, p1, p2);
    lemma_subrange_concat(b, p, p2, p3);
    lemma_subrange_concat(b, p, p3, p4);
    lemma_subrange_concat(b, p, p4, p5);
    lemma_subrange_concat(b, p, p5, p6);
    lemma_subrange_concat(b, p, p6, q);
}

/// A range of bits is its two halves.
proof fn lemma_subrange_concat(b: Seq<bool>, a: int, m: int, c: int)
    requires
        0 <= a <= m <= c <= b.len(),
    ensures
        b.subrange(a, c) == b.subrange(a, m) + b.subrange(m, c),
{
    assert(b.subrange(a, c) =~= b.subrange(a, m) + b.subrange(m, c));
}

/// Parsing what building an SPS extension wrote and building again writes the same bits.
pub proof fn lemma_ext_rebuild_same_bits(e: SpsExtendedView, pad: Seq<bool>)
    requires
        ext_canonical(e),
    ensures
        spec_sps_extended(e.spec_bits() + pad, 0) is Ok,
        spec_sps_extended(e.spec_bits() + pad, 0)->Ok_0.0.spec_bits() == e.spec_bits(),
{
    let b = e.spec_bits() + pad;
    assert(b.subrange(0, e.spec_bits().len() as int) =~= e.spec_bits());
    lemma_ext_window(b, 0, e);
}

/// The bits from `q` on are fewer than a byte and all unset: the padding of a last byte.
pub open spec fn zero_padded(b: Seq<bool>, q: int) -> bool {
    &&& 0 <= q <= b.len() < q + 8
    &&& forall|i: int| q <= i < b.len() ==> !b[i]
}

/// Parsing an SPS extension from bytes that hold nothing after it but the unset padding of the
/// last byte, building what was parsed and padding the last byte with `pad` unset bits gives
/// the same bytes, as long as the values read fit the fields that keep them.
pub proof fn lemma_ext_build_inverts_parse(data: Seq<u8>, rebuilt: Seq<u8>, pad: nat)
    requires
        spec_sps_extended(bits_of_bytes(data), 0) is Ok,
        ext_fields_fit(bits_of_bytes(data), 0),
        zero_padded(bits_of_bytes(data), spec_sps_extended(bits_of_bytes(data), 0)->Ok_0.1),
        bits_of_bytes(rebuilt) == spec_sps_extended(bits_of_bytes(data), 0)->Ok_0.0.spec_bits()
            + repeat_bit(false, pad),
        pad < 8,
    ensures
        rebuilt == data,
{
    let b = bits_of_bytes(data);
    let (e, q) = spec_sps_extended(b, 0)->Ok_0;
    lemma_ext_build_of_parse(b, 0);
    assert(bits_of_bytes(data).len() == data.len() * 8);
    assert(bits_of_bytes(rebuilt).len() == rebuilt.len() * 8);
    let r: int = b.len() - q;
    assert(r == pad) by (nonlinear_arith)
        requires
            data.len() * 8 == q + r,
            rebuilt.len() * 8 == q + pad,
            0 <= r < 8,
            pad < 8,
    ;
    assert(b =~= b.subrange(0, q) + repeat_bit(false, pad));
    lemma_bits_of_bytes_injective(rebuilt, data);
}

/// The NAL unit header and the profile, constraint and level bytes come first: the profile that
/// the head reads is the second byte and the level the fourth.
#[verifier::rlimit(60)]
proof fn lemma_head_profile_level(d: Seq<u8>, s0: SpsView)
    requires
        spec_sps_head(bits_of_bytes(d), s0) is Ok,
    ensures
        d.len() >= 4,
        spec_sps_head(bits_of_bytes(d), s0)->Ok_0.0.profile_idc == d[1],
        spec_sps_head(bits_of_bytes(d), s0)->Ok_0.0.level_idc == d[3],
{
    let b = bits_of_bytes(d);
    assert(b.len() == d.len() * 8);
    assert(b.len() >= 32);
    assert(d.len() >= 4) by (nonlinear_arith)
        requires
            d.len() * 8 >= 32,
    ;
    lemma_byte_at_bytes(d, 1);
    lemma_byte_at_bytes(d, 3);
    let prof = d[1];
    assert(spec_constraint_flags(b, 16, prof) is Ok ==> spec_constraint_flags(b, 16, prof)->Ok_0.1 == 24);
}

/// The profile of an SPS is the second byte of its payload (once emulation prevention bytes are
/// taken out) and its level the fourth; between them the constraint flags and reserved bits
/// take the third byte, and before them the NAL unit header takes the first.
#[verifier::rlimit(60)]
pub proof fn lemma_sps_profile_level_bytes(data: Seq<u8>)
    ensures
        spec_sps(data) is Ok ==> rbsp(data).len() >= 4 && spec_sps(data)->Ok_0.profile_idc == rbsp(data)[1]
            && spec_sps(data)->Ok_0.level_idc == rbsp(data)[3],
{
    if spec_sps(data) is Ok {
        let d = rbsp(data);
        let b = bits_of_bytes(d);
        let s0 = blank_sps_view();
        assert(spec_sps(data) == spec_sps_from_bits(b));
        let (s1, p1) = spec_sps_head(b, s0)->Ok_0;
        lemma_head_profile_level(d, s0);
        lemma_head_result(b, s0);
        lemma_ext_stage_result(b, p1, s1);
        let (s2, p2) = spec_sps_ext_stage(b, p1, s1)->Ok_0;
        lemma_order_result(b, p2, s2);
        let (s3, p3) = spec_sps_order(b, p2, s2)->Ok_0;
        lemma_frame_result(b, p3, s3);
        let (s4, p4) = spec_sps_frame(b, p3, s3)->Ok_0;
        lemma_vui_result(b, p4, s4);
    }
}

} // verus!
