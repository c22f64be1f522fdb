//! Exponential-Golomb codes (ISO/IEC-14496-10-2022 - 9.1), unsigned and signed.
use vstd::prelude::*;

use crate::bits::{
    read_result, bits_value, lemma_bits_value_bound, lemma_nat_bits_len, lemma_nat_bits_value, lemma_p2_64, lemma_p2_is_pow2, lemma_p2_mono, nat_bits, p2,
    repeat_bit, BitReader, BitWriter,
};
use crate::error::IoError;
use vstd::bits::lemma_u64_shl_is_mul;

verus! {

/// The index of the first set bit at or after `p`, or `b.len()` when there is none.
pub open spec fn first_one(b: Seq<bool>, p: int) -> int
    decreases b.len() - p,
{
    if p >= b.len() {
        b.len() as int
    } else if p < 0 {
        p
    } else if b[p] {
        p
    } else {
        first_one(b, p + 1)
    }
}

/// Decodes the unsigned Exp-Golomb code that starts at bit `p` of `b`: the value and the
/// position after the code. A code of `z` leading zeros, a one and `z` more bits spells
/// `2^z - 1` plus those `z` bits; codes with 64 or more leading zeros are refused.
pub open spec fn ue_at(b: Seq<bool>, p: int) -> Result<(u64, int), IoError> {
    let q = first_one(b, p);
    let z = q - p;
    if z >= 64 {
        Err(IoError::ExpGolombOverflow)
    } else if q + 1 + z > b.len() {
        Err(IoError::UnexpectedEof)
    } else {
        Ok(((bits_value(b.subrange(q, q + 1 + z)) - 1) as u64, q + 1 + z))
    }
}

/// The signed value that the unsigned code number `k` stands for: 0, 1, -1, 2, -2, ...
pub open spec fn se_of(k: u64) -> i64 {
    if k % 2 == 0 {
        (-((k / 2) as int)) as i64
    } else {
        ((k / 2) as int + 1) as i64
    }
}

/// Decodes the signed Exp-Golomb code that starts at bit `p` of `b`.
pub open spec fn se_at(b: Seq<bool>, p: int) -> Result<(i64, int), IoError> {
    match ue_at(b, p) {
        Ok((k, q)) => Ok((se_of(k), q)),
        Err(e) => Err(e),
    }
}

/// `floor(log2(n))` for `n >= 1`.
pub open spec fn ilog2(n: nat) -> nat
    decreases n,
{
    if n <= 1 {
        0
    } else {
        1 + ilog2(n / 2)
    }
}

/// The unsigned Exp-Golomb code of `v`.
pub open spec fn ue_bits(v: u64) -> Seq<bool> {
    let n = v + 1;
    let z = ilog2(n as nat);
    repeat_bit(false, z) + nat_bits(n as nat, z + 1)
}

/// The code number of a signed value: 0, 1, -1, 2, -2, ... become 0, 1, 2, 3, 4, ...
pub open spec fn se_code(v: i64) -> u64 {
    if v <= 0 {
        (-2 * v) as u64
    } else {
        (2 * v - 1) as u64
    }
}

/// The signed Exp-Golomb code of `v`.
pub open spec fn se_bits(v: i64) -> Seq<bool> {
    ue_bits(se_code(v))
}

/// The value of a concatenation of bit strings.
pub proof fn lemma_bits_value_concat(a: Seq<bool>, c: Seq<bool>)
    ensures
        bits_value(a + c) == bits_value(a) * p2(c.len()) + bits_value(c),
    decreases c.len(),
{
    if c.len() == 0 {
        assert(a + c =~= a);
        assert(p2(0) == 1);
        assert(bits_value(a) * p2(0) == bits_value(a)) by (nonlinear_arith)
            requires
                p2(0) == 1,
        ;
    } else {
        lemma_bits_value_concat(a, c.drop_last());
        assert((a + c).drop_last() =~= a + c.drop_last());
        assert((a + c).last() == c.last());
        let x = bits_value(a);
        let y = bits_value(c.drop_last());
        let t: nat = if c.last() {
            1
        } else {
            0
        };
        assert(p2(c.len()) == 2 * p2((c.len() - 1) as nat));
        assert(2 * (x * p2((c.len() - 1) as nat) + y) + t == x * p2(c.len()) + (2 * y + t))
            by (nonlinear_arith)
            requires
                p2(c.len()) == 2 * p2((c.len() - 1) as nat),
        ;
    }
}

/// All bits of a zero are unset.
pub proof fn lemma_nat_bits_zero(n: nat)
    ensures
        nat_bits(0, n) == repeat_bit(false, n),
    decreases n,
{
    if n > 0 {
        lemma_nat_bits_zero((n - 1) as nat);
        assert(repeat_bit(false, (n - 1) as nat).push(false) =~= repeat_bit(false, n));
    }
}

/// `2^ilog2(n) <= n < 2^(ilog2(n) + 1)`.
pub proof fn lemma_ilog2_bounds(n: nat)
    requires
        n >= 1,
    ensures
        p2(ilog2(n)) <= n < p2(ilog2(n) + 1),
    decreases n,
{
    if n > 1 {
        lemma_ilog2_bounds(n / 2);
    } else {
        reveal_with_fuel(p2, 2);
    }
}

/// Reads an unsigned Exp-Golomb code.
pub fn read_exp_golomb(reader: &mut BitReader) -> (r: Result<u64, IoError>)
    requires
        old(reader).wf(),
    ensures
        final(reader).wf(),
        final(reader).data@ == old(reader).data@,
        match r {
            Ok(v) => v < u64::MAX,
            Err(_) => true,
        },
        read_result(ue_at(old(reader).bits(), old(reader).pos as int), r, final(reader).pos as int),
{
    let ghost b = reader.bits();
    let ghost start = reader.pos as int;
    let mut zeros: u8 = 0;
    loop
        invariant_except_break
            reader.pos == start + zeros,
        invariant
            reader.wf(),
            reader.data@ == old(reader).data@,
            b == reader.bits(),
            start == old(reader).pos,
            zeros <= 63,
            forall|i: int| start <= i < start + zeros ==> !b[i],
        ensures
            reader.pos == start + zeros + 1,
            start + zeros < b.len(),
            b[start + zeros],
        decreases 64 - zeros,
    {
        let bit = match reader.read_bit() {
            Ok(bit) => bit,
            Err(e) => {
                proof {
                    lemma_first_one_skip(b, start, start + zeros);
                    lemma_first_one_end(b);
                }
                return Err(e);
            },
        };
        if bit {
            break ;
        }
        if zeros == 63 {
            proof {
                assert(forall|i: int| start <= i < start + 64 ==> !b[i]);
                lemma_first_one_skip(b, start, start + 64);
                lemma_first_one_ge(b, start + 64);
            }
            return Err(IoError::ExpGolombOverflow);
        }
        zeros = zeros + 1;
    }
    let ghost q = start + zeros;
    proof {
        lemma_first_one_skip(b, start, q);
        assert(first_one(b, q) == q);
        assert(first_one(b, start) == q);
    }
    let rest = match reader.read_bits(zeros) {
        Ok(rest) => rest,
        Err(e) => {
            return Err(e);
        },
    };
    proof {
        let s = b.subrange(q, q + 1 + zeros);
        assert(s =~= seq![true] + b.subrange(q + 1, q + 1 + zeros));
        lemma_bits_value_concat(seq![true], b.subrange(q + 1, q + 1 + zeros));
        assert(bits_value(seq![true]) == 1) by {
            assert(seq![true].drop_last() =~= Seq::<bool>::empty());
            assert(seq![true].last());
            assert(bits_value(Seq::<bool>::empty()) == 0);
        }
        lemma_p2_is_pow2(zeros as nat);
        lemma_p2_mono(zeros as nat, 63);
        reveal_with_fuel(p2, 64);
        lemma_p2_64();
        assert(p2(64) == 2 * p2(63));
        lemma_bits_value_bound(b.subrange(q + 1, q + 1 + zeros));
        lemma_u64_shl_is_mul(1, zeros as u64);
    }
    let top: u64 = 1u64 << (zeros as u64);
    proof {
        let s = b.subrange(q, q + 1 + zeros);
        assert(top == p2(zeros as nat));
        assert(bits_value(s) == p2(zeros as nat) + rest);
        assert(p2(63) == 0x8000_0000_0000_0000);
        assert(rest < p2(zeros as nat));
        assert(p2(zeros as nat) <= p2(63));
    }
    Ok((top - 1) + rest)
}

proof fn lemma_first_one_ge(b: Seq<bool>, p: int)
    requires
        0 <= p <= b.len(),
    ensures
        p <= first_one(b, p) <= b.len(),
    decreases b.len() - p,
{
    if p < b.len() {
        lemma_first_one_ge(b, p + 1);
    }
}

proof fn lemma_first_one_end(b: Seq<bool>)
    ensures
        first_one(b, b.len() as int) == b.len(),
{
}

/// Past `p`, up to `q`, no bit is set: the first set bit lies at or after `q`.
proof fn lemma_first_one_skip(b: Seq<bool>, p: int, q: int)
    requires
        0 <= p <= q,
        forall|i: int| p <= i < q ==> !b[i],
    ensures
        q <= b.len() ==> first_one(b, p) == first_one(b, q),
        q > b.len() ==> first_one(b, p) == b.len(),
    decreases q - p,
{
    if p < q && p < b.len() {
        lemma_first_one_skip(b, p + 1, q);
    }
}

/// Reads a signed Exp-Golomb code.
pub fn read_signed_exp_golomb(reader: &mut BitReader) -> (r: Result<i64, IoError>)
    requires
        old(reader).wf(),
    ensures
        final(reader).wf(),
        final(reader).data@ == old(reader).data@,
        read_result(se_at(old(reader).bits(), old(reader).pos as int), r, final(reader).pos as int),
{
    let k = read_exp_golomb(reader)?;
    if k % 2 == 0 {
        Ok(-((k / 2) as i64))
    } else {
        Ok((k / 2) as i64 + 1)
    }
}

/// Writes the unsigned Exp-Golomb code of `v`.
pub fn write_exp_golomb(writer: &mut BitWriter, v: u64)
    requires
        old(writer).wf(),
        v < u64::MAX,
    ensures
        final(writer).wf(),
        final(writer).bits() == old(writer).bits() + ue_bits(v),
{
    let n: u64 = v + 1;
    let mut t: u64 = n;
    let mut z: u8 = 0;
    proof {
        lemma_ilog2_bounds(n as nat);
        lemma_p2_64();
        if ilog2(n as nat) >= 64 {
            lemma_p2_mono(64, ilog2(n as nat));
        }
    }
    while t > 1
        invariant
            1 <= t <= n,
            ilog2(n as nat) <= 63,
            ilog2(n as nat) == z + ilog2(t as nat),
        decreases t,
    {
        t = t / 2;
        z = z + 1;
    }
    proof {
        lemma_nat_bits_zero(z as nat);
    }
    writer.write_bits(0, z);
    writer.write_bits(n, z + 1);
    assert(writer.bits() =~= old(writer).bits() + ue_bits(v));
}

/// Writes the signed Exp-Golomb code of `v`.
pub fn write_signed_exp_golomb(writer: &mut BitWriter, v: i64)
    requires
        old(writer).wf(),
        v > i64::MIN,
    ensures
        final(writer).wf(),
        final(writer).bits() == old(writer).bits() + se_bits(v),
{
    let k: u64 = if v <= 0 {
        let a: u64 = (0i128 - (v as i128)) as u64;
        a * 2
    } else {
        (v as u64) * 2 - 1
    };
    assert(k == se_code(v));
    write_exp_golomb(writer, k);
}

/// The leading bit of an `n`-bit spelling is set when the number is at least `2^(n-1)`.
pub proof fn lemma_nat_bits_top(x: nat, n: nat)
    requires
        n >= 1,
        p2((n - 1) as nat) <= x < p2(n),
    ensures
        nat_bits(x, n)[0],
    decreases n,
{
    lemma_nat_bits_len(x, n);
    if n == 1 {
        assert(p2(0) == 1);
        assert(p2(1) == 2) by {
            reveal_with_fuel(p2, 2);
        }
        assert(nat_bits(x, 1) =~= nat_bits(x / 2, 0).push(x % 2 == 1));
    } else {
        assert(p2(n) == 2 * p2((n - 1) as nat));
        assert(p2((n - 1) as nat) == 2 * p2((n - 2) as nat));
        lemma_nat_bits_top(x / 2, (n - 1) as nat);
        lemma_nat_bits_len(x / 2, (n - 1) as nat);
        assert(nat_bits(x, n)[0] == nat_bits(x / 2, (n - 1) as nat)[0]);
    }
}

/// The first set bit after `z` unset bits and before a set bit is at `z`.
pub proof fn lemma_first_one_after_zeros(z: nat, t: Seq<bool>)
    requires
        t.len() >= 1,
        t[0],
    ensures
        first_one(repeat_bit(false, z) + t, 0) == z,
{
    let b = repeat_bit(false, z) + t;
    assert(b[z as int] == t[0]);
    assert forall|j: int| 0 <= j < z implies !#[trigger] b[j] by {
        assert(b[j] == repeat_bit(false, z)[j]);
    }
    lemma_first_one_down(b, z as int, z as int);
}

/// Helper: counting down from the first set bit at `q`, every earlier unset bit leads to it.
proof fn lemma_first_one_down(b: Seq<bool>, q: int, i: int)
    requires
        0 <= i <= q < b.len(),
        b[q],
        forall|j: int| 0 <= j < q ==> !b[j],
    ensures
        first_one(b, q - i) == q,
    decreases i,
{
    if i > 0 {
        lemma_first_one_down(b, q, i - 1);
    }
}

/// Reading the unsigned Exp-Golomb code of `v` gives `v` back and takes exactly its bits,
/// whatever follows.
pub proof fn lemma_ue_roundtrip(v: u64, rest: Seq<bool>)
    requires
        v < u64::MAX,
    ensures
        ue_at(ue_bits(v) + rest, 0) == Ok::<(u64, int), IoError>((v, ue_bits(v).len() as int)),
{
    let n = (v + 1) as nat;
    let z = ilog2(n);
    lemma_ilog2_bounds(n);
    lemma_p2_64();
    if z >= 64 {
        lemma_p2_mono(64, z);
    }
    lemma_nat_bits_value(n, z + 1);
    lemma_nat_bits_top(n, z + 1);
    let code = nat_bits(n, z + 1);
    let b = ue_bits(v) + rest;
    assert(b =~= repeat_bit(false, z) + (code + rest));
    lemma_first_one_after_zeros(z, code + rest);
    assert(b.subrange(z as int, (z + 1 + z) as int) =~= code);
}

/// Reading the signed Exp-Golomb code of `v` gives `v` back and takes exactly its bits,
/// whatever follows.
pub proof fn lemma_se_roundtrip(v: i64, rest: Seq<bool>)
    requires
        v > i64::MIN,
    ensures
        se_at(se_bits(v) + rest, 0) == Ok::<(i64, int), IoError>((v, se_bits(v).len() as int)),
{
    lemma_ue_roundtrip(se_code(v), rest);
}

} // verus!
