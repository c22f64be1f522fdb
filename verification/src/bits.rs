//! Bit-level reading and writing, most significant bit first.
use vstd::prelude::*;

use crate::error::IoError;
use vstd::bits::{lemma_u64_shr_is_div, lemma_u8_shl_is_mul};

verus! {

/// `2^n`.
pub open spec fn p2(n: nat) -> nat
    decreases n,
{
    if n == 0 {
        1
    } else {
        2 * p2((n - 1) as nat)
    }
}

/// Bit `i` (0 is the most significant) of a byte.
pub open spec fn byte_bit(x: u8, i: int) -> bool {
    ((x >> ((7 - i) as u8)) & 1u8) == 1u8
}

/// The bits of a byte string, most significant bit of each byte first.
pub open spec fn bits_of_bytes(s: Seq<u8>) -> Seq<bool> {
    Seq::new((s.len() * 8) as nat, |i: int| byte_bit(s[i / 8], i % 8))
}

/// The unsigned number that a bit string spells out, most significant bit first.
pub open spec fn bits_value(b: Seq<bool>) -> nat
    decreases b.len(),
{
    if b.len() == 0 {
        0
    } else {
        2 * bits_value(b.drop_last()) + if b.last() {
            1nat
        } else {
            0nat
        }
    }
}

/// The `n` lowest bits of `x`, most significant first.
pub open spec fn nat_bits(x: nat, n: nat) -> Seq<bool>
    decreases n,
{
    if n == 0 {
        seq![]
    } else {
        nat_bits(x / 2, (n - 1) as nat).push(x % 2 == 1)
    }
}

/// `n` copies of a bit.
pub open spec fn repeat_bit(b: bool, n: nat) -> Seq<bool> {
    Seq::new(n, |i: int| b)
}

/// `r` is what a reader that ended at `end` returned, and `spec` is what the parser's
/// specification gives: the same value and end position, or the same error.
pub open spec fn read_result<T>(spec: Result<(T, int), IoError>, r: Result<T, IoError>, end: int) -> bool {
    match r {
        Ok(v) => spec == Ok::<(T, int), IoError>((v, end)),
        Err(e) => spec == Err::<(T, int), IoError>(e),
    }
}

/// As [`read_result`], for values compared by their view.
pub open spec fn read_result_view<T: View>(
    spec: Result<(T::V, int), IoError>,
    r: Result<T, IoError>,
    end: int,
) -> bool {
    match r {
        Ok(v) => spec == Ok::<(T::V, int), IoError>((v@, end)),
        Err(e) => spec == Err::<(T::V, int), IoError>(e),
    }
}

/// Reads the bit at `p`: the bit and the position after it.
pub open spec fn bit_at(b: Seq<bool>, p: int) -> Result<(bool, int), IoError> {
    if 0 <= p < b.len() {
        Ok((b[p], p + 1))
    } else {
        Err(IoError::UnexpectedEof)
    }
}

/// Reads `n` bits at `p` as an unsigned number.
pub open spec fn bits_at(b: Seq<bool>, p: int, n: nat) -> Result<(u64, int), IoError> {
    if 0 <= p && p + n <= b.len() {
        Ok((bits_value(b.subrange(p, p + n)) as u64, p + n))
    } else {
        Err(IoError::UnexpectedEof)
    }
}

/// Reads eight bits at `p` as a byte.
pub open spec fn byte_at(b: Seq<bool>, p: int) -> Result<(u8, int), IoError> {
    match bits_at(b, p, 8) {
        Ok((v, q)) => Ok((v as u8, q)),
        Err(e) => Err(e),
    }
}

/// Skips `n` bits at `p`.
pub open spec fn skip_at(b: Seq<bool>, p: int, n: nat) -> Result<int, IoError> {
    if 0 <= p && p + n <= b.len() {
        Ok(p + n)
    } else {
        Err(IoError::UnexpectedEof)
    }
}

pub proof fn lemma_p2_pos(n: nat)
    ensures
        p2(n) >= 1,
    decreases n,
{
    if n > 0 {
        lemma_p2_pos((n - 1) as nat);
    }
}

pub proof fn lemma_p2_mono(a: nat, b: nat)
    requires
        a <= b,
    ensures
        p2(a) <= p2(b),
    decreases b,
{
    if a < b {
        lemma_p2_mono(a, (b - 1) as nat);
        lemma_p2_pos((b - 1) as nat);
    }
}

pub proof fn lemma_p2_64()
    ensures
        p2(64) == 0x1_0000_0000_0000_0000,
        p2(32) == 0x1_0000_0000,
        p2(16) == 0x1_0000,
        p2(8) == 256,
{
    reveal_with_fuel(p2, 65);
}

pub proof fn lemma_bits_value_bound(b: Seq<bool>)
    ensures
        bits_value(b) < p2(b.len()),
    decreases b.len(),
{
    if b.len() > 0 {
        lemma_bits_value_bound(b.drop_last());
    }
}

pub proof fn lemma_nat_bits_len(x: nat, n: nat)
    ensures
        nat_bits(x, n).len() == n,
    decreases n,
{
    if n > 0 {
        lemma_nat_bits_len(x / 2, (n - 1) as nat);
    }
}

/// Writing `x` in `n` bits and reading the bits back gives `x`.
pub proof fn lemma_nat_bits_value(x: nat, n: nat)
    requires
        x < p2(n),
    ensures
        bits_value(nat_bits(x, n)) == x,
        nat_bits(x, n).len() == n,
    decreases n,
{
    lemma_nat_bits_len(x, n);
    if n > 0 {
        lemma_nat_bits_value(x / 2, (n - 1) as nat);
        assert(nat_bits(x, n).drop_last() =~= nat_bits(x / 2, (n - 1) as nat));
    }
}

/// A bit string is the `len`-bit spelling of its value.
pub proof fn lemma_value_nat_bits(b: Seq<bool>)
    ensures
        nat_bits(bits_value(b), b.len()) == b,
    decreases b.len(),
{
    if b.len() > 0 {
        lemma_value_nat_bits(b.drop_last());
        let v = bits_value(b);
        assert(v / 2 == bits_value(b.drop_last()));
        assert(nat_bits(v, b.len()) =~= b.drop_last().push(b.last()));
        assert(b.drop_last().push(b.last()) =~= b);
    }
}

/// Appending one bit doubles the value and adds the bit.
pub proof fn lemma_bits_value_push(b: Seq<bool>, x: bool)
    ensures
        bits_value(b.push(x)) == 2 * bits_value(b) + if x {
            1nat
        } else {
            0nat
        },
{
    assert(b.push(x).drop_last() =~= b);
}

/// The eight bits of a byte spell the byte.
#[verifier::spinoff_prover]
#[verifier::rlimit(60)]
pub proof fn lemma_byte_bits(c: u8)
    ensures
        nat_bits(c as nat, 8) =~= bits_of_bytes(seq![c]),
        bits_value(bits_of_bytes(seq![c])) == c,
{
    reveal_with_fuel(nat_bits, 9);
    let s = seq![c];
    assert(s[0] == c);
    assert(((c >> 7u8) & 1u8 == 1u8) == ((c / 128) % 2 == 1)) by (bit_vector);
    assert(((c >> 6u8) & 1u8 == 1u8) == ((c / 64) % 2 == 1)) by (bit_vector);
    assert(((c >> 5u8) & 1u8 == 1u8) == ((c / 32) % 2 == 1)) by (bit_vector);
    assert(((c >> 4u8) & 1u8 == 1u8) == ((c / 16) % 2 == 1)) by (bit_vector);
    assert(((c >> 3u8) & 1u8 == 1u8) == ((c / 8) % 2 == 1)) by (bit_vector);
    assert(((c >> 2u8) & 1u8 == 1u8) == ((c / 4) % 2 == 1)) by (bit_vector);
    assert(((c >> 1u8) & 1u8 == 1u8) == ((c / 2) % 2 == 1)) by (bit_vector);
    assert(((c >> 0u8) & 1u8 == 1u8) == (c % 2 == 1)) by (bit_vector);
    let x = c as nat;
    assert(x / 2 / 2 == x / 4);
    assert(x / 4 / 2 == x / 8);
    assert(x / 8 / 2 == x / 16);
    assert(x / 16 / 2 == x / 32);
    assert(x / 32 / 2 == x / 64);
    assert(x / 64 / 2 == x / 128);
    let nb = nat_bits(x, 8);
    lemma_nat_bits_len(x, 8);
    assert(nb =~= seq![
        (x / 128) % 2 == 1,
        (x / 64) % 2 == 1,
        (x / 32) % 2 == 1,
        (x / 16) % 2 == 1,
        (x / 8) % 2 == 1,
        (x / 4) % 2 == 1,
        (x / 2) % 2 == 1,
        x % 2 == 1,
    ]);
    let bb = bits_of_bytes(s);
    assert(bb.len() == 8);
    assert(bb[0] == byte_bit(c, 0));
    assert(bb[1] == byte_bit(c, 1));
    assert(bb[2] == byte_bit(c, 2));
    assert(bb[3] == byte_bit(c, 3));
    assert(bb[4] == byte_bit(c, 4));
    assert(bb[5] == byte_bit(c, 5));
    assert(bb[6] == byte_bit(c, 6));
    assert(bb[7] == byte_bit(c, 7));
    assert(nb =~= bb);
    lemma_p2_64();
    lemma_nat_bits_value(x, 8);
}

/// The bits of a concatenation of byte strings.
pub proof fn lemma_bits_of_bytes_push(s: Seq<u8>, c: u8)
    ensures
        bits_of_bytes(s.push(c)) =~= bits_of_bytes(s) + bits_of_bytes(seq![c]),
{
    let l = bits_of_bytes(s.push(c));
    let r = bits_of_bytes(s) + bits_of_bytes(seq![c]);
    assert(l.len() == r.len());
    assert forall|i: int| 0 <= i < l.len() implies l[i] == r[i] by {
        if i < s.len() * 8 {
            assert(i / 8 < s.len()) by (nonlinear_arith)
                requires
                    0 <= i < s.len() * 8,
            ;
            assert(s.push(c)[i / 8] == s[i / 8]);
        } else {
            let j = i - s.len() * 8;
            assert(i / 8 == s.len() + j / 8 && i % 8 == j % 8 && j / 8 == 0) by (nonlinear_arith)
                requires
                    j == i - s.len() * 8,
                    0 <= j < 8,
            ;
        }
    }
}

/// Byte strings with the same bits are the same.
pub proof fn lemma_bits_of_bytes_injective(a: Seq<u8>, b: Seq<u8>)
    requires
        bits_of_bytes(a) == bits_of_bytes(b),
    ensures
        a == b,
{
    assert(bits_of_bytes(a).len() == bits_of_bytes(b).len());
    assert(bits_of_bytes(a).len() == a.len() * 8);
    assert(bits_of_bytes(b).len() == b.len() * 8);
    assert(a.len() == b.len()) by (nonlinear_arith)
        requires
            a.len() * 8 == b.len() * 8,
    ;
    assert forall|i: int| 0 <= i < a.len() implies a[i] == b[i] by {
        let x = a[i];
        let y = b[i];
        assert forall|j: int| 0 <= j < 8 implies byte_bit(x, j) == byte_bit(y, j) by {
            let k = 8 * i + j;
            assert(k / 8 == i && k % 8 == j && k < a.len() * 8) by (nonlinear_arith)
                requires
                    k == 8 * i + j,
                    0 <= j < 8,
                    0 <= i < a.len(),
            ;
            assert(bits_of_bytes(a)[k] == byte_bit(a[k / 8], k % 8));
            assert(bits_of_bytes(b)[k] == byte_bit(b[k / 8], k % 8));
        }
        assert(byte_bit(x, 0) == byte_bit(y, 0));
        assert(byte_bit(x, 1) == byte_bit(y, 1));
        assert(byte_bit(x, 2) == byte_bit(y, 2));
        assert(byte_bit(x, 3) == byte_bit(y, 3));
        assert(byte_bit(x, 4) == byte_bit(y, 4));
        assert(byte_bit(x, 5) == byte_bit(y, 5));
        assert(byte_bit(x, 6) == byte_bit(y, 6));
        assert(byte_bit(x, 7) == byte_bit(y, 7));
        assert(((x >> 7u8) & 1u8 == 1u8) == ((y >> 7u8) & 1u8 == 1u8) && ((x >> 6u8) & 1u8 == 1u8) == ((
        y >> 6u8) & 1u8 == 1u8) && ((x >> 5u8) & 1u8 == 1u8) == ((y >> 5u8) & 1u8 == 1u8) && ((x
            >> 4u8) & 1u8 == 1u8) == ((y >> 4u8) & 1u8 == 1u8) && ((x >> 3u8) & 1u8 == 1u8) == ((y
            >> 3u8) & 1u8 == 1u8) && ((x >> 2u8) & 1u8 == 1u8) == ((y >> 2u8) & 1u8 == 1u8) && ((x
            >> 1u8) & 1u8 == 1u8) == ((y >> 1u8) & 1u8 == 1u8) && ((x >> 0u8) & 1u8 == 1u8) == ((y
            >> 0u8) & 1u8 == 1u8) ==> x == y) by (bit_vector);
    }
    assert(a =~= b);
}

/// Reading eight bits at a byte boundary of a byte string reads that byte.
pub proof fn lemma_byte_at_bytes(d: Seq<u8>, i: int)
    requires
        0 <= i < d.len(),
    ensures
        byte_at(bits_of_bytes(d), 8 * i) == Ok::<(u8, int), IoError>((d[i], 8 * i + 8)),
{
    let b = bits_of_bytes(d);
    assert(b.len() == d.len() * 8);
    assert(8 * i + 8 <= d.len() * 8) by (nonlinear_arith)
        requires
            0 <= i < d.len(),
    ;
    let w = b.subrange(8 * i, 8 * i + 8);
    let one = bits_of_bytes(seq![d[i]]);
    assert forall|j: int| 0 <= j < 8 implies w[j] == one[j] by {
        let k = 8 * i + j;
        assert(k / 8 == i && k % 8 == j) by (nonlinear_arith)
            requires
                k == 8 * i + j,
                0 <= j < 8,
                0 <= i,
        ;
        assert(b[k] == byte_bit(d[k / 8], k % 8));
        assert(one[j] == byte_bit(seq![d[i]][j / 8], j % 8));
    }
    assert(w =~= one);
    lemma_byte_bits(d[i]);
}

/// A cursor that reads single bits or groups of bits from a byte buffer.
pub struct BitReader {
    /// The bytes being read.
    pub data: Vec<u8>,
    /// The position, counted in bits from the start of `data`.
    pub pos: usize,
}

impl BitReader {
    pub open spec fn wf(&self) -> bool {
        &&& self.data.len() * 8 <= usize::MAX
        &&& self.pos <= self.data.len() * 8
    }

    /// All bits of the buffer.
    pub open spec fn bits(&self) -> Seq<bool> {
        bits_of_bytes(self.data@)
    }

    /// Creates a reader positioned at the first bit of `data`.
    pub fn new(data: Vec<u8>) -> (r: Self)
        requires
            data.len() * 8 <= usize::MAX,
        ensures
            r.wf(),
            r.data@ == data@,
            r.pos == 0,
    {
        BitReader { data, pos: 0 }
    }

    /// The number of bits that remain.
    pub fn remaining_bits(&self) -> (r: usize)
        requires
            self.wf(),
        ensures
            r == self.bits().len() - self.pos,
    {
        self.data.len() * 8 - self.pos
    }

    /// Reads one bit.
    pub fn read_bit(&mut self) -> (r: Result<bool, IoError>)
        requires
            old(self).wf(),
        ensures
            final(self).wf(),
            final(self).data@ == old(self).data@,
            match r {
                Ok(b) => bit_at(old(self).bits(), old(self).pos as int) == Ok::<(bool, int), IoError>(
                    (b, final(self).pos as int),
                ),
                Err(e) => bit_at(old(self).bits(), old(self).pos as int) == Err::<(bool, int), IoError>(
                    e,
                ) && final(self).pos == old(self).pos,
            },
    {
        if self.pos >= self.data.len() * 8 {
            return Err(IoError::UnexpectedEof);
        }
        let byte = self.data[self.pos / 8];
        let shift = (7 - self.pos % 8) as u8;
        let bit = ((byte >> shift) & 1u8) == 1u8;
        self.pos = self.pos + 1;
        Ok(bit)
    }

    /// Reads `n` bits (at most 64) as an unsigned number, most significant bit first.
    pub fn read_bits(&mut self, n: u8) -> (r: Result<u64, IoError>)
        requires
            old(self).wf(),
            n <= 64,
        ensures
            final(self).wf(),
            final(self).data@ == old(self).data@,
            match r {
                Ok(v) => bits_at(old(self).bits(), old(self).pos as int, n as nat) == Ok::<
                    (u64, int),
                    IoError,
                >((v, final(self).pos as int)),
                Err(e) => bits_at(old(self).bits(), old(self).pos as int, n as nat) == Err::<
                    (u64, int),
                    IoError,
                >(e) && final(self).pos == old(self).pos,
            },
    {
        if self.remaining_bits() < n as usize {
            return Err(IoError::UnexpectedEof);
        }
        let ghost start = self.pos as int;
        let ghost bits = self.bits();
        let mut value: u64 = 0;
        let mut i: u8 = 0;
        while i < n
            invariant
                self.wf(),
                self.data@ == old(self).data@,
                bits == self.bits(),
                start == old(self).pos,
                i <= n <= 64,
                self.pos == start + i,
                start + n <= bits.len(),
                value == bits_value(bits.subrange(start, start + i)),
            decreases n - i,
        {
            proof {
                lemma_bits_value_bound(bits.subrange(start, start + i));
                lemma_p2_mono(i as nat, 63);
                lemma_p2_64();
            }
            let b = self.read_bit();
            let bit = match b {
                Ok(bit) => bit,
                Err(e) => {
                    return Err(e);
                },
            };
            proof {
                assert(bits.subrange(start, start + i + 1) =~= bits.subrange(start, start + i).push(
                    bit,
                ));
                lemma_bits_value_push(bits.subrange(start, start + i), bit);
            }
            value = value * 2 + if bit {
                1u64
            } else {
                0u64
            };
            i = i + 1;
        }
        proof {
            lemma_bits_value_bound(bits.subrange(start, start + n));
            lemma_p2_mono(n as nat, 64);
            lemma_p2_64();
        }
        Ok(value)
    }

    /// Reads eight bits as a byte.
    pub fn read_u8(&mut self) -> (r: Result<u8, IoError>)
        requires
            old(self).wf(),
        ensures
            final(self).wf(),
            final(self).data@ == old(self).data@,
            match r {
                Ok(v) => byte_at(old(self).bits(), old(self).pos as int) == Ok::<(u8, int), IoError>(
                    (v, final(self).pos as int),
                ),
                Err(e) => byte_at(old(self).bits(), old(self).pos as int) == Err::<(u8, int), IoError>(
                    e,
                ) && final(self).pos == old(self).pos,
            },
    {
        let r = self.read_bits(8);
        match r {
            Ok(v) => {
                proof {
                    lemma_bits_value_bound(
                        old(self).bits().subrange(old(self).pos as int, old(self).pos + 8),
                    );
                    lemma_p2_64();
                }
                Ok(v as u8)
            },
            Err(e) => Err(e),
        }
    }

    /// Skips `n` bits.
    pub fn seek_bits(&mut self, n: u8) -> (r: Result<(), IoError>)
        requires
            old(self).wf(),
        ensures
            final(self).wf(),
            final(self).data@ == old(self).data@,
            match r {
                Ok(_) => skip_at(old(self).bits(), old(self).pos as int, n as nat) == Ok::<int, IoError>(
                    final(self).pos as int,
                ),
                Err(e) => skip_at(old(self).bits(), old(self).pos as int, n as nat) == Err::<int, IoError>(
                    e,
                ) && final(self).pos == old(self).pos,
            },
    {
        if self.remaining_bits() < n as usize {
            return Err(IoError::UnexpectedEof);
        }
        self.pos = self.pos + n as usize;
        Ok(())
    }
}

/// A sink that collects bits, most significant bit first, and packs them into bytes.
pub struct BitWriter {
    /// The completed bytes.
    pub bytes: Vec<u8>,
    /// The bits of the byte being filled, as a number.
    pub cur: u8,
    /// How many bits of the byte being filled have been written.
    pub nbits: u8,
}

impl BitWriter {
    pub open spec fn wf(&self) -> bool {
        &&& self.nbits < 8
        &&& (self.cur as nat) < p2(self.nbits as nat)
    }

    /// Every bit written so far.
    pub closed spec fn bits(&self) -> Seq<bool> {
        bits_of_bytes(self.bytes@) + nat_bits(self.cur as nat, self.nbits as nat)
    }

    /// Creates an empty writer.
    pub fn new() -> (r: Self)
        ensures
            r.wf(),
            r.bits() == Seq::<bool>::empty(),
    {
        let r = BitWriter { bytes: Vec::new(), cur: 0, nbits: 0 };
        assert(r.bits() =~= Seq::<bool>::empty());
        r
    }

    /// Appends one bit.
    pub fn write_bit(&mut self, bit: bool)
        requires
            old(self).wf(),
        ensures
            final(self).wf(),
            final(self).bits() == old(self).bits().push(bit),
    {
        let ghost old_bits = self.bits();
        proof {
            lemma_p2_mono(self.nbits as nat, 7);
            reveal_with_fuel(p2, 8);
        }
        let next: u8 = self.cur * 2 + if bit {
            1u8
        } else {
            0u8
        };
        proof {
            let x = next as nat;
            assert(x / 2 == self.cur as nat);
            assert((x % 2 == 1) == bit);
            assert(nat_bits(x, (self.nbits + 1) as nat) =~= nat_bits(
                self.cur as nat,
                self.nbits as nat,
            ).push(bit));
        }
        if self.nbits == 7 {
            proof {
                lemma_bits_of_bytes_push(self.bytes@, next);
                lemma_byte_bits(next);
            }
            self.bytes.push(next);
            self.cur = 0;
            self.nbits = 0;
            assert(self.bits() =~= old_bits.push(bit));
        } else {
            self.cur = next;
            self.nbits = self.nbits + 1;
            assert(self.bits() =~= old_bits.push(bit));
        }
    }

    /// Appends the `n` lowest bits of `value`, most significant first.
    pub fn write_bits(&mut self, value: u64, n: u8)
        requires
            old(self).wf(),
            n <= 64,
        ensures
            final(self).wf(),
            final(self).bits() == old(self).bits() + nat_bits(value as nat, n as nat),
    {
        let mut i: u8 = n;
        let ghost v = value as nat;
        proof {
            lemma_p2_pos(n as nat);
            assert(self.bits() =~= old(self).bits() + nat_bits(v / p2(i as nat), (n - i) as nat));
        }
        while i > 0
            invariant
                self.wf(),
                i <= n <= 64,
                v == value,
                self.bits() == old(self).bits() + nat_bits(v / p2(i as nat), (n - i) as nat),
            decreases i,
        {
            let ghost before = self.bits();
            let shifted = value >> ((i - 1) as u64);
            let bit = (shifted & 1u64) == 1u64;
            proof {
                lemma_u64_shr_is_div(value, (i - 1) as u64);
                lemma_p2_is_pow2((i - 1) as nat);
                assert(((shifted & 1u64) == 1u64) == (shifted % 2 == 1)) by (bit_vector);
                let y = v / p2((i - 1) as nat);
                lemma_p2_pos((i - 1) as nat);
                vstd::arithmetic::div_mod::lemma_div_denominator(
                    v as int,
                    p2((i - 1) as nat) as int,
                    2,
                );
                assert(p2(i as nat) == p2((i - 1) as nat) * 2);
                assert(y / 2 == v / p2(i as nat));
                assert(nat_bits(y, (n - i + 1) as nat) =~= nat_bits(
                    v / p2(i as nat),
                    (n - i) as nat,
                ).push(bit));
            }
            self.write_bit(bit);
            i = i - 1;
            assert(self.bits() =~= old(self).bits() + nat_bits(v / p2(i as nat), (n - i) as nat));
        }
        assert(p2(0) == 1);
        assert(v / p2(0) == v);
    }

    /// Pads the last byte with zero bits and returns the bytes.
    pub fn finish(self) -> (r: Vec<u8>)
        requires
            self.wf(),
        ensures
            bits_of_bytes(r@) == self.bits() + repeat_bit(false, self.pad_len()),
    {
        let mut bytes = self.bytes;
        if self.nbits > 0 {
            let k: u8 = 8 - self.nbits;
            proof {
                lemma_p2_mono(self.nbits as nat, 7);
                lemma_p2_mono(k as nat, 7);
                reveal_with_fuel(p2, 8);
                lemma_p2_adds(self.nbits as nat, k as nat);
                assert((self.cur as nat) * p2(k as nat) < 256) by (nonlinear_arith)
                    requires
                        (self.cur as nat) < p2(self.nbits as nat),
                        p2(self.nbits as nat) * p2(k as nat) == p2(8),
                        p2(8) == 256,
                        p2(k as nat) >= 1,
                ;
            }
            let last: u8 = self.cur << k;
            proof {
                lemma_p2_is_pow2(k as nat);
                lemma_u8_shl_is_mul(self.cur, k);
                lemma_bits_of_bytes_push(self.bytes@, last);
                lemma_byte_bits(last);
                lemma_nat_bits_shift(self.cur as nat, self.nbits as nat, k as nat);
            }
            bytes.push(last);
            proof {
                assert(bits_of_bytes(bytes@) =~= self.bits() + repeat_bit(false, self.pad_len()));
            }
        } else {
            assert(bits_of_bytes(bytes@) =~= self.bits() + repeat_bit(false, self.pad_len()));
        }
        bytes
    }

    /// How many zero bits `finish` adds.
    pub open spec fn pad_len(&self) -> nat {
        if self.nbits == 0 {
            0
        } else {
            (8 - self.nbits) as nat
        }
    }
}

pub proof fn lemma_p2_is_pow2(n: nat)
    ensures
        p2(n) == vstd::arithmetic::power2::pow2(n),
    decreases n,
{
    if n == 0 {
        vstd::arithmetic::power2::lemma2_to64();
    } else {
        lemma_p2_is_pow2((n - 1) as nat);
        vstd::arithmetic::power2::lemma_pow2_unfold(n);
    }
}

pub proof fn lemma_p2_adds(a: nat, b: nat)
    ensures
        p2(a) * p2(b) == p2(a + b),
    decreases a,
{
    if a == 0 {
        assert(p2(0) == 1);
    } else {
        assert(p2(a + b) == 2 * p2((a + b - 1) as nat));
        lemma_p2_adds((a - 1) as nat, b);
        assert(p2(a) * p2(b) == 2 * (p2((a - 1) as nat) * p2(b))) by (nonlinear_arith)
            requires
                p2(a) == 2 * p2((a - 1) as nat),
        ;
    }
}

/// Shifting left by `k` appends `k` zero bits.
pub proof fn lemma_nat_bits_shift(x: nat, m: nat, k: nat)
    ensures
        nat_bits(x * p2(k), m + k) == nat_bits(x, m) + repeat_bit(false, k),
    decreases k,
{
    if k == 0 {
        assert(p2(0) == 1);
        assert(x * p2(0) == x) by (nonlinear_arith)
            requires
                p2(0) == 1,
        ;
        assert(nat_bits(x, m) + repeat_bit(false, 0) =~= nat_bits(x, m));
    } else {
        lemma_nat_bits_shift(x, m, (k - 1) as nat);
        let y = x * p2(k);
        assert(y == 2 * (x * p2((k - 1) as nat))) by (nonlinear_arith)
            requires
                y == x * p2(k),
                p2(k) == 2 * p2((k - 1) as nat),
        ;
        assert(y / 2 == x * p2((k - 1) as nat));
        assert(y % 2 == 0);
        assert((nat_bits(x, m) + repeat_bit(false, (k - 1) as nat)).push(false) =~= nat_bits(x, m)
            + repeat_bit(false, k));
    }
}

} // verus!
