//! Emulation prevention (ISO/IEC-14496-10-2022 - 7.4.1): inside a NAL unit, the byte 0x03 is
//! inserted after two zero bytes whenever the next byte is 0x00 to 0x03, and removed again when
//! reading.
use vstd::prelude::*;

verus! {

/// The raw byte sequence payload of `d`: every `00 00 03` becomes `00 00`.
pub open spec fn rbsp(d: Seq<u8>) -> Seq<u8>
    decreases d.len(),
{
    if d.len() == 0 {
        seq![]
    } else if d.len() >= 3 && d[0] == 0 && d[1] == 0 && d[2] == 3 {
        seq![0u8, 0u8] + rbsp(d.subrange(3, d.len() as int))
    } else {
        seq![d[0]] + rbsp(d.subrange(1, d.len() as int))
    }
}

/// Removes the emulation prevention bytes from a NAL unit.
pub fn remove_emulation_prevention(data: &[u8]) -> (r: Vec<u8>)
    ensures
        r@ == rbsp(data@),
{
    let mut vec: Vec<u8> = Vec::with_capacity(data.len());
    let mut i: usize = 0;
    assert(data@.subrange(0, data@.len() as int) =~= data@);
    while i < data.len()
        invariant
            i <= data.len(),
            vec@ + rbsp(data@.subrange(i as int, data@.len() as int)) == rbsp(data@),
        decreases data.len() - i,
    {
        let ghost d = data@.subrange(i as int, data@.len() as int);
        if data.len() - i > 2 && data[i] == 0x00 && data[i + 1] == 0x00 && data[i + 2] == 0x03 {
            vec.push(0x00);
            vec.push(0x00);
            i = i + 3;
            assert(d.subrange(3, d.len() as int) =~= data@.subrange(i as int, data@.len() as int));
        } else {
            vec.push(data[i]);
            i = i + 1;
            assert(d.subrange(1, d.len() as int) =~= data@.subrange(i as int, data@.len() as int));
        }
        assert(vec@ + rbsp(data@.subrange(i as int, data@.len() as int)) =~= rbsp(data@));
    }
    assert(data@.subrange(i as int, data@.len() as int) =~= Seq::<u8>::empty());
    assert(vec@ =~= rbsp(data@));
    vec
}

/// What writing `buf` emits after `zc` zero bytes: a 0x03 goes before any byte up to 0x03 that
/// follows two zeros. Gives the bytes and the number of zero bytes at the end.
pub open spec fn ep_encode(zc: nat, buf: Seq<u8>) -> (Seq<u8>, nat)
    decreases buf.len(),
{
    if buf.len() == 0 {
        (seq![], zc)
    } else {
        let byte = buf[0];
        let escape = zc >= 2 && byte <= 3;
        let zc1: nat = if escape {
            0
        } else {
            zc
        };
        let zc2: nat = if byte == 0 {
            zc1 + 1
        } else {
            0
        };
        let (rest, zc3) = ep_encode(zc2, buf.subrange(1, buf.len() as int));
        (if escape {
            seq![3u8, byte]
        } else {
            seq![byte]
        } + rest, zc3)
    }
}

/// What reading `buf` yields after `zc` zero bytes: a 0x03 that follows two zeros is dropped.
/// Gives the bytes and the number of zero bytes at the end.
pub open spec fn ep_decode(zc: nat, buf: Seq<u8>) -> (Seq<u8>, nat)
    decreases buf.len(),
{
    if buf.len() == 0 {
        (seq![], zc)
    } else {
        let byte = buf[0];
        let rest = buf.subrange(1, buf.len() as int);
        if byte == 3 && zc >= 2 {
            ep_decode(0, rest)
        } else {
            let zc1: nat = if byte == 0 {
                zc + 1
            } else {
                0
            };
            let (out, zc2) = ep_decode(zc1, rest);
            (seq![byte] + out, zc2)
        }
    }
}

/// A wrapper around a byte sink or source that inserts emulation prevention bytes when
/// writing and removes them when reading. It counts the zero bytes seen last.
pub struct EmulationPreventionIo<I> {
    /// The wrapped reader or writer.
    pub inner: I,
    /// The number of zero bytes that came last, up to 255.
    pub zero_count: u8,
}

impl<I> EmulationPreventionIo<I> {
    /// Creates a new wrapper around `inner`, with no zero bytes seen.
    pub fn new(inner: I) -> (r: Self)
        ensures
            r.inner == inner,
            r.zero_count == 0,
    {
        Self { inner, zero_count: 0 }
    }

    /// Escapes `buf` as writing it would, appending the bytes to emit to `out`. A zero count of
    /// two or more means the same: the next byte up to 0x03 is escaped.
    pub fn encode(&mut self, buf: &[u8], out: &mut Vec<u8>)
        ensures
            final(self).inner == old(self).inner,
            ({
                let (bytes, zc) = ep_encode(old(self).zero_count as nat, buf@);
                &&& final(out)@ == old(out)@ + bytes
                &&& final(self).zero_count == zc
            }),
    {
        let mut i: usize = 0;
        assert(buf@.subrange(0, buf@.len() as int) =~= buf@);
        while i < buf.len()
            invariant
                i <= buf.len(),
                self.inner == old(self).inner,
                i > 0 ==> self.zero_count <= 2,
                i == 0 ==> self.zero_count == old(self).zero_count,
                ({
                    let (all, zc_all) = ep_encode(old(self).zero_count as nat, buf@);
                    let (rest, zc_rest) = ep_encode(
                        self.zero_count as nat,
                        buf@.subrange(i as int, buf@.len() as int),
                    );
                    &&& zc_all == zc_rest
                    &&& old(out)@ + all == out@ + rest
                }),
            decreases buf.len() - i,
        {
            let byte = buf[i];
            let ghost zc = self.zero_count as nat;
            let ghost s = buf@.subrange(i as int, buf@.len() as int);
            let ghost before = out@;
            if self.zero_count >= 2 && byte <= 0x03 {
                out.push(0x03);
                self.zero_count = 0;
            }
            out.push(byte);
            if byte == 0x00 {
                self.zero_count = self.zero_count + 1;
            } else {
                self.zero_count = 0;
            }
            i = i + 1;
            proof {
                assert(s.subrange(1, s.len() as int) =~= buf@.subrange(i as int, buf@.len() as int));
                let (r1, z1) = ep_encode(self.zero_count as nat, buf@.subrange(i as int, buf@.len() as int));
                let (r0, z0) = ep_encode(zc, s);
                assert(r0 == (if zc >= 2 && byte <= 3 { seq![3u8, byte] } else { seq![byte] }) + r1);
                assert(before + r0 =~= out@ + r1);
            }
        }
        assert(buf@.subrange(i as int, buf@.len() as int) =~= Seq::<u8>::empty());
    }

    /// Removes emulation prevention bytes from `buf` as reading it would, appending the payload
    /// bytes to `out`. The zero count stops growing at 255; only whether it is at least two
    /// matters.
    pub fn decode(&mut self, buf: &[u8], out: &mut Vec<u8>)
        ensures
            final(self).inner == old(self).inner,
            ({
                let (bytes, zc) = ep_decode(old(self).zero_count as nat, buf@);
                &&& final(out)@ == old(out)@ + bytes
                &&& min2(final(self).zero_count as nat) == min2(zc)
            }),
    {
        let mut i: usize = 0;
        proof {
            lemma_ep_decode_equiv(
                old(self).zero_count as nat,
                self.zero_count as nat,
                buf@.subrange(0, buf@.len() as int),
            );
            assert(buf@.subrange(0, buf@.len() as int) =~= buf@);
        }
        while i < buf.len()
            invariant
                i <= buf.len(),
                self.inner == old(self).inner,
                ({
                    let (all, zc_all) = ep_decode(old(self).zero_count as nat, buf@);
                    let (rest, zc_rest) = ep_decode(
                        self.zero_count as nat,
                        buf@.subrange(i as int, buf@.len() as int),
                    );
                    &&& min2(zc_all) == min2(zc_rest)
                    &&& old(out)@ + all == out@ + rest
                }),
            decreases buf.len() - i,
        {
            let byte = buf[i];
            let ghost zc = self.zero_count as nat;
            let ghost s = buf@.subrange(i as int, buf@.len() as int);
            let ghost before = out@;
            i = i + 1;
            proof {
                assert(s.subrange(1, s.len() as int) =~= buf@.subrange(i as int, buf@.len() as int));
            }
            if byte == 0x03 && self.zero_count >= 2 {
                self.zero_count = 0;
            } else {
                if byte == 0x00 {
                    if self.zero_count < 255 {
                        self.zero_count = self.zero_count + 1;
                    }
                } else {
                    self.zero_count = 0;
                }
                out.push(byte);
                proof {
                    let t = buf@.subrange(i as int, buf@.len() as int);
                    let zc1: nat = if byte == 0 {
                        zc + 1
                    } else {
                        0
                    };
                    lemma_ep_decode_equiv(zc1, self.zero_count as nat, t);
                    let (o1, _) = ep_decode(zc1, t);
                    let (o2, _) = ep_decode(self.zero_count as nat, t);
                    assert(before + (seq![byte] + o1) =~= out@ + o2);
                }
            }
        }
        assert(buf@.subrange(i as int, buf@.len() as int) =~= Seq::<u8>::empty());
    }
}

/// The zero count as far as decoding can tell: 0, 1, or "two or more".
pub open spec fn min2(z: nat) -> nat {
    if z >= 2 {
        2
    } else {
        z
    }
}

/// Decoding depends on the zero count only through whether it is at least two.
pub proof fn lemma_ep_decode_equiv(z1: nat, z2: nat, buf: Seq<u8>)
    requires
        min2(z1) == min2(z2),
    ensures
        ep_decode(z1, buf).0 == ep_decode(z2, buf).0,
        min2(ep_decode(z1, buf).1) == min2(ep_decode(z2, buf).1),
    decreases buf.len(),
{
    if buf.len() > 0 {
        let byte = buf[0];
        let rest = buf.subrange(1, buf.len() as int);
        if byte == 3 && z1 >= 2 {
        } else {
            let a: nat = if byte == 0 {
                z1 + 1
            } else {
                0
            };
            let c: nat = if byte == 0 {
                z2 + 1
            } else {
                0
            };
            lemma_ep_decode_equiv(a, c, rest);
        }
    }
}

/// Reading back what writing emits gives the bytes that were written, and ends with the same
/// count of zero bytes, when both start from the same count.
pub proof fn lemma_ep_roundtrip(zc: nat, buf: Seq<u8>)
    ensures
        ep_decode(zc, ep_encode(zc, buf).0) == (buf, ep_encode(zc, buf).1),
    decreases buf.len(),
{
    if buf.len() > 0 {
        let byte = buf[0];
        let rest = buf.subrange(1, buf.len() as int);
        let escape = zc >= 2 && byte <= 3;
        let zc2: nat = if byte == 0 {
            (if escape {
                0nat
            } else {
                zc
            }) + 1
        } else {
            0
        };
        lemma_ep_roundtrip(zc2, rest);
        let (rest_enc, zc3) = ep_encode(zc2, rest);
        assert(seq![byte] + rest =~= buf);
        if escape {
            let enc = seq![3u8, byte] + rest_enc;
            assert(ep_encode(zc, buf) == (enc, zc3));
            let e2 = seq![byte] + rest_enc;
            assert(enc.subrange(1, enc.len() as int) =~= e2);
            assert(e2.subrange(1, e2.len() as int) =~= rest_enc);
            assert(ep_decode(0, e2) == (seq![byte] + rest, zc3));
            assert(ep_decode(zc, enc) == ep_decode(0, e2));
        } else {
            let enc = seq![byte] + rest_enc;
            assert(ep_encode(zc, buf) == (enc, zc3));
            assert(enc.subrange(1, enc.len() as int) =~= rest_enc);
            assert(ep_decode(zc, enc) == (seq![byte] + rest, zc3));
        }
    } else {
        assert(buf =~= Seq::<u8>::empty());
    }
}

/// No two zero bytes are followed by a byte up to 0x02: the three-byte patterns that start a
/// NAL unit or that are forbidden inside one.
#[verifier::opaque]
pub open spec fn no_start_code(o: Seq<u8>) -> bool {
    forall|i: int|
        0 <= i && i + 2 < o.len() ==> !(#[trigger] o[i] == 0 && o[i + 1] == 0 && o[i + 2] <= 2)
}

/// `n` zero bytes.
pub open spec fn zeros(n: nat) -> Seq<u8> {
    Seq::new(n, |i: int| 0u8)
}

/// Joining bytes without the pattern to bytes that lack it after as many zeros as end the
/// first gives bytes without it.
proof fn lemma_join_no_start_code(a: Seq<u8>, o2: Seq<u8>, m2: nat)
    requires
        m2 <= 2,
        no_start_code(a),
        no_start_code(zeros(m2) + o2),
        a.len() >= 1 && a[a.len() - 1] == 0 ==> m2 >= 1,
        a.len() >= 2 && a[a.len() - 2] == 0 && a[a.len() - 1] == 0 ==> m2 == 2,
    ensures
        no_start_code(a + o2),
{
    reveal(no_start_code);
    let t = a + o2;
    let t2 = zeros(m2) + o2;
    assert forall|i: int| 0 <= i && i + 2 < t.len() implies !(#[trigger] t[i] == 0 && t[i + 1]
        == 0 && t[i + 2] <= 2) by {
        if i + 2 < a.len() {
            assert(t[i] == a[i] && t[i + 1] == a[i + 1] && t[i + 2] == a[i + 2]);
        } else if i >= a.len() {
            let j = i - a.len() + m2;
            assert(t[i] == t2[j] && t[i + 1] == t2[j + 1] && t[i + 2] == t2[j + 2]);
        } else if i == a.len() - 1 {
            if a[i] == 0 {
                let j = m2 - 1;
                assert(t[i] == t2[j] && t[i + 1] == t2[j + 1] && t[i + 2] == t2[j + 2]);
            }
        } else {
            if a[i] == 0 && a[i + 1] == 0 {
                assert(t[i] == t2[0] && t[i + 1] == t2[1] && t[i + 2] == t2[2]);
            }
        }
    }
}

/// Bytes that end bytes without the pattern lack it too.
proof fn lemma_suffix_no_start_code(x: Seq<u8>, o: Seq<u8>)
    requires
        no_start_code(x + o),
    ensures
        no_start_code(o),
{
    reveal(no_start_code);
    let t = x + o;
    assert forall|i: int| 0 <= i && i + 2 < o.len() implies !(#[trigger] o[i] == 0 && o[i + 1]
        == 0 && o[i + 2] <= 2) by {
        let k = i + x.len();
        assert(t[k] == o[i] && t[k + 1] == o[i + 1] && t[k + 2] == o[i + 2]);
    }
}

/// One step of writing: the zeros that came before and the bytes emitted for `byte` hold no
/// pattern, and end with as many zeros as the new count stands for.
proof fn lemma_step_no_start_code(zc: nat, byte: u8)
    ensures
        ({
            let escape = zc >= 2 && byte <= 3;
            let h: Seq<u8> = if escape {
                seq![3u8, byte]
            } else {
                seq![byte]
            };
            let zc2: nat = if byte == 0 {
                (if escape {
                    0nat
                } else {
                    zc
                }) + 1
            } else {
                0
            };
            let a = zeros(min2(zc)) + h;
            &&& no_start_code(a)
            &&& (a.len() >= 1 && a[a.len() - 1] == 0 ==> min2(zc2) >= 1)
            &&& (a.len() >= 2 && a[a.len() - 2] == 0 && a[a.len() - 1] == 0 ==> min2(zc2) == 2)
        }),
{
    reveal(no_start_code);
    let escape = zc >= 2 && byte <= 3;
    let m = min2(zc);
    if escape {
        assert(zeros(m) + seq![3u8, byte] =~= seq![0u8, 0u8, 3u8, byte]);
    } else if m == 2 {
        assert(zeros(m) + seq![byte] =~= seq![0u8, 0u8, byte]);
    } else if m == 1 {
        assert(zeros(m) + seq![byte] =~= seq![0u8, byte]);
    } else {
        assert(zeros(m) + seq![byte] =~= seq![byte]);
    }
}

/// What writing emits holds no two zero bytes followed by a byte up to 0x02, even after the
/// zero bytes that the zero count says came before it.
pub proof fn lemma_ep_encode_no_start_code(zc: nat, buf: Seq<u8>)
    ensures
        no_start_code(zeros(min2(zc)) + ep_encode(zc, buf).0),
        no_start_code(ep_encode(zc, buf).0),
    decreases buf.len(),
{
    let ctx = zeros(min2(zc));
    let o = ep_encode(zc, buf).0;
    if buf.len() == 0 {
        reveal(no_start_code);
        assert(o =~= Seq::<u8>::empty());
        assert(ctx + o =~= ctx);
    } else {
        let byte = buf[0];
        let rest = buf.subrange(1, buf.len() as int);
        let escape = zc >= 2 && byte <= 3;
        let zc1: nat = if escape {
            0
        } else {
            zc
        };
        let zc2: nat = if byte == 0 {
            zc1 + 1
        } else {
            0
        };
        lemma_ep_encode_no_start_code(zc2, rest);
        let o2 = ep_encode(zc2, rest).0;
        let h: Seq<u8> = if escape {
            seq![3u8, byte]
        } else {
            seq![byte]
        };
        assert(o == h + o2);
        let a = ctx + h;
        lemma_step_no_start_code(zc, byte);
        lemma_join_no_start_code(a, o2, min2(zc2));
        assert(a + o2 =~= ctx + o);
    }
    lemma_suffix_no_start_code(ctx, o);
}

} // verus!
