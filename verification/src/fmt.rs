//! Decimal text of numbers, used by the names that values print as.
use vstd::prelude::*;

verus! {

/// The character of a decimal digit.
pub open spec fn digit_char(d: nat) -> char {
    if d == 0 {
        '0'
    } else if d == 1 {
        '1'
    } else if d == 2 {
        '2'
    } else if d == 3 {
        '3'
    } else if d == 4 {
        '4'
    } else if d == 5 {
        '5'
    } else if d == 6 {
        '6'
    } else if d == 7 {
        '7'
    } else if d == 8 {
        '8'
    } else {
        '9'
    }
}

/// The decimal digits of `n`, without leading zeros.
pub open spec fn decimal(n: nat) -> Seq<char>
    decreases n,
{
    if n < 10 {
        seq![digit_char(n)]
    } else {
        decimal(n / 10).push(digit_char(n % 10))
    }
}

/// A list of bytes written as `[a, b, c]`.
pub open spec fn byte_list(s: Seq<u8>) -> Seq<char> {
    "["@ + byte_list_body(s) + "]"@
}

/// The bytes of a list separated by `, `.
pub open spec fn byte_list_body(s: Seq<u8>) -> Seq<char>
    decreases s.len(),
{
    if s.len() == 0 {
        seq![]
    } else if s.len() == 1 {
        decimal(s[0] as nat)
    } else {
        byte_list_body(s.drop_last()) + ", "@ + decimal(s.last() as nat)
    }
}

/// Appends the decimal digits of `n`.
pub fn push_decimal(s: &mut String, n: u64)
    ensures
        final(s)@ == old(s)@ + decimal(n as nat),
    decreases n,
{
    if n >= 10 {
        push_decimal(s, n / 10);
    }
    let d = n % 10;
    let text = if d == 0 {
        "0"
    } else if d == 1 {
        "1"
    } else if d == 2 {
        "2"
    } else if d == 3 {
        "3"
    } else if d == 4 {
        "4"
    } else if d == 5 {
        "5"
    } else if d == 6 {
        "6"
    } else if d == 7 {
        "7"
    } else if d == 8 {
        "8"
    } else {
        "9"
    };
    proof {
        reveal_strlit("0");
        reveal_strlit("1");
        reveal_strlit("2");
        reveal_strlit("3");
        reveal_strlit("4");
        reveal_strlit("5");
        reveal_strlit("6");
        reveal_strlit("7");
        reveal_strlit("8");
        reveal_strlit("9");
        assert(text@ =~= seq![digit_char(d as nat)]);
    }
    s.append(text);
    proof {
        if n >= 10 {
            assert(final(s)@ =~= old(s)@ + decimal(n as nat));
        } else {
            assert(final(s)@ =~= old(s)@ + decimal(n as nat));
        }
    }
}

/// Appends four bytes written as `[a, b, c, d]`.
pub fn push_byte_list(s: &mut String, v: &[u8; 4])
    ensures
        final(s)@ == old(s)@ + byte_list(v@),
{
    s.append("[");
    let mut i: usize = 0;
    while i < 4
        invariant
            0 <= i <= 4,
            v@.len() == 4,
            s@ == old(s)@ + "["@ + byte_list_body(v@.subrange(0, i as int)),
        decreases 4 - i,
    {
        let ghost before = s@;
        if i > 0 {
            s.append(", ");
        }
        push_decimal(s, v[i] as u64);
        proof {
            let t = v@.subrange(0, i + 1);
            assert(t.drop_last() =~= v@.subrange(0, i as int));
            if i == 0 {
                assert(byte_list_body(v@.subrange(0, 0)) =~= Seq::<char>::empty());
                assert(s@ =~= old(s)@ + "["@ + byte_list_body(t));
            } else {
                assert(s@ =~= old(s)@ + "["@ + byte_list_body(t));
            }
        }
        i = i + 1;
    }
    s.append("]");
    assert(v@.subrange(0, 4) =~= v@);
    assert(s@ =~= old(s)@ + byte_list(v@));
}

} // verus!
