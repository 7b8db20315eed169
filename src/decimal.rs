//! ASCII decimal numbers, as written in a `Content-Length` header.
use vstd::prelude::*;

verus! {

/// The ASCII code of the digit `0`.
pub const ZERO: u8 = 48;

pub open spec fn is_digit(b: u8) -> bool {
    ZERO <= b && b <= ZERO + 9
}

pub open spec fn all_digits(s: Seq<u8>) -> bool {
    forall|i: int| 0 <= i < s.len() ==> is_digit(#[trigger] s[i])
}

/// The number that a string of decimal digits denotes, most significant first.
pub open spec fn digits_value(s: Seq<u8>) -> nat
    decreases s.len(),
{
    if s.len() == 0 {
        0
    } else {
        digits_value(s.drop_last()) * 10 + (s.last() - ZERO) as nat
    }
}

/// The shortest decimal representation of `n`.
pub open spec fn decimal(n: nat) -> Seq<u8>
    decreases n,
{
    if n < 10 {
        seq![(n + ZERO) as u8]
    } else {
        decimal(n / 10).push((n % 10 + ZERO) as u8)
    }
}

/// A decimal representation is a nonempty string of digits that denotes `n`.
pub proof fn lemma_decimal(n: nat)
    ensures
        decimal(n).len() >= 1,
        all_digits(decimal(n)),
        digits_value(decimal(n)) == n,
    decreases n,
{
    if n < 10 {
        let d = decimal(n);
        assert(d.drop_last() =~= Seq::<u8>::empty());
        assert(d.last() == (n + ZERO) as u8);
        assert(digits_value(d) == digits_value(d.drop_last()) * 10 + (d.last() - ZERO) as nat);
    } else {
        lemma_decimal(n / 10);
        let d = decimal(n);
        assert(d.drop_last() =~= decimal(n / 10));
        assert(n == (n / 10) * 10 + n % 10);
        assert(d.last() == (n % 10 + ZERO) as u8);
        assert(digits_value(d) == digits_value(d.drop_last()) * 10 + (d.last() - ZERO) as nat);
        assert forall|i: int| 0 <= i < d.len() implies is_digit(#[trigger] d[i]) by {
            if i < d.len() - 1 {
                assert(d[i] == decimal(n / 10)[i]);
            }
        }
    }
}

/// A string of digits denotes at least as much as each of its prefixes.
pub proof fn lemma_prefix_value_le(s: Seq<u8>, k: int)
    requires
        0 <= k <= s.len(),
        all_digits(s),
    ensures
        digits_value(s.take(k)) <= digits_value(s),
    decreases s.len() - k,
{
    if k < s.len() {
        lemma_prefix_value_le(s, k + 1);
        assert(s.take(k + 1).drop_last() =~= s.take(k));
        assert(is_digit(s[k]));
    } else {
        assert(s.take(k) =~= s);
    }
}

/// Appends the decimal representation of `n` to `out`.
pub fn push_decimal(n: usize, out: &mut Vec<u8>)
    ensures
        final(out)@ == old(out)@ + decimal(n as nat),
    decreases n,
{
    if n >= 10 {
        push_decimal(n / 10, out);
    }
    let d: u8 = (n % 10) as u8;
    out.push(d + ZERO);
    proof {
        if n < 10 {
            assert(decimal(n as nat) =~= seq![(n + ZERO) as u8]);
        }
    }
    assert(final(out)@ =~= old(out)@ + decimal(n as nat));
}

/// Reads a nonempty string of decimal digits as a `usize`; `None` where `s`
/// is empty, holds another byte, or denotes a number over `usize::MAX`.
pub fn parse_decimal(s: &[u8]) -> (r: Option<usize>)
    ensures
        r == (if s@.len() > 0 && all_digits(s@) && digits_value(s@) <= usize::MAX {
            Some(digits_value(s@) as usize)
        } else {
            None::<usize>
        }),
{
    if s.len() == 0 {
        return None;
    }
    let mut acc: usize = 0;
    let mut i: usize = 0;
    while i < s.len()
        invariant
            0 <= i <= s@.len(),
            all_digits(s@.take(i as int)),
            acc as nat == digits_value(s@.take(i as int)),
        decreases s@.len() - i,
    {
        let b = s[i];
        assert(s@.take(i as int + 1).drop_last() =~= s@.take(i as int));
        if b < ZERO || b > ZERO + 9 {
            assert(!is_digit(s@[i as int]));
            return None;
        }
        let d: usize = (b - ZERO) as usize;
        if acc > (usize::MAX - d) / 10 {
            proof {
                assert(all_digits(s@.take(i as int + 1)));
                assert(digits_value(s@.take(i as int + 1)) == acc * 10 + d);
                assert(acc * 10 + d > usize::MAX) by (nonlinear_arith)
                    requires acc > (usize::MAX - d) / 10, d <= 9;
                if all_digits(s@) {
                    lemma_prefix_value_le(s@, i as int + 1);
                }
            }
            return None;
        }
        assert(acc * 10 + d <= usize::MAX) by (nonlinear_arith)
            requires acc <= (usize::MAX - d) / 10, d <= 9;
        acc = acc * 10 + d;
        i = i + 1;
        assert(all_digits(s@.take(i as int)));
    }
    assert(s@.take(i as int) =~= s@);
    Some(acc)
}

/// The ASCII code of `-`.
pub const MINUS: u8 = 45;

/// The decimal representation of a signed integer: a `-` before the digits
/// of a negative one.
pub open spec fn int_text(c: int) -> Seq<u8> {
    if c < 0 {
        seq![MINUS] + decimal((-c) as nat)
    } else {
        decimal(c as nat)
    }
}

/// Appends the decimal representation of `c` to `out`.
pub fn push_int(c: i32, out: &mut Vec<u8>)
    ensures
        final(out)@ == old(out)@ + int_text(c as int),
{
    if c < 0 {
        out.push(MINUS);
        let magnitude: i64 = -(c as i64);
        push_decimal(magnitude as usize, out);
        assert(out@ =~= old(out)@ + int_text(c as int));
    } else {
        push_decimal(c as usize, out);
    }
}

} // verus!
