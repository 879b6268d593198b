use vstd::prelude::*;

use crate::error::Error;

verus! {

/// Whether the byte is an ASCII decimal digit.
pub open spec fn is_digit(c: u8) -> bool {
    0x30 <= c <= 0x39
}

/// Whether every byte is an ASCII decimal digit.
pub open spec fn all_digits(s: Seq<u8>) -> bool {
    forall|i: int| 0 <= i < s.len() ==> is_digit(#[trigger] s[i])
}

/// The number that the ASCII decimal digits spell.
pub open spec fn digits_value(s: Seq<u8>) -> nat
    decreases s.len(),
{
    if s.len() == 0 {
        0
    } else {
        digits_value(s.drop_last()) * 10 + (s.last() - 0x30) as nat
    }
}

/// Ten to the power `n`.
pub open spec fn pow10(n: nat) -> nat
    decreases n,
{
    if n == 0 {
        1
    } else {
        10 * pow10((n - 1) as nat)
    }
}

/// A number of `n` digits is below ten to the power `n`.
pub proof fn lemma_digits_bound(s: Seq<u8>)
    requires
        all_digits(s),
    ensures
        digits_value(s) < pow10(s.len()),
    decreases s.len(),
{
    if s.len() > 0 {
        let t = s.drop_last();
        assert(all_digits(t)) by {
            assert forall|i: int| 0 <= i < t.len() implies is_digit(#[trigger] t[i]) by {
                assert(t[i] == s[i]);
            }
        }
        lemma_digits_bound(t);
        assert(is_digit(s[s.len() - 1]));
        let v = digits_value(t);
        let p = pow10(t.len());
        assert(v * 10 + (s.last() - 0x30) < 10 * p) by (nonlinear_arith)
            requires
                v < p,
                0 <= s.last() - 0x30 <= 9,
        ;
    }
}

/// Parses up to four ASCII decimal digits in `data[start..end]`.
pub fn atou16(data: &[u8], start: usize, end: usize) -> (r: Result<u16, Error>)
    requires
        start <= end <= data@.len(),
        end - start <= 4,
    ensures
        ({
            let s = data@.subrange(start as int, end as int);
            if s.len() > 0 && all_digits(s) {
                r == Ok::<u16, Error>(digits_value(s) as u16) && digits_value(s) < pow10(s.len())
            } else {
                r == Err::<u16, Error>(Error::InvalidFormat("Not a number"))
            }
        }),
{
    let ghost whole = data@.subrange(start as int, end as int);
    if start == end {
        return Err(Error::InvalidFormat("Not a number"));
    }
    let mut n: u16 = 0;
    let mut i: usize = start;
    while i < end
        invariant
            start <= i <= end <= data@.len(),
            end - start <= 4,
            whole == data@.subrange(start as int, end as int),
            all_digits(data@.subrange(start as int, i as int)),
            n == digits_value(data@.subrange(start as int, i as int)),
            n < pow10((i - start) as nat),
        decreases end - i,
    {
        let c = data[i];
        if c < 0x30 || 0x39 < c {
            assert(whole[i - start] == c);
            return Err(Error::InvalidFormat("Not a number"));
        }
        let ghost prev = data@.subrange(start as int, i as int);
        let ghost next = data@.subrange(start as int, i + 1);
        assert(next.drop_last() =~= prev);
        assert(pow10((i - start) as nat) <= 1000) by {
            reveal_with_fuel(pow10, 5);
        }
        n = n * 10 + (c - 0x30) as u16;
        i += 1;
        proof {
            assert forall|j: int| 0 <= j < next.len() implies is_digit(#[trigger] next[j]) by {
                if j < prev.len() {
                    assert(next[j] == prev[j]);
                }
            }
            lemma_digits_bound(next);
        }
    }
    assert(data@.subrange(start as int, i as int) =~= whole);
    Ok(n)
}

/// Parses one ASCII decimal digit.
pub fn ctou32(c: u8) -> (r: Result<u32, Error>)
    ensures
        if is_digit(c) {
            r == Ok::<u32, Error>((c - 0x30) as u32)
        } else {
            r == Err::<u32, Error>(Error::InvalidFormat("Not a number"))
        },
{
    if c < 0x30 || 0x39 < c {
        return Err(Error::InvalidFormat("Not a number"));
    }
    Ok((c - 0x30) as u32)
}

} // verus!
