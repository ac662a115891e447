//! Decimal text of integers: writing it and reading it back.

use vstd::prelude::*;

verus! {

pub const DIGIT_ZERO: u8 = 48;

pub const DIGIT_NINE: u8 = 57;

pub const PLUS_SIGN: u8 = 43;

pub const MINUS_SIGN: u8 = 45;

/// The decimal digits of `n`, most significant first, without leading zeros.
pub open spec fn digits_of(n: nat) -> Seq<u8>
    decreases n,
{
    if n < 10 {
        seq![(48 + n) as u8]
    } else {
        digits_of(n / 10).push((48 + n % 10) as u8)
    }
}

/// The decimal text of `v`: a minus sign for a negative value, then the digits
/// of its magnitude.
pub open spec fn decimal_text(v: int) -> Seq<u8> {
    if v < 0 {
        seq![45u8] + digits_of((-v) as nat)
    } else {
        digits_of(v as nat)
    }
}

pub open spec fn is_digit(b: u8) -> bool {
    48 <= b <= 57
}

pub open spec fn all_digits(s: Seq<u8>) -> bool {
    forall|i: int| 0 <= i < s.len() ==> is_digit(#[trigger] s[i])
}

/// The number that a sequence of decimal digits denotes; 0 for none.
pub open spec fn digits_value(s: Seq<u8>) -> nat
    decreases s.len(),
{
    if s.len() == 0 {
        0
    } else {
        digits_value(s.drop_last()) * 10 + (s.last() - 48) as nat
    }
}

/// What a run of digits with an optional `+` before it denotes, if it is one.
pub open spec fn parse_unsigned(s: Seq<u8>) -> Option<nat> {
    let body = if s.len() > 0 && s[0] == 43 {
        s.subrange(1, s.len() as int)
    } else {
        s
    };
    if body.len() > 0 && all_digits(body) {
        Some(digits_value(body))
    } else {
        None
    }
}

/// What a run of digits with an optional `+` or `-` before it denotes, if it
/// is one.
pub open spec fn parse_signed(s: Seq<u8>) -> Option<int> {
    if s.len() > 0 && s[0] == 45 {
        let body = s.subrange(1, s.len() as int);
        if body.len() > 0 && all_digits(body) {
            Some(-(digits_value(body) as int))
        } else {
            None
        }
    } else {
        match parse_unsigned(s) {
            Some(v) => Some(v as int),
            None => None,
        }
    }
}

/// The `i64` that `s` spells, if it spells one that fits.
pub open spec fn parse_i64(s: Seq<u8>) -> Option<i64> {
    match parse_signed(s) {
        Some(v) => if i64::MIN <= v <= i64::MAX {
            Some(v as i64)
        } else {
            None
        },
        None => None,
    }
}

/// The `u64` that `s` spells, if it spells one that fits.
pub open spec fn parse_u64(s: Seq<u8>) -> Option<u64> {
    match parse_unsigned(s) {
        Some(v) => if v <= u64::MAX {
            Some(v as u64)
        } else {
            None
        },
        None => None,
    }
}

/// The digits of a number are digits, at least one of them, and denote it.
pub proof fn digits_denote_number(n: nat)
    ensures
        digits_of(n).len() > 0,
        all_digits(digits_of(n)),
        digits_value(digits_of(n)) == n,
    decreases n,
{
    let d = digits_of(n);
    if n < 10 {
        assert(d.drop_last() =~= Seq::<u8>::empty());
        reveal_with_fuel(digits_value, 2);
    } else {
        digits_denote_number(n / 10);
        assert(d.drop_last() =~= digits_of(n / 10));
        assert forall|i: int| 0 <= i < d.len() implies is_digit(#[trigger] d[i]) by {
            if i < d.len() - 1 {
                assert(d[i] == digits_of(n / 10)[i]);
            }
        }
    }
}

/// Reading the decimal text of a 64-bit number gives the number back.
pub proof fn text_denotes_number(v: i64)
    ensures
        parse_i64(decimal_text(v as int)) == Some(v),
{
    let s = decimal_text(v as int);
    if v < 0 {
        let m = (-v) as nat;
        digits_denote_number(m);
        assert(s[0] == 45);
        assert(s.subrange(1, s.len() as int) =~= digits_of(m));
    } else {
        digits_denote_number(v as nat);
        assert(is_digit(s[0]));
    }
}

/// Appends the digits of `n` to `out`.
pub fn push_digits(n: u128, out: &mut Vec<u8>)
    ensures
        final(out)@ == old(out)@ + digits_of(n as nat),
    decreases n,
{
    if n < 10 {
        out.push((48 + n) as u8);
        assert(final(out)@ =~= old(out)@ + digits_of(n as nat));
    } else {
        push_digits(n / 10, out);
        out.push((48 + n % 10) as u8);
        assert(final(out)@ =~= old(out)@ + digits_of(n as nat));
    }
}

/// Appends the decimal text of `v` to `out`.
pub fn push_decimal(v: i128, out: &mut Vec<u8>)
    ensures
        final(out)@ == old(out)@ + decimal_text(v as int),
{
    if v < 0 {
        out.push(MINUS_SIGN);
        let magnitude: u128 = (-(v + 1)) as u128 + 1;
        push_digits(magnitude, out);
        assert(final(out)@ =~= old(out)@ + decimal_text(v as int));
    } else {
        push_digits(v as u128, out);
    }
}

/// Reads the digits in `s[start..end]` as a number no greater than `cap`.
pub fn read_digits(s: &[u8], start: usize, end: usize, cap: u128) -> (r: Option<u128>)
    requires
        start <= end <= s@.len(),
        cap <= 0xffff_ffff_ffff_ffff_ffff,
    ensures
        r == (if start < end && all_digits(s@.subrange(start as int, end as int))
            && digits_value(s@.subrange(start as int, end as int)) <= cap {
            Some(digits_value(s@.subrange(start as int, end as int)) as u128)
        } else {
            None
        }),
{
    if start == end {
        return None;
    }
    let mut acc: u128 = 0;
    let mut over: bool = false;
    let mut i: usize = start;
    while i < end
        invariant
            start <= i <= end <= s@.len(),
            cap <= 0xffff_ffff_ffff_ffff_ffff,
            all_digits(s@.subrange(start as int, i as int)),
            !over ==> acc == digits_value(s@.subrange(start as int, i as int)) && acc <= cap,
            over ==> digits_value(s@.subrange(start as int, i as int)) > cap,
        decreases end - i,
    {
        let b: u8 = s[i];
        if b < DIGIT_ZERO || b > DIGIT_NINE {
            proof {
                let whole = s@.subrange(start as int, end as int);
                assert(whole[i - start] == b);
            }
            return None;
        }
        proof {
            let next = s@.subrange(start as int, i + 1);
            assert(next.drop_last() =~= s@.subrange(start as int, i as int));
            assert(next.last() == b);
            assert forall|k: int| 0 <= k < next.len() implies is_digit(#[trigger] next[k]) by {
                if k < i - start {
                    assert(next[k] == s@.subrange(start as int, i as int)[k]);
                }
            }
        }
        if !over {
            let grown: u128 = acc * 10 + (b - DIGIT_ZERO) as u128;
            if grown > cap {
                over = true;
            } else {
                acc = grown;
            }
        }
        i += 1;
    }
    if over {
        None
    } else {
        Some(acc)
    }
}

/// Reads `s[start..end]` as a signed decimal number that fits in 64 bits.
pub fn read_i64(s: &[u8], start: usize, end: usize) -> (r: Option<i64>)
    requires
        start <= end <= s@.len(),
    ensures
        r == parse_i64(s@.subrange(start as int, end as int)),
{
    let ghost token = s@.subrange(start as int, end as int);
    if start == end {
        return None;
    }
    let first: u8 = s[start];
    assert(token[0] == first);
    if first == MINUS_SIGN {
        assert(token.subrange(1, token.len() as int) =~= s@.subrange(start + 1, end as int));
        match read_digits(s, start + 1, end, 0x8000_0000_0000_0000) {
            Some(m) => Some((-(m as i128)) as i64),
            None => None,
        }
    } else if first == PLUS_SIGN {
        assert(token.subrange(1, token.len() as int) =~= s@.subrange(start + 1, end as int));
        match read_digits(s, start + 1, end, 0x7fff_ffff_ffff_ffff) {
            Some(m) => Some(m as i64),
            None => None,
        }
    } else {
        match read_digits(s, start, end, 0x7fff_ffff_ffff_ffff) {
            Some(m) => Some(m as i64),
            None => None,
        }
    }
}

/// Reads `s[start..end]` as an unsigned decimal number that fits in 64 bits.
pub fn read_u64(s: &[u8], start: usize, end: usize) -> (r: Option<u64>)
    requires
        start <= end <= s@.len(),
    ensures
        r == parse_u64(s@.subrange(start as int, end as int)),
{
    let ghost token = s@.subrange(start as int, end as int);
    if start == end {
        return None;
    }
    let first: u8 = s[start];
    assert(token[0] == first);
    let from: usize = if first == PLUS_SIGN {
        start + 1
    } else {
        start
    };
    assert(first == PLUS_SIGN ==> token.subrange(1, token.len() as int) =~= s@.subrange(
        start + 1,
        end as int,
    ));
    match read_digits(s, from, end, 0xffff_ffff_ffff_ffff) {
        Some(m) => Some(m as u64),
        None => None,
    }
}

} // verus!
