//! Whole numbers in decimal: writing them out and reading them back.

use crate::text::chars_of;
use vstd::prelude::*;

verus! {

/// A decimal digit.
pub open spec fn is_digit(c: char) -> bool {
    '0' <= c <= '9'
}

/// The digit that stands for `d`.
pub open spec fn digit(d: int) -> char {
    (48 + d) as u8 as char
}

/// One or more decimal digits.
pub open spec fn is_number(s: Seq<char>) -> bool {
    s.len() > 0 && forall|i: int| 0 <= i < s.len() ==> is_digit(#[trigger] s[i])
}

/// The number that a run of digits stands for.
pub open spec fn digits_value(s: Seq<char>) -> int
    decreases s.len(),
{
    if s.len() == 0 {
        0
    } else {
        digits_value(s.drop_last()) * 10 + (s.last() as int - 48)
    }
}

/// `n` in decimal.
pub open spec fn decimal_nat(n: nat) -> Seq<char>
    decreases n,
{
    if n < 10 {
        seq![digit(n as int)]
    } else {
        decimal_nat(n / 10).push(digit((n % 10) as int))
    }
}

/// `n` in decimal, with a minus sign if it is negative.
pub open spec fn decimal(n: int) -> Seq<char> {
    if n < 0 {
        seq!['-'] + decimal_nat((-n) as nat)
    } else {
        decimal_nat(n as nat)
    }
}

/// The number from 0 to `max` that `s` stands for: digits, perhaps after a plus
/// sign.
pub open spec fn read_unsigned(s: Seq<char>, max: int) -> Option<int> {
    let d = if s.len() > 0 && s[0] == '+' {
        s.skip(1)
    } else {
        s
    };
    if is_number(d) && digits_value(d) <= max {
        Some(digits_value(d))
    } else {
        None
    }
}

/// The 64-bit number that `s` stands for: digits, perhaps after a sign.
pub open spec fn read_signed(s: Seq<char>) -> Option<int> {
    if s.len() > 0 && s[0] == '-' {
        let d = s.skip(1);
        if is_number(d) && -digits_value(d) >= i64::MIN {
            Some(-digits_value(d))
        } else {
            None
        }
    } else {
        read_unsigned(s, i64::MAX as int)
    }
}

proof fn lemma_digits_value_nonneg(s: Seq<char>)
    requires
        forall|i: int| 0 <= i < s.len() ==> is_digit(#[trigger] s[i]),
    ensures
        digits_value(s) >= 0,
    decreases s.len(),
{
    if s.len() > 0 {
        assert forall|i: int| 0 <= i < s.drop_last().len() implies is_digit(
            #[trigger] s.drop_last()[i],
        ) by {
            assert(is_digit(s[i]));
        }
        lemma_digits_value_nonneg(s.drop_last());
        assert(is_digit(s[s.len() - 1]));
    }
}

/// A number in decimal consists of digits and is read back as the number.
pub proof fn lemma_decimal_nat(n: nat)
    ensures
        is_number(decimal_nat(n)),
        digits_value(decimal_nat(n)) == n,
    decreases n,
{
    if n < 10 {
        let s = decimal_nat(n);
        assert(s.drop_last() == Seq::<char>::empty());
        assert(digits_value(s.drop_last()) == 0);
        assert(s.last() as int == 48 + n);
    } else {
        lemma_decimal_nat(n / 10);
        let s = decimal_nat(n);
        let m = decimal_nat(n / 10);
        assert(s.drop_last() == m);
        assert(s.last() as int == 48 + n % 10);
        assert forall|i: int| 0 <= i < s.len() implies is_digit(#[trigger] s[i]) by {
            if i < m.len() {
                assert(s[i] == m[i]);
            }
        }
    }
}

/// Reading undoes writing: a 64-bit number in decimal is read back as itself.
pub proof fn lemma_read_back(n: i64)
    ensures
        read_signed(decimal(n as int)) == Some(n as int),
{
    if n < 0 {
        let m = (-n) as nat;
        lemma_decimal_nat(m);
        assert(decimal(n as int).skip(1) == decimal_nat(m));
    } else {
        lemma_decimal_nat(n as nat);
        let s = decimal_nat(n as nat);
        assert(is_digit(s[0]));
    }
}

/// Two 64-bit numbers that look the same in decimal are the same.
pub proof fn lemma_decimal_injective(a: i64, b: i64)
    requires
        decimal(a as int) == decimal(b as int),
    ensures
        a == b,
{
    lemma_read_back(a);
    lemma_read_back(b);
}

/// A number in decimal holds digits, and perhaps a minus sign, only.
pub proof fn lemma_decimal_chars(n: int)
    ensures
        decimal(n).len() > 0,
        forall|i: int|
            0 <= i < decimal(n).len() ==> is_digit(#[trigger] decimal(n)[i]) || decimal(n)[i]
                == '-',
{
    if n < 0 {
        let m = (-n) as nat;
        lemma_decimal_nat(m);
        assert forall|i: int| 0 <= i < decimal(n).len() implies is_digit(
            #[trigger] decimal(n)[i],
        ) || decimal(n)[i] == '-' by {
            if i > 0 {
                assert(decimal(n)[i] == decimal_nat(m)[i - 1]);
                assert(is_digit(decimal_nat(m)[i - 1]));
            }
        }
    } else {
        lemma_decimal_nat(n as nat);
    }
}

/// Appends `n` in decimal to `out`.
fn push_decimal(out: &mut String, n: u64)
    ensures
        final(out)@ == old(out)@ + decimal_nat(n as nat),
    decreases n,
{
    if n >= 10 {
        push_decimal(out, n / 10);
    }
    let d: u8 = (n % 10) as u8;
    out.push((48 + d) as char);
    proof {
        if n >= 10 {
            let head = decimal_nat((n / 10) as nat);
            assert(out@ == (old(out)@ + head).push(digit((n % 10) as int)));
            assert(out@ == old(out)@ + head.push(digit((n % 10) as int)));
        } else {
            assert(out@ == old(out)@ + seq![digit(n as int)]);
        }
    }
}

/// `n` in decimal.
pub fn unsigned_text(n: u64) -> (r: String)
    ensures
        r@ == decimal_nat(n as nat),
        r@ == decimal(n as int),
{
    let mut out = String::new();
    push_decimal(&mut out, n);
    proof {
        assert(out@ == decimal_nat(n as nat));
    }
    out
}

/// `n` in decimal.
pub fn signed_text(n: i64) -> (r: String)
    ensures
        r@ == decimal(n as int),
{
    let mut out = String::new();
    if n < 0 {
        out.push('-');
        let m: u64 = (-(n + 1)) as u64 + 1;
        push_decimal(&mut out, m);
        proof {
            assert(out@ == seq!['-'] + decimal_nat(m as nat));
        }
    } else {
        push_decimal(&mut out, n as u64);
        proof {
            assert(out@ == decimal_nat(n as nat));
        }
    }
    out
}

/// The number from 0 to `max` that `chars[from..]` stands for, if it is a run of
/// digits.
fn read_digits(chars: &Vec<char>, from: usize, max: u64) -> (r: Option<u64>)
    requires
        from <= chars@.len(),
    ensures
        match r {
            Some(v) => is_number(chars@.skip(from as int)) && v == digits_value(
                chars@.skip(from as int),
            ) && v <= max,
            None => !is_number(chars@.skip(from as int)) || digits_value(chars@.skip(from as int))
                > max,
        },
{
    let ghost rest = chars@.skip(from as int);
    if from == chars.len() {
        return None;
    }
    let mut value: Option<u64> = Some(0);
    let mut i: usize = from;
    while i < chars.len()
        invariant
            from <= i <= chars.len(),
            rest == chars@.skip(from as int),
            forall|j: int| 0 <= j < i - from ==> is_digit(#[trigger] rest[j]),
            match value {
                Some(v) => v == digits_value(rest.take(i - from)) && v <= max,
                None => digits_value(rest.take(i - from)) > max,
            },
        decreases chars.len() - i,
    {
        let c: char = chars[i];
        if !('0' <= c && c <= '9') {
            proof {
                assert(!is_digit(rest[i - from]));
            }
            return None;
        }
        let d: u64 = c as u64 - 48;
        proof {
            let next = rest.take(i - from + 1);
            assert(next.drop_last() == rest.take(i - from));
            assert(next.last() == c);
            assert forall|j: int| 0 <= j < next.drop_last().len() implies is_digit(
                #[trigger] next.drop_last()[j],
            ) by {
                assert(is_digit(rest[j]));
            }
            lemma_digits_value_nonneg(next.drop_last());
        }
        value = match value {
            Some(v) => match v.checked_mul(10) {
                Some(w) => match w.checked_add(d) {
                    Some(x) => if x <= max {
                        Some(x)
                    } else {
                        None
                    },
                    None => None,
                },
                None => None,
            },
            None => None,
        };
        i += 1;
    }
    proof {
        assert(rest.take(rest.len() as int) == rest);
    }
    value
}

/// The number from 0 to `max` that the string stands for.
pub fn parse_unsigned(s: &str, max: u64) -> (r: Option<u64>)
    ensures
        match r {
            Some(v) => read_unsigned(s@, max as int) == Some(v as int),
            None => read_unsigned(s@, max as int) is None,
        },
{
    let chars = chars_of(s);
    if chars.len() > 0 && chars[0] == '+' {
        read_digits(&chars, 1, max)
    } else {
        proof {
            assert(s@.skip(0) == s@);
        }
        read_digits(&chars, 0, max)
    }
}

/// The 64-bit number that the string stands for.
pub fn parse_i64(s: &str) -> (r: Option<i64>)
    ensures
        match r {
            Some(v) => read_signed(s@) == Some(v as int),
            None => read_signed(s@) is None,
        },
{
    let chars = chars_of(s);
    if chars.len() > 0 && chars[0] == '-' {
        match read_digits(&chars, 1, 0x8000_0000_0000_0000) {
            Some(v) => {
                if v == 0x8000_0000_0000_0000 {
                    Some(i64::MIN)
                } else {
                    Some(-(v as i64))
                }
            },
            None => None,
        }
    } else {
        match parse_unsigned(s, 0x7fff_ffff_ffff_ffff) {
            Some(v) => Some(v as i64),
            None => None,
        }
    }
}

} // verus!
