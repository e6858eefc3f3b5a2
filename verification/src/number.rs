//! Signed decimal numbers as text: reading one, and writing one in its
//! shortest form.

use crate::scan::{decimal_value, digit, is_digit, lemma_decimal_value_grows};
use vstd::prelude::*;

verus! {

/// Every character is a digit.
pub open spec fn all_digits(s: Seq<char>) -> bool {
    forall|k: int| 0 <= k < s.len() ==> is_digit(#[trigger] s[k])
}

/// The digits of a number text: what follows the sign, if there is one.
pub open spec fn digits_of(s: Seq<char>) -> Seq<char> {
    if s.len() > 0 && (s[0] == '-' || s[0] == '+') {
        s.skip(1)
    } else {
        s
    }
}

/// The 64-bit signed number that `s` writes: an optional `+` or `-`, then
/// digits and nothing else, with a value that fits. `None` for anything else.
pub open spec fn spec_i64(s: Seq<char>) -> Option<int> {
    let digits = digits_of(s);
    let value = if s.len() > 0 && s[0] == '-' {
        -decimal_value(digits)
    } else {
        decimal_value(digits)
    };
    if digits.len() > 0 && all_digits(digits) && i64::MIN <= value <= i64::MAX {
        Some(value)
    } else {
        None
    }
}

/// The character of the digit `d`.
pub open spec fn digit_char(d: int) -> char {
    (d + '0' as int) as char
}

/// The digits of `n` in base ten, without leading zeros.
pub open spec fn decimal_digits(n: int) -> Seq<char>
    decreases n,
{
    if n < 10 {
        seq![digit_char(n)]
    } else {
        decimal_digits(n / 10).push(digit_char(n % 10))
    }
}

/// `n` in base ten: a `-` for a negative number, then its digits.
pub open spec fn decimal_text(n: int) -> Seq<char> {
    if n < 0 {
        seq!['-'] + decimal_digits(-n)
    } else {
        decimal_digits(n)
    }
}

/// The shortest way to write the number that `s` writes: no `+`, no leading
/// zeros, no `-` before zero. `None` when `s` writes no 64-bit signed number.
pub open spec fn canonical_number(s: Seq<char>) -> Option<Seq<char>> {
    match spec_i64(s) {
        Some(v) => Some(decimal_text(v)),
        None => None,
    }
}

/// The digits of a number are digits, at least one of them, and write that
/// number.
pub proof fn lemma_decimal_digits_write_the_number(n: int)
    requires
        0 <= n,
    ensures
        decimal_digits(n).len() >= 1,
        all_digits(decimal_digits(n)),
        decimal_value(decimal_digits(n)) == n,
    decreases n,
{
    if n < 10 {
        assert(decimal_digits(n).drop_last() =~= Seq::<char>::empty());
        assert(decimal_value(decimal_digits(n).drop_last()) == 0);
    } else {
        lemma_decimal_digits_write_the_number(n / 10);
        assert(decimal_digits(n).drop_last() =~= decimal_digits(n / 10));
    }
}

/// A number in its shortest form reads as that number, and is its own
/// shortest form.
pub proof fn lemma_decimal_text_reads_back(v: int)
    requires
        i64::MIN <= v <= i64::MAX,
    ensures
        spec_i64(decimal_text(v)) == Some(v),
        canonical_number(decimal_text(v)) == Some(decimal_text(v)),
{
    if v < 0 {
        lemma_decimal_digits_write_the_number(-v);
        assert(decimal_text(v).skip(1) =~= decimal_digits(-v));
    } else {
        lemma_decimal_digits_write_the_number(v);
        assert(is_digit(decimal_text(v)[0]));
    }
}

/// Appends the digits of `n` to `out`.
pub fn push_decimal(out: &mut String, n: u64)
    ensures
        final(out)@ == old(out)@ + decimal_digits(n as int),
{
    let mut reversed: Vec<char> = Vec::new();
    let mut rest: u64 = n;
    loop
        invariant_except_break
            reversed@.len() == 0 ==> rest == n,
            reversed@.len() > 0 ==> rest > 0,
            reversed@.len() > 0 ==> decimal_digits(n as int) == decimal_digits(rest as int)
                + reversed@.reverse(),
        ensures
            decimal_digits(n as int) == reversed@.reverse(),
        decreases rest,
    {
        let d: u8 = (rest % 10) as u8;
        let ghost before = reversed@;
        let ghost prior = rest;
        reversed.push((d + 48u8) as char);
        rest = rest / 10;
        proof {
            assert(reversed@.reverse() =~= seq![digit_char(d as int)] + before.reverse());
            if prior < 10 {
                assert(decimal_digits(prior as int) =~= seq![digit_char(d as int)]);
            } else {
                assert(decimal_digits(prior as int) =~= decimal_digits(rest as int) + seq![
                    digit_char(d as int),
                ]);
            }
            if before.len() == 0 {
                assert(before.reverse() =~= Seq::<char>::empty());
            }
            assert(decimal_digits(n as int) =~= decimal_digits(prior as int) + before.reverse());
        }
        if rest == 0 {
            break ;
        }
    }
    let mut k: usize = reversed.len();
    while k > 0
        invariant
            k <= reversed.len(),
            out@ == old(out)@ + reversed@.reverse().take(reversed@.len() - k),
        decreases k,
    {
        k = k - 1;
        out.push(reversed[k]);
        assert(out@ =~= old(out)@ + reversed@.reverse().take(reversed@.len() - k));
    }
    assert(reversed@.reverse().take(reversed@.len() as int) =~= reversed@.reverse());
}

/// Reads the text from `from` to the end as a 64-bit signed number and writes
/// it back in its shortest form, which reads as the same number. `None` when
/// the text is no such number.
#[verifier::loop_isolation(false)]
pub fn normalize_number(chars: &Vec<char>, from: usize) -> (r: Option<String>)
    requires
        from <= chars.len(),
    ensures
        r.is_some() == canonical_number(chars@.subrange(from as int, chars@.len() as int)).is_some(),
        r.is_some() ==> r.unwrap()@ == canonical_number(
            chars@.subrange(from as int, chars@.len() as int),
        ).unwrap(),
        r.is_some() ==> spec_i64(r.unwrap()@) == spec_i64(
            chars@.subrange(from as int, chars@.len() as int),
        ),
{
    let ghost text = chars@.subrange(from as int, chars@.len() as int);
    if from == chars.len() {
        return None;
    }
    let negative: bool = chars[from] == '-';
    let start: usize = if negative || chars[from] == '+' {
        from + 1
    } else {
        from
    };
    let ghost digits = digits_of(text);
    assert(digits =~= chars@.subrange(start as int, chars@.len() as int));
    if start == chars.len() {
        return None;
    }
    let limit: u64 = if negative {
        0x8000_0000_0000_0000
    } else {
        0x7fff_ffff_ffff_ffff
    };
    let mut magnitude: u64 = 0;
    let mut j: usize = start;
    while j < chars.len()
        invariant
            start <= j <= chars.len(),
            digits == chars@.subrange(start as int, chars@.len() as int),
            forall|k: int| 0 <= k < j - start ==> is_digit(#[trigger] digits[k]),
            magnitude == decimal_value(digits.take(j - start)),
            magnitude <= limit,
        decreases chars.len() - j,
    {
        if !digit(chars[j]) {
            assert(!is_digit(digits[j - start]));
            return None;
        }
        let d: u64 = (chars[j] as u32 - '0' as u32) as u64;
        assert(d == crate::scan::digit_value(digits[j - start]));
        proof {
            assert(digits.take(j + 1 - start).drop_last() =~= digits.take(j - start));
            if all_digits(digits) {
                lemma_decimal_value_grows(digits, j + 1 - start);
            }
        }
        if magnitude > (limit - d) / 10 {
            return None;
        }
        magnitude = magnitude * 10 + d;
        j = j + 1;
    }
    assert(digits.take(j - start) =~= digits);
    let mut out = String::new();
    if negative && magnitude > 0 {
        out.push('-');
    }
    push_decimal(&mut out, magnitude);
    proof {
        lemma_decimal_text_reads_back(spec_i64(text)->0);
    }
    Some(out)
}

} // verus!
