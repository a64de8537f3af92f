//! Unsigned decimal numbers in text.

use vstd::arithmetic::div_mod::lemma_div_denominator;
use vstd::arithmetic::power::{lemma_pow_positive, pow};
use vstd::prelude::*;

verus! {

/// Whether `c` is one of the ten ASCII digits.
pub open spec fn is_digit(c: char) -> bool {
    '0' <= c <= '9'
}

/// The number that a digit stands for.
pub open spec fn digit_value(c: char) -> nat {
    (c as int - '0' as int) as nat
}

/// The digit that stands for `d`.
pub open spec fn digit_char(d: nat) -> char {
    ('0' as int + d) as char
}

/// The number that a run of digits stands for, most significant digit first.
pub open spec fn digits_value(s: Seq<char>) -> nat
    decreases s.len(),
{
    if s.len() == 0 {
        0
    } else {
        10 * digits_value(s.drop_last()) + digit_value(s.last())
    }
}

/// Whether every character is a digit.
pub open spec fn all_digits(s: Seq<char>) -> bool {
    forall|i: int| 0 <= i < s.len() ==> is_digit(#[trigger] s[i])
}

/// A number without its optional leading `+`.
pub open spec fn without_plus(s: Seq<char>) -> Seq<char> {
    if s.len() > 0 && s[0] == '+' {
        s.skip(1)
    } else {
        s
    }
}

/// The value of an unsigned decimal number: at least one digit and nothing but
/// digits, after an optional `+`. Anything else has no value.
pub open spec fn unsigned_value(s: Seq<char>) -> Option<nat> {
    let digits = without_plus(s);
    if digits.len() > 0 && all_digits(digits) {
        Some(digits_value(digits))
    } else {
        None
    }
}

/// The value of an unsigned decimal number that is at most `max`.
pub open spec fn bounded_value(s: Seq<char>, max: nat) -> Option<nat> {
    match unsigned_value(s) {
        Some(v) => if v <= max {
            Some(v)
        } else {
            None
        },
        None => None,
    }
}

/// The shortest decimal form of `n`.
pub open spec fn decimal(n: nat) -> Seq<char>
    decreases n,
{
    if n < 10 {
        seq![digit_char(n)]
    } else {
        decimal(n / 10).push(digit_char(n % 10))
    }
}

/// Further digits never make a number smaller.
proof fn lemma_prefix_value(s: Seq<char>, i: int)
    requires
        0 <= i <= s.len(),
        all_digits(s),
    ensures
        digits_value(s.take(i)) <= digits_value(s),
    decreases s.len() - i,
{
    if i == s.len() {
        assert(s.take(i) =~= s);
    } else {
        lemma_prefix_value(s, i + 1);
        assert(s.take(i + 1).drop_last() =~= s.take(i));
    }
}

/// Reads an unsigned decimal number of at most `max`.
fn parse_bounded(s: &[char], max: u64) -> (value: Option<u64>)
    ensures
        match value {
            Some(v) => bounded_value(s@, max as nat) == Some(v as nat),
            None => bounded_value(s@, max as nat) is None,
        },
{
    let n: usize = s.len();
    let first: usize = if n > 0 && s[0] == '+' {
        1
    } else {
        0
    };
    let ghost digits = without_plus(s@);
    assert(digits =~= s@.skip(first as int));
    if first == n {
        return None;
    }
    let mut value: u64 = 0;
    let mut i: usize = first;
    assert(digits.take(0) =~= Seq::<char>::empty());
    while i < n
        invariant
            n == s@.len(),
            first <= i <= n,
            first < n,
            digits == without_plus(s@),
            digits =~= s@.skip(first as int),
            all_digits(digits.take(i - first)),
            value == digits_value(digits.take(i - first)),
            value <= max,
        decreases n - i,
    {
        let c: char = s[i];
        assert(digits[i - first] == c);
        if !('0' <= c && c <= '9') {
            assert(!is_digit(digits[i - first]));
            return None;
        }
        let d: u64 = (c as u32 - '0' as u32) as u64;
        let ghost next = digits.take(i - first + 1);
        assert(next.drop_last() =~= digits.take(i - first));
        assert(next.last() == c);
        assert(digits_value(next) == 10 * value + d);
        assert(next =~= digits.take(i - first).push(c));
        let wide: u128 = value as u128 * 10 + d as u128;
        if wide > max as u128 {
            proof {
                if all_digits(digits) {
                    lemma_prefix_value(digits, i - first + 1);
                }
            }
            return None;
        }
        value = wide as u64;
        i += 1;
    }
    assert(digits.take(n - first) =~= digits);
    Some(value)
}

/// Reads an unsigned 64-bit decimal number.
pub fn parse_u64(s: &[char]) -> (value: Option<u64>)
    ensures
        match value {
            Some(v) => bounded_value(s@, u64::MAX as nat) == Some(v as nat),
            None => bounded_value(s@, u64::MAX as nat) is None,
        },
{
    parse_bounded(s, u64::MAX)
}

/// Reads an unsigned 32-bit decimal number.
pub fn parse_u32(s: &[char]) -> (value: Option<u32>)
    ensures
        match value {
            Some(v) => bounded_value(s@, u32::MAX as nat) == Some(v as nat),
            None => bounded_value(s@, u32::MAX as nat) is None,
        },
{
    match parse_bounded(s, u32::MAX as u64) {
        Some(v) => Some(v as u32),
        None => None,
    }
}

/// Writes `n` in decimal.
pub fn decimal_string(n: u64) -> (s: String)
    ensures
        s@ == decimal(n as nat),
    decreases n,
{
    let digit: char = ((n % 10) as u8 + 48u8) as char;
    if n < 10 {
        let mut s: String = String::new();
        s.push(digit);
        assert(s@ =~= decimal(n as nat));
        s
    } else {
        let mut s: String = decimal_string(n / 10);
        s.push(digit);
        s
    }
}

/// A number written in decimal reads back as the same number.
pub proof fn law_decimal_reads_back(n: nat)
    ensures
        decimal(n).len() > 0,
        all_digits(decimal(n)),
        digits_value(decimal(n)) == n,
        unsigned_value(decimal(n)) == Some(n),
    decreases n,
{
    let s = decimal(n);
    assert(is_digit(digit_char(n % 10)) && digit_value(digit_char(n % 10)) == n % 10);
    if n >= 10 {
        law_decimal_reads_back(n / 10);
        assert(s.drop_last() =~= decimal(n / 10));
        assert forall|i: int| 0 <= i < s.len() implies is_digit(#[trigger] s[i]) by {
            if i < s.len() - 1 {
                assert(s[i] == decimal(n / 10)[i]);
            }
        }
    } else {
        assert(s.drop_last() =~= Seq::<char>::empty());
        assert(digits_value(s.drop_last()) == 0);
    }
    assert(is_digit(s[0]));
    assert(without_plus(s) == s);
}

/// The digit with the weight `10^i` in the decimal form of a number is that of the number, no form
/// begins with a zero but that of 0 itself, and no digit is missing at the front.
pub proof fn law_decimal_has_the_digits(n: nat, i: int)
    requires
        0 <= i < decimal(n).len(),
    ensures
        decimal(n)[decimal(n).len() - 1 - i] as int == 48 + n as int / pow(10, i as nat) % 10,
        decimal(n).len() > 1 ==> decimal(n)[0] != '0',
        n < pow(10, decimal(n).len()),
    decreases n,
{
    reveal(pow);
    let s = decimal(n);
    lemma_pow_positive(10, i as nat);
    if n < 10 {
        assert(s.len() == 1);
        assert(pow(10, 0) == 1);
        assert(pow(10, 1) == 10 * pow(10, 0));
    } else {
        let front = decimal(n / 10);
        law_decimal_reads_back(n / 10);
        assert(s.drop_last() =~= front);
        law_decimal_has_the_digits(n / 10, 0);
        assert(pow(10, s.len()) == 10 * pow(10, front.len()));
        if i > 0 {
            law_decimal_has_the_digits(n / 10, i - 1);
            assert(s[s.len() - 1 - i] == front[front.len() - 1 - (i - 1)]);
            lemma_pow_positive(10, (i - 1) as nat);
            lemma_div_denominator(n as int, 10, pow(10, (i - 1) as nat));
            assert(pow(10, i as nat) == 10 * pow(10, (i - 1) as nat));
        } else {
            assert(pow(10, 0) == 1);
        }
        if front.len() == 1 {
            assert(pow(10, 1) == 10 * pow(10, 0));
            assert(front[0] as int == 48 + (n / 10) as int / pow(10, 0) % 10);
        }
    }
}

/// A number as it may be written: after an optional `+` and any zeros its decimal form.
pub open spec fn written(n: nat, zeros: nat, plus: bool) -> Seq<char> {
    (if plus {
        seq!['+']
    } else {
        Seq::empty()
    }) + Seq::new(zeros, |i: int| '0') + decimal(n)
}

/// Zeros at the front of digits do not count.
proof fn lemma_zeros(zeros: nat, s: Seq<char>)
    requires
        all_digits(s),
    ensures
        all_digits(Seq::new(zeros, |i: int| '0') + s),
        digits_value(Seq::new(zeros, |i: int| '0') + s) == digits_value(s),
    decreases zeros + s.len(),
{
    let front = Seq::new(zeros, |i: int| '0');
    let all = front + s;
    assert forall|i: int| 0 <= i < all.len() implies is_digit(#[trigger] all[i]) by {
        if i >= zeros {
            assert(all[i] == s[i - zeros]);
        }
    }
    if s.len() > 0 {
        assert(all_digits(s.drop_last())) by {
            assert forall|i: int| 0 <= i < s.drop_last().len() implies is_digit(
                #[trigger] s.drop_last()[i],
            ) by {
                assert(is_digit(s[i]));
            }
        }
        lemma_zeros(zeros, s.drop_last());
        assert(all.drop_last() =~= front + s.drop_last());
    } else if zeros > 0 {
        lemma_zeros((zeros - 1) as nat, s);
        assert(all.drop_last() =~= Seq::new((zeros - 1) as nat, |i: int| '0') + s);
    } else {
        assert(all =~= s);
    }
}

/// Digits are a decimal form after some zeros.
proof fn lemma_digits_are_written(s: Seq<char>) -> (zeros: nat)
    requires
        s.len() > 0,
        all_digits(s),
    ensures
        s == Seq::new(zeros, |i: int| '0') + decimal(digits_value(s)),
    decreases s.len(),
{
    let front = s.drop_last();
    let v = digits_value(front);
    assert(is_digit(s[s.len() - 1]));
    assert forall|i: int| 0 <= i < front.len() implies is_digit(#[trigger] front[i]) by {
        assert(is_digit(s[i]));
    }
    if front.len() == 0 {
        assert(v == 0);
        assert(s =~= Seq::new(0nat, |i: int| '0') + decimal(digits_value(s)));
        0
    } else {
        let zeros = lemma_digits_are_written(front);
        assert(s =~= front.push(s.last()));
        let d = digit_value(s.last());
        assert(d < 10 && digit_char(d) == s.last());
        if v == 0 {
            assert(decimal(v) =~= seq!['0']);
            assert(decimal(d) =~= seq![s.last()]);
            assert(s =~= Seq::new(zeros + 1, |i: int| '0') + decimal(digits_value(s)));
            zeros + 1
        } else {
            assert(digits_value(s) / 10 == v && digits_value(s) % 10 == d);
            assert(decimal(digits_value(s)) =~= decimal(v).push(s.last()));
            assert(s =~= Seq::new(zeros, |i: int| '0') + decimal(digits_value(s)));
            zeros
        }
    }
}

/// A number is read from its decimal form, after zeros and a `+` or not.
pub proof fn law_written_number_is_read(n: nat, zeros: nat, plus: bool)
    ensures
        unsigned_value(written(n, zeros, plus)) == Some(n),
{
    let digits = Seq::new(zeros, |i: int| '0') + decimal(n);
    law_decimal_reads_back(n);
    lemma_zeros(zeros, decimal(n));
    let s = written(n, zeros, plus);
    assert(is_digit(digits[0]));
    if plus {
        assert(s.skip(1) =~= digits);
    } else {
        assert(s =~= digits);
    }
}

/// Nothing else is read as a number: what is read is the decimal form of the value, after zeros
/// and a `+` or not.
pub proof fn law_only_written_numbers_are_read(s: Seq<char>)
    ensures
        unsigned_value(s) matches Some(n) ==> exists|zeros: nat, plus: bool|
            s == #[trigger] written(n, zeros, plus),
{
    if let Some(n) = unsigned_value(s) {
        let plus = s[0] == '+';
        let digits = without_plus(s);
        let zeros = lemma_digits_are_written(digits);
        if plus {
            assert(s =~= seq!['+'] + digits);
        }
        assert(s =~= written(n, zeros, plus));
    }
}

/// A number that is too large is not read, and any other is.
pub proof fn law_bound_is_kept(n: nat, zeros: nat, plus: bool, max: nat)
    ensures
        bounded_value(written(n, zeros, plus), max) == (if n <= max {
            Some(n)
        } else {
            None
        }),
{
    law_written_number_is_read(n, zeros, plus);
}

/// A text that is no number, however large, is not read with a bound either.
pub proof fn law_bound_admits_numbers_only(s: Seq<char>, max: nat)
    ensures
        bounded_value(s, max) matches Some(n) ==> n <= max && unsigned_value(s) == Some(n),
{
}

} // verus!
