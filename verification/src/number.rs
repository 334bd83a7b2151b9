//! Decimal numbers: how a 64-bit number is written, and which texts are read as one.

use crate::text::chars_of;
use vstd::prelude::*;
use vstd::string::*;

verus! {

broadcast use vstd::string::group_string_axioms;

/// Whether `c` is one of the ten ASCII digits.
pub open spec fn is_digit(c: char) -> bool {
    '0' <= c && c <= '9'
}

/// Whether `s` holds ASCII digits only.
pub open spec fn all_digits(s: Seq<char>) -> bool {
    forall|i: int| 0 <= i < s.len() ==> is_digit(#[trigger] s[i])
}

/// The number that the digits `s` write, most significant first.
pub open spec fn digits_value(s: Seq<char>) -> int
    decreases s.len(),
{
    if s.len() == 0 {
        0
    } else {
        digits_value(s.drop_last()) * 10 + (s.last() as int - '0' as int)
    }
}

/// The number that `s` writes: one digit or more, behind at most one sign.
pub open spec fn number_in(s: Seq<char>) -> Option<int> {
    let signed = s.len() > 0 && (s[0] == '-' || s[0] == '+');
    let digits = if signed {
        s.skip(1)
    } else {
        s
    };
    if digits.len() == 0 || !all_digits(digits) {
        None
    } else if signed && s[0] == '-' {
        Some(-digits_value(digits))
    } else {
        Some(digits_value(digits))
    }
}

/// The 64-bit signed number that `s` writes, if it writes one.
pub open spec fn i64_in(s: Seq<char>) -> Option<i64> {
    match number_in(s) {
        Some(n) if i64::MIN <= n <= i64::MAX => Some(n as i64),
        _ => None,
    }
}

/// The digits of `n`, most significant first, without leading zeros.
pub open spec fn digits_of(n: nat) -> Seq<char>
    decreases n,
{
    if n < 10 {
        seq![digit_char(n)]
    } else {
        digits_of(n / 10).push(digit_char(n % 10))
    }
}

/// The digit that stands for `n`.
pub open spec fn digit_char(n: nat) -> char {
    (n + '0' as nat) as char
}

/// How `n` is written in decimal.
pub open spec fn decimal(n: int) -> Seq<char> {
    if n < 0 {
        seq!['-'] + digits_of((-n) as nat)
    } else {
        digits_of(n as nat)
    }
}

proof fn lemma_value_bounds(s: Seq<char>, i: int)
    requires
        all_digits(s),
        0 <= i <= s.len(),
    ensures
        0 <= digits_value(s.take(i)) <= digits_value(s),
    decreases s.len() - i,
{
    if i < s.len() {
        lemma_value_bounds(s, i + 1);
        assert(s.take(i + 1).drop_last() =~= s.take(i));
        assert(is_digit(s[i]));
        lemma_value_nonnegative(s.take(i));
    } else {
        assert(s.take(i) =~= s);
        lemma_value_nonnegative(s);
    }
}

proof fn lemma_value_nonnegative(s: Seq<char>)
    requires
        all_digits(s),
    ensures
        digits_value(s) >= 0,
    decreases s.len(),
{
    if s.len() > 0 {
        assert(is_digit(s[s.len() - 1]));
        assert forall|i: int| 0 <= i < s.drop_last().len() implies is_digit(
            #[trigger] s.drop_last()[i],
        ) by {
            assert(is_digit(s[i]));
        }
        lemma_value_nonnegative(s.drop_last());
    }
}

/// The digits of a number are digits, there is at least one, and they write that number.
pub proof fn lemma_digits_of(n: nat)
    ensures
        digits_of(n).len() > 0,
        all_digits(digits_of(n)),
        digits_value(digits_of(n)) == n,
    decreases n,
{
    if n < 10 {
        assert(digits_of(n).drop_last() =~= Seq::<char>::empty());
        assert(digits_value(digits_of(n).drop_last()) == 0);
    } else {
        lemma_digits_of(n / 10);
        let front = digits_of(n / 10);
        assert(digits_of(n).drop_last() =~= front);
        assert forall|i: int| 0 <= i < digits_of(n).len() implies is_digit(
            #[trigger] digits_of(n)[i],
        ) by {
            if i < front.len() {
                assert(is_digit(front[i]));
            }
        }
    }
}

/// A number is written with digits and a minus sign only, and not with nothing.
pub proof fn lemma_decimal_chars(n: int)
    ensures
        decimal(n).len() > 0,
        forall|i: int|
            0 <= i < decimal(n).len() ==> is_digit(#[trigger] decimal(n)[i]) || decimal(n)[i]
                == '-',
{
    if n < 0 {
        lemma_digits_of((-n) as nat);
        let digits = digits_of((-n) as nat);
        assert forall|i: int| 0 <= i < decimal(n).len() implies is_digit(#[trigger] decimal(n)[i])
            || decimal(n)[i] == '-' by {
            if i > 0 {
                assert(is_digit(digits[i - 1]));
            }
        }
    } else {
        lemma_digits_of(n as nat);
    }
}

/// Reading a written number gives the number back.
pub proof fn decimal_reads_back(n: i64)
    ensures
        i64_in(decimal(n as int)) == Some(n),
{
    let s = decimal(n as int);
    if n < 0 {
        lemma_digits_of((-n) as nat);
        assert(s.skip(1) =~= digits_of((-n) as nat));
    } else {
        lemma_digits_of(n as nat);
        assert(is_digit(s[0]));
    }
}

/// The 64-bit signed number that `s` writes in decimal: one digit or more behind at most
/// one sign; nothing if `s` is anything else or the number does not fit.
pub fn parse_i64(s: &str) -> (n: Option<i64>)
    ensures
        n == i64_in(s@),
{
    let chars: Vec<char> = chars_of(s);
    let signed: bool = chars.len() > 0 && (chars[0] == '-' || chars[0] == '+');
    let negative: bool = signed && chars[0] == '-';
    let first: usize = if signed {
        1
    } else {
        0
    };
    if chars.len() == first {
        return None;
    }
    let ghost digits = s@.skip(first as int);
    proof {
        if !signed {
            assert(digits =~= s@);
        }
        assert(digits.take(0) =~= Seq::<char>::empty());
    }
    let limit: u64 = 9223372036854775808;
    let mut value: u64 = 0;
    let mut i: usize = first;
    while i < chars.len()
        invariant
            chars@ == s@,
            first <= i <= chars.len(),
            first <= 1,
            digits == s@.skip(first as int),
            digits.len() == chars.len() - first,
            limit == 9223372036854775808,
            value <= limit,
            value == digits_value(digits.take(i - first)),
            all_digits(digits.take(i - first)),
            signed == (s@.len() > 0 && (s@[0] == '-' || s@[0] == '+')),
            first == (if signed { 1int } else { 0int }),
            !signed ==> digits == s@,
        decreases chars.len() - i,
    {
        let c: char = chars[i];
        let ghost k = i - first;
        assert(digits[k] == c);
        if c < '0' || c > '9' {
            assert(!is_digit(digits[k]));
            assert(!all_digits(digits));
            return None;
        }
        let digit: u64 = (c as u32 - '0' as u32) as u64;
        proof {
            assert(digits.take(k + 1).drop_last() =~= digits.take(k));
            assert(digits_value(digits.take(k + 1)) == value * 10 + digit);
            assert(all_digits(digits.take(k + 1))) by {
                assert forall|j: int| 0 <= j < k + 1 implies is_digit(
                    #[trigger] digits.take(k + 1)[j],
                ) by {
                    if j < k {
                        assert(is_digit(digits.take(k)[j]));
                    }
                }
            }
            if all_digits(digits) {
                lemma_value_bounds(digits, k + 1);
            }
        }
        if value > (limit - digit) / 10 {
            return None;
        }
        value = value * 10 + digit;
        i += 1;
    }
    proof {
        assert(digits.take(i - first) =~= digits);
    }
    if negative {
        if value == limit {
            Some(i64::MIN)
        } else {
            Some(-(value as i64))
        }
    } else if value == limit {
        None
    } else {
        Some(value as i64)
    }
}

/// Puts the digits of `n` at the end of `out`.
fn append_digits(out: &mut String, n: u64)
    ensures
        final(out)@ == old(out)@ + digits_of(n as nat),
    decreases n,
{
    if n >= 10 {
        append_digits(out, n / 10);
    }
    let ghost before = out@;
    let d: usize = (n % 10) as usize;
    proof {
        reveal_strlit("0123456789");
    }
    let all: &str = "0123456789";
    let digit: &str = all.substring_char(d, d + 1);
    out.append(digit);
    proof {
        assert(all@[d as int] == digit_char(d as nat));
        assert(digit@ =~= seq![digit_char(d as nat)]);
        assert(out@ =~= before.push(digit_char(d as nat)));
        assert(out@ =~= old(out)@ + digits_of(n as nat));
    }
}

/// Puts `n`, written in decimal, at the end of `out`.
pub fn append_decimal(out: &mut String, n: i64)
    ensures
        final(out)@ == old(out)@ + decimal(n as int),
{
    if n < 0 {
        proof {
            reveal_strlit("-");
        }
        out.append("-");
        assert(out@ =~= old(out)@ + seq!['-']);
        append_digits(out, (-(n as i128)) as u64);
        assert(out@ =~= old(out)@ + decimal(n as int));
    } else {
        append_digits(out, n as u64);
    }
}

proof fn lemma_leading_zero(s: Seq<char>)
    ensures
        digits_value(seq!['0'] + s) == digits_value(s),
    decreases s.len(),
{
    let longer = seq!['0'] + s;
    if s.len() > 0 {
        lemma_leading_zero(s.drop_last());
        assert(longer.drop_last() =~= seq!['0'] + s.drop_last());
        assert(longer.last() == s.last());
    } else {
        assert(longer.drop_last() =~= Seq::<char>::empty());
        assert(digits_value(Seq::<char>::empty()) == 0);
    }
}

/// Digits write a number that is not negative, with or without a plus sign or zeros before them.
/// Behind a minus sign they write the negative of it.
pub proof fn signs_and_zeros(digits: Seq<char>)
    requires
        digits.len() > 0,
        forall|i: int| 0 <= i < digits.len() ==> '0' <= #[trigger] digits[i] <= '9',
    ensures
        number_in(digits) matches Some(n) && n >= 0 && number_in(seq!['+'] + digits) == Some(n)
            && number_in(seq!['-'] + digits) == Some(-n) && number_in(seq!['0'] + digits) == Some(n),
{
    assert(all_digits(digits));
    assert(is_digit(digits[0]));
    lemma_value_nonnegative(digits);
    lemma_leading_zero(digits);
    assert((seq!['+'] + digits).skip(1) =~= digits);
    assert((seq!['-'] + digits).skip(1) =~= digits);
    let zero = seq!['0'] + digits;
    assert forall|i: int| 0 <= i < zero.len() implies is_digit(#[trigger] zero[i]) by {
        if i > 0 {
            assert(is_digit(digits[i - 1]));
        }
    }
    assert(zero[0] == '0');
}

/// What writes a number is digits, one at least, behind one sign at most. Anything else writes
/// none.
pub proof fn numbers_are_digits(s: Seq<char>)
    ensures
        number_in(s) is Some ==> s.len() > 0 && '0' <= s.last() <= '9' && ('0' <= s[0] <= '9'
            || s[0] == '-' || s[0] == '+') && (forall|i: int|
            0 < i < s.len() ==> '0' <= #[trigger] s[i] <= '9'),
        number_in(s) is None ==> s.len() == 0 || (exists|i: int|
            0 < i < s.len() && !('0' <= #[trigger] s[i] <= '9')) || !('0' <= s[0] <= '9')
            && s.len() == 1 || !('0' <= s[0] <= '9' || s[0] == '-' || s[0] == '+'),
{
    if s.len() > 0 {
        let signed = s[0] == '-' || s[0] == '+';
        let digits = if signed {
            s.skip(1)
        } else {
            s
        };
        let shift = if signed {
            1int
        } else {
            0int
        };
        if number_in(s) is Some {
            assert forall|i: int| 0 < i < s.len() implies '0' <= #[trigger] s[i] <= '9' by {
                assert(is_digit(digits[i - shift]));
            }
            assert(is_digit(digits[digits.len() - 1]));
            if !signed {
                assert(is_digit(digits[0]));
            }
        } else if digits.len() > 0 {
            let k = choose|k: int| 0 <= k < digits.len() && !is_digit(#[trigger] digits[k]);
            assert(s[k + shift] == digits[k]);
        }
    }
}

/// Every number, of any size, is written so that it reads back, without a zero before its other
/// digits, and its negative is the same behind a minus sign.
pub proof fn numbers_are_written_plainly(n: int)
    ensures
        number_in(decimal(n)) == Some(n),
        n > 0 ==> '1' <= decimal(n)[0] <= '9' && decimal(-n) == seq!['-'] + decimal(n),
        decimal(0) == seq!['0'],
{
    let size = (if n < 0 {
        -n
    } else {
        n
    }) as nat;
    lemma_digits_of(size);
    let digits = digits_of(size);
    assert(is_digit(digits[0]));
    if n < 0 {
        assert(decimal(n).skip(1) =~= digits);
    }
    if n > 0 {
        lemma_first_digit(size);
    }
    assert(decimal(0) =~= seq!['0']);
}

proof fn lemma_first_digit(n: nat)
    requires
        n > 0,
    ensures
        digits_of(n).len() > 0,
        '1' <= digits_of(n)[0] <= '9',
    decreases n,
{
    if n >= 10 {
        lemma_first_digit(n / 10);
    }
}

/// A number is read exactly if it is written and fits in 64 bits.
pub proof fn numbers_that_fit_are_read(s: Seq<char>, n: i64)
    ensures
        i64_in(s) == Some(n) <==> number_in(s) == Some(n as int),
        i64_in(s) is None <==> (number_in(s) matches Some(m) ==> m < -9223372036854775808 || m
            > 9223372036854775807),
{
}

} // verus!
