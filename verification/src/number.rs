//! Decimal numbers: writing them out and reading them back.

use vstd::arithmetic::div_mod;
use vstd::arithmetic::power;
use vstd::prelude::*;

verus! {

/// The ten decimal digits.
pub open spec fn is_digit(c: char) -> bool {
    '0' <= c <= '9'
}

/// The number that the digit `c` stands for.
pub open spec fn digit_value(c: char) -> int {
    c as int - '0' as int
}

/// The digit that stands for `d`.
pub open spec fn digit_char(d: nat) -> char {
    ('0' as int + d) as char
}

/// Whether `s` is made of digits alone.
pub open spec fn all_digits(s: Seq<char>) -> bool {
    forall|i: int| 0 <= i < s.len() ==> is_digit(#[trigger] s[i])
}

/// The number that a sequence of digits writes in base ten.
pub open spec fn digits_value(s: Seq<char>) -> int
    decreases s.len(),
{
    if s.len() == 0 {
        0
    } else {
        10 * digits_value(s.drop_last()) + digit_value(s.last())
    }
}

/// `n` in base ten, without leading zeros.
pub open spec fn decimal(n: nat) -> Seq<char>
    decreases n,
{
    if n < 10 {
        seq![digit_char(n)]
    } else {
        decimal(n / 10).push(digit_char(n % 10))
    }
}

/// The digits of `s` behind its optional sign.
pub open spec fn unsigned_part(s: Seq<char>) -> Seq<char> {
    if s.len() > 0 && (s[0] == '-' || s[0] == '+') {
        s.skip(1)
    } else {
        s
    }
}

/// The integer that `s` writes: an optional sign, then at least one digit and nothing else.
/// `None` where `s` has another form or the integer does not fit in an `i64`.
pub open spec fn integer_value(s: Seq<char>) -> Option<int> {
    let body = unsigned_part(s);
    let magnitude = digits_value(body);
    let value = if s.len() > 0 && s[0] == '-' {
        -magnitude
    } else {
        magnitude
    };
    if body.len() > 0 && all_digits(body) && i64::MIN <= value <= i64::MAX {
        Some(value)
    } else {
        None
    }
}

proof fn lemma_digits_value_bounds(s: Seq<char>)
    requires
        all_digits(s),
    ensures
        digits_value(s) >= 0,
    decreases s.len(),
{
    if s.len() > 0 {
        assert(all_digits(s.drop_last())) by {
            assert forall|i: int| 0 <= i < s.drop_last().len() implies is_digit(
                #[trigger] s.drop_last()[i],
            ) by {
                assert(is_digit(s[i]));
            }
        }
        lemma_digits_value_bounds(s.drop_last());
        assert(is_digit(s[s.len() - 1]));
    }
}

/// Reads the integer that `s` writes.
pub fn parse_integer(s: &Vec<char>) -> (r: Option<i64>)
    ensures
        match r {
            Some(n) => integer_value(s@) == Some(n as int),
            None => integer_value(s@) is None,
        },
{
    let negative: bool = s.len() > 0 && s[0] == '-';
    let start: usize = if s.len() > 0 && (s[0] == '-' || s[0] == '+') {
        1
    } else {
        0
    };
    let ghost body: Seq<char> = unsigned_part(s@);
    assert(body =~= s@.skip(start as int));
    if start == s.len() {
        return None;
    }
    // The largest magnitude of an `i64` is that of its minimum.
    let limit: u64 = 0x8000_0000_0000_0000;
    let mut magnitude: u64 = 0;
    let mut too_large: bool = false;
    let mut i: usize = start;
    while i < s.len()
        invariant
            start <= i <= s.len(),
            body == s@.skip(start as int),
            body == unsigned_part(s@),
            limit == 0x8000_0000_0000_0000,
            all_digits(body.take(i - start)),
            too_large ==> digits_value(body.take(i - start)) > limit,
            !too_large ==> magnitude == digits_value(body.take(i - start)) && magnitude <= limit,
        decreases s.len() - i,
    {
        let c: char = s[i];
        assert(body[i - start] == c);
        if c < '0' || c > '9' {
            assert(!is_digit(body[i - start]));
            return None;
        }
        let d: u64 = (c as u64) - ('0' as u64);
        assert(body.take(i + 1 - start).drop_last() =~= body.take(i - start));
        if !too_large {
            if magnitude > (limit - d) / 10 {
                too_large = true;
            } else {
                magnitude = magnitude * 10 + d;
            }
        }
        i += 1;
    }
    assert(body.take(i - start) =~= body);
    proof {
        lemma_digits_value_bounds(body);
    }
    if too_large {
        None
    } else if negative {
        if magnitude == limit {
            Some(i64::MIN)
        } else {
            Some(-(magnitude as i64))
        }
    } else if magnitude == limit {
        None
    } else {
        Some(magnitude as i64)
    }
}

/// The digit that stands for `d`.
fn digit(d: u64) -> (c: char)
    requires
        d < 10,
    ensures
        c == digit_char(d as nat),
{
    if d == 0 {
        '0'
    } else if d == 1 {
        '1'
    } else if d == 2 {
        '2'
    } else if d == 3 {
        '3'
    } else if d == 4 {
        '4'
    } else if d == 5 {
        '5'
    } else if d == 6 {
        '6'
    } else if d == 7 {
        '7'
    } else if d == 8 {
        '8'
    } else {
        '9'
    }
}

/// Appends `n` in base ten to `out`.
pub fn push_decimal(out: &mut String, n: u64)
    ensures
        final(out)@ == old(out)@ + decimal(n as nat),
    decreases n,
{
    if n >= 10 {
        push_decimal(out, n / 10);
    }
    out.push(digit(n % 10));
    assert(out@ =~= old(out)@ + decimal(n as nat));
}

/// What `decimal` writes is at least one digit, digits alone, and reads back.
pub proof fn lemma_decimal(n: nat)
    ensures
        decimal(n).len() > 0,
        all_digits(decimal(n)),
        digits_value(decimal(n)) == n,
    decreases n,
{
    if n < 10 {
        let s = decimal(n);
        assert(s.drop_last() =~= Seq::<char>::empty());
        assert(digits_value(s.drop_last()) == 0);
    } else {
        lemma_decimal(n / 10);
        let s = decimal(n);
        assert(s.drop_last() =~= decimal(n / 10));
        assert forall|i: int| 0 <= i < s.len() implies is_digit(#[trigger] s[i]) by {
            if i < s.len() - 1 {
                assert(s[i] == decimal(n / 10)[i]);
            }
        }
    }
}

/// Two numbers with the same decimal text are equal.
pub proof fn lemma_decimal_injective(a: nat, b: nat)
    requires
        decimal(a) == decimal(b),
    ensures
        a == b,
{
    lemma_decimal(a);
    lemma_decimal(b);
}

/// The decimal text of a number that fits in an `i64` reads back as that number.
pub proof fn lemma_integer_value_of_decimal(n: nat)
    requires
        n <= i64::MAX,
    ensures
        integer_value(decimal(n)) == Some(n as int),
{
    lemma_decimal(n);
    assert(is_digit(decimal(n)[0]));
}

/// No digits stand for zero; a further digit behind some makes them worth ten times as much, and
/// adds what it stands for.
pub proof fn law_a_further_digit_counts_once(s: Seq<char>, c: char)
    requires
        '0' <= c <= '9',
    ensures
        digits_value(Seq::<char>::empty()) == 0,
        digits_value(s.push(c)) == 10 * digits_value(s) + (c as int - '0' as int),
{
    assert(s.push(c).drop_last() =~= s);
}

/// The decimal text of a number has, at the `k`-th place from its end, the digit of the `k`-th
/// power of ten, and no place more than the number needs.
pub proof fn law_decimal_has_a_digit_per_place(n: nat, k: nat)
    ensures
        decimal(n).len() > 0,
        n < power::pow(10, decimal(n).len()),
        decimal(n).len() > 1 ==> power::pow(10, (decimal(n).len() - 1) as nat) <= n,
        k < decimal(n).len() ==> decimal(n)[decimal(n).len() - 1 - k] as int == '0' as int + (n as int
            / power::pow(10, k)) % 10,
    decreases n,
{
    power::lemma_pow0(10);
    power::lemma_pow1(10);
    if n >= 10 {
        let front = decimal(n / 10);
        let len = decimal(n).len();
        assert(len == front.len() + 1);
        law_decimal_has_a_digit_per_place(n / 10, if k > 0 { (k - 1) as nat } else { 0 });
        power::lemma_pow_adds(10, 1, front.len());
        power::lemma_pow_adds(10, 1, (front.len() - 1) as nat);
        assert(front.len() == 1 ==> power::pow(10, (front.len() - 1) as nat) == 1);
        if 0 < k < len {
            let j = (k - 1) as nat;
            power::lemma_pow_adds(10, 1, j);
            power::lemma_pow_positive(10, j);
            div_mod::lemma_div_denominator(n as int, 10, power::pow(10, j));
            assert(decimal(n)[len - 1 - k] == front[front.len() - 1 - j]);
        }
    }
}

/// Digits, alone or behind a sign, write the integer of that sign and value, where it fits in an
/// `i64`.
pub proof fn law_digits_write_their_value(digits: Seq<char>)
    requires
        digits.len() > 0,
        forall|i: int| 0 <= i < digits.len() ==> '0' <= #[trigger] digits[i] <= '9',
    ensures
        digits_value(digits) >= 0,
        integer_value(digits) == if digits_value(digits) <= i64::MAX {
            Some(digits_value(digits))
        } else {
            None
        },
        integer_value(seq!['+'] + digits) == integer_value(digits),
        integer_value(seq!['-'] + digits) == if -digits_value(digits) >= i64::MIN {
            Some(-digits_value(digits))
        } else {
            None
        },
{
    assert(all_digits(digits));
    assert(is_digit(digits[0]));
    lemma_digits_value_bounds(digits);
    assert((seq!['+'] + digits).skip(1) =~= digits);
    assert((seq!['-'] + digits).skip(1) =~= digits);
}

/// A text writes no integer where it has no digit, or a character that is neither a digit nor a
/// sign in front.
pub proof fn law_other_texts_write_no_integer(s: Seq<char>, at: int)
    requires
        ({
            ||| s.len() == 0
            ||| s.len() == 1 && (s[0] == '+' || s[0] == '-')
            ||| 0 <= at < s.len() && !('0' <= s[at] <= '9') && (at > 0 || s[0] != '+' && s[0] != '-')
        }),
    ensures
        integer_value(s) is None,
{
    let body = unsigned_part(s);
    if s.len() > 1 || s.len() == 1 && s[0] != '+' && s[0] != '-' {
        if s[0] == '+' || s[0] == '-' {
            assert(body[at - 1] == s[at]);
            assert(!is_digit(body[at - 1]));
        } else {
            assert(body[at] == s[at]);
            assert(!is_digit(body[at]));
        }
    }
}

} // verus!
