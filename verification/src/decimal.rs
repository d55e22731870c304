//! Unsigned decimal numerals: writing them and reading them back.
use vstd::arithmetic::div_mod::*;
use vstd::arithmetic::power::*;
use vstd::prelude::*;
use vstd::string::*;

verus! {

/// The digit that stands for `d`.
pub open spec fn digit_char(d: nat) -> char
    recommends
        d < 10,
{
    (48 + d) as char
}

/// A decimal digit.
pub open spec fn is_digit(c: char) -> bool {
    '0' <= c <= '9'
}

/// What a decimal digit stands for.
pub open spec fn digit_value(c: char) -> nat
    recommends
        is_digit(c),
{
    (c as u32 - 48) as nat
}

/// The decimal numeral of `n`, without leading zeros.
pub open spec fn numeral(n: nat) -> Seq<char>
    decreases n,
{
    if n < 10 {
        seq![digit_char(n)]
    } else {
        numeral(n / 10).push(digit_char(n % 10))
    }
}

/// Nothing but decimal digits.
pub open spec fn all_digits(s: Seq<char>) -> bool {
    forall|i: int| 0 <= i < s.len() ==> is_digit(#[trigger] s[i])
}

/// The number that a row of digits stands for.
pub open spec fn digits_value(s: Seq<char>) -> nat
    decreases s.len(),
{
    if s.len() == 0 {
        0
    } else {
        10 * digits_value(s.drop_last()) + digit_value(s.last())
    }
}

/// The digits of a numeral: a leading plus sign is not one of them.
pub open spec fn unsigned_part(s: Seq<char>) -> Seq<char> {
    if s.len() > 0 && s[0] == '+' {
        s.skip(1)
    } else {
        s
    }
}

/// What a text stands for as an unsigned number of at most `max`: a row of at
/// least one digit, with a plus sign or without. Anything else stands for
/// nothing.
pub open spec fn parsed(s: Seq<char>, max: nat) -> Option<nat> {
    let digits = unsigned_part(s);
    if digits.len() > 0 && all_digits(digits) && digits_value(digits) <= max {
        Some(digits_value(digits))
    } else {
        None
    }
}

/// The digit for `d`, as a text.
fn digit_text(d: u64) -> (r: &'static str)
    requires
        d < 10,
    ensures
        r@ == seq![digit_char(d as nat)],
{
    proof {
        reveal_strlit("0");
        reveal_strlit("1");
        reveal_strlit("2");
        reveal_strlit("3");
        reveal_strlit("4");
        reveal_strlit("5");
        reveal_strlit("6");
        reveal_strlit("7");
        reveal_strlit("8");
        reveal_strlit("9");
    }
    let r = match d {
        0 => "0",
        1 => "1",
        2 => "2",
        3 => "3",
        4 => "4",
        5 => "5",
        6 => "6",
        7 => "7",
        8 => "8",
        _ => "9",
    };
    assert(r@ =~= seq![digit_char(d as nat)]);
    r
}

/// The decimal numeral of `n`.
pub fn decimal(n: u64) -> (r: String)
    ensures
        r@ == numeral(n as nat),
    decreases n,
{
    if n < 10 {
        digit_text(n).to_owned()
    } else {
        let mut r = decimal(n / 10);
        r.append(digit_text(n % 10));
        assert(r@ =~= numeral(n as nat));
        r
    }
}

proof fn lemma_digits_value_monotone(s: Seq<char>, n: int)
    requires
        0 <= n <= s.len(),
        all_digits(s),
    ensures
        digits_value(s.take(n)) <= digits_value(s),
    decreases s.len() - n,
{
    if n < s.len() {
        lemma_digits_value_monotone(s.drop_last(), n);
        assert(s.drop_last().take(n) =~= s.take(n));
    } else {
        assert(s.take(n) =~= s);
    }
}

/// What a decimal digit stands for.
fn digit_of(c: char) -> (r: Option<u64>)
    ensures
        r is Some <==> is_digit(c),
        r matches Some(d) ==> d == digit_value(c) && d < 10,
{
    match c {
        '0' => Some(0),
        '1' => Some(1),
        '2' => Some(2),
        '3' => Some(3),
        '4' => Some(4),
        '5' => Some(5),
        '6' => Some(6),
        '7' => Some(7),
        '8' => Some(8),
        '9' => Some(9),
        _ => None,
    }
}

/// Reads an unsigned number of at most `max`.
pub fn parse_unsigned(s: &str, max: u64) -> (r: Option<u64>)
    ensures
        match r {
            Some(n) => parsed(s@, max as nat) == Some(n as nat),
            None => parsed(s@, max as nat) is None,
        },
{
    let total: usize = s.unicode_len();
    let mut at: usize = 0;
    let mut skipped: usize = 0;
    let mut value: u64 = 0;
    let ghost digits = unsigned_part(s@);
    for c in it: s.chars()
        invariant
            it.seq() == s@,
            at == it.index(),
            total == s@.len(),
            at <= total,
            digits == unsigned_part(s@),
            skipped == (if at > 0 && s@[0] == '+' { 1int } else { 0int }),
            value <= max,
            all_digits(digits.take(at - skipped)),
            value == digits_value(digits.take(at - skipped)),
    {
        assert(s@[at as int] == c);
        if at == 0 && c == '+' {
            skipped = 1;
            assert(digits.take(0) =~= digits.take(at - 0));
        } else {
            let ghost n = at - skipped;
            assert(digits[n] == c);
            let ghost longer = digits.take(n + 1);
            assert(longer.drop_last() =~= digits.take(n));
            match digit_of(c) {
                None => {
                    return None;
                },
                Some(d) => {
                    let next: u128 = value as u128 * 10 + d as u128;
                    assert(next == digits_value(longer));
                    if next > max as u128 {
                        proof {
                            if all_digits(digits) {
                                lemma_digits_value_monotone(digits, n + 1);
                            }
                        }
                        return None;
                    }
                    value = next as u64;
                    assert forall|i: int| 0 <= i < longer.len() implies is_digit(
                        #[trigger] longer[i],
                    ) by {
                        if i < n {
                            assert(digits.take(n)[i] == longer[i]);
                        }
                    }
                },
            }
        }
        at = at + 1;
    }
    assert(digits.take(at - skipped) =~= digits);
    if at == skipped {
        None
    } else {
        Some(value)
    }
}

/// Writing a number and reading it back gives the number, wherever it is
/// within the limit: the numeral has no sign, at least one digit and nothing
/// else.
pub proof fn lemma_numeral_parses(n: nat, max: nat)
    requires
        n <= max,
    ensures
        parsed(numeral(n), max) == Some(n),
        numeral(n).len() > 0,
        all_digits(numeral(n)),
{
    lemma_numeral_digits(n);
    assert(is_digit(numeral(n)[0]));
}

proof fn lemma_numeral_digits(n: nat)
    ensures
        numeral(n).len() > 0,
        all_digits(numeral(n)),
        digits_value(numeral(n)) == n,
    decreases n,
{
    if n < 10 {
        let s = numeral(n);
        assert(s.drop_last() =~= Seq::<char>::empty());
        reveal_with_fuel(digits_value, 2);
    } else {
        lemma_numeral_digits(n / 10);
        assert(numeral(n).drop_last() =~= numeral(n / 10));
    }
}

/// The ten digits, in the order of what they stand for.
pub proof fn lemma_ten_digits(d: nat, c: char)
    requires
        d < 10,
    ensures
        digit_char(d) == "0123456789"@[d as int],
        digit_value(digit_char(d)) == d,
        is_digit(c) <==> "0123456789"@.contains(c),
{
    reveal_strlit("0123456789");
    let digits = "0123456789"@;
    assert(digits.len() == 10);
    if is_digit(c) {
        assert(digits[c as u32 - 48] == c);
    }
}

/// The numeral of a number has its digits in their places: the digit `k` places
/// from the end says how many times the `k`-th power of ten goes into the
/// number, beyond the higher places. It has as many digits as the number needs,
/// and so no leading zero.
pub proof fn lemma_numeral_places(n: nat, k: nat)
    ensures
        numeral(n).len() > 0,
        n < pow(10, numeral(n).len()),
        n >= 10 ==> n >= pow(10, (numeral(n).len() - 1) as nat),
        n < 10 ==> numeral(n).len() == 1,
        k < numeral(n).len() ==> numeral(n)[numeral(n).len() - 1 - k] == "0123456789"@[(n as int
            / pow(10, k)) % 10],
    decreases n,
{
    lemma_pow0(10);
    lemma_pow1(10);
    let len = numeral(n).len();
    if n < 10 {
        lemma_ten_digits(n, '0');
    } else {
        let front = numeral(n / 10);
        lemma_numeral_places(n / 10, (k - 1) as nat);
        lemma_numeral_places(n / 10, 0);
        lemma_pow_adds(10, 1, front.len());
        lemma_pow_adds(10, 1, (front.len() - 1) as nat);
        lemma_ten_digits(n % 10, '0');
        if k > 0 && k < len {
            lemma_pow_adds(10, 1, (k - 1) as nat);
            lemma_pow_positive(10, (k - 1) as nat);
            lemma_div_denominator(n as int, 10, pow(10, (k - 1) as nat));
            assert(numeral(n)[len - 1 - k] == front[front.len() - 1 - (k - 1)]);
        }
    }
}

/// A row of zeros.
pub open spec fn zeros(count: nat) -> Seq<char> {
    Seq::new(count, |i: int| '0')
}

/// The text is the numeral of `n`, with zeros or without in front, and with a
/// plus sign or without in front of those.
pub open spec fn stands_for(s: Seq<char>, n: nat) -> bool {
    exists|count: nat|
        s == #[trigger] zeros(count) + numeral(n) || s == seq!['+'] + zeros(count) + numeral(n)
}

/// The value of a row of digits with zeros in front.
proof fn lemma_zeros_add_nothing(count: nat, n: nat)
    ensures
        all_digits(zeros(count) + numeral(n)),
        digits_value(zeros(count) + numeral(n)) == n,
    decreases n,
{
    lemma_numeral_digits(n);
    let s = zeros(count) + numeral(n);
    assert forall|i: int| 0 <= i < s.len() implies is_digit(#[trigger] s[i]) by {
        if i >= count {
            assert(s[i] == numeral(n)[i - count]);
        }
    }
    if n < 10 {
        lemma_zeros_are_nothing(count);
        assert(s.drop_last() =~= zeros(count));
    } else {
        lemma_zeros_add_nothing(count, n / 10);
        assert(s.drop_last() =~= zeros(count) + numeral(n / 10));
        assert(s.last() == digit_char(n % 10));
    }
}

proof fn lemma_zeros_are_nothing(count: nat)
    ensures
        digits_value(zeros(count)) == 0,
    decreases count,
{
    if count > 0 {
        lemma_zeros_are_nothing((count - 1) as nat);
        assert(zeros(count).drop_last() =~= zeros((count - 1) as nat));
    }
}

/// A row of digits is the numeral of its value, with zeros in front. Gives how
/// many.
proof fn lemma_digits_are_a_numeral(s: Seq<char>) -> (count: nat)
    requires
        s.len() > 0,
        all_digits(s),
    ensures
        s == zeros(count) + numeral(digits_value(s)),
    decreases s.len(),
{
    let front = s.drop_last();
    let d = digit_value(s.last());
    assert(is_digit(s.last()));
    assert(digit_char(d) == s.last());
    if front.len() == 0 {
        reveal_with_fuel(digits_value, 2);
        assert(front =~= Seq::<char>::empty());
        assert(s =~= zeros(0) + numeral(digits_value(s)));
        0
    } else {
        assert forall|i: int| 0 <= i < front.len() implies is_digit(#[trigger] front[i]) by {
            assert(front[i] == s[i]);
        }
        let count = lemma_digits_are_a_numeral(front);
        let v = digits_value(front);
        assert(s =~= front.push(s.last()));
        assert(digits_value(s) == 10 * v + d);
        if v > 0 {
            assert((10 * v + d) / 10 == v);
            assert((10 * v + d) % 10 == d);
            assert(s =~= zeros(count) + numeral(digits_value(s)));
            count
        } else {
            assert(numeral(0) =~= seq!['0']);
            assert(front =~= zeros(count + 1));
            assert(s =~= zeros(count + 1) + numeral(digits_value(s)));
            count + 1
        }
    }
}

/// A text is read as a number exactly when it stands for that number and the
/// number is within the limit.
pub proof fn lemma_parsed_is_what_it_stands_for(s: Seq<char>, max: nat, n: nat)
    ensures
        parsed(s, max) == Some(n) <==> stands_for(s, n) && n <= max,
{
    if parsed(s, max) == Some(n) {
        let digits = unsigned_part(s);
        let count = lemma_digits_are_a_numeral(digits);
        if s[0] == '+' {
            assert(s =~= seq!['+'] + digits);
            assert(seq!['+'] + digits =~= seq!['+'] + zeros(count) + numeral(n));
        } else {
            assert(s == zeros(count) + numeral(n));
        }
        assert(stands_for(s, n));
    }
    if stands_for(s, n) {
        let count = choose|count: nat|
            s == #[trigger] zeros(count) + numeral(n) || s == seq!['+'] + zeros(count) + numeral(n);
        let digits = zeros(count) + numeral(n);
        lemma_zeros_add_nothing(count, n);
        lemma_numeral_digits(n);
        if s == digits {
            assert(is_digit(digits[0]));
            assert(unsigned_part(s) == digits);
        } else {
            assert(s[0] == '+');
            assert(unsigned_part(s) =~= digits);
        }
    }
}

/// `parse_unsigned` gives the number that the text stands for, where there is
/// one within the limit, and nothing otherwise.
pub proof fn lemma_parse_unsigned_result(s: &str, max: u64, r: Option<u64>, n: u64)
    requires
        call_ensures(parse_unsigned, (s, max), r),
    ensures
        r == Some(n) <==> stands_for(s@, n as nat) && n <= max,
        r is None ==> !(stands_for(s@, n as nat) && n <= max),
{
    lemma_parsed_is_what_it_stands_for(s@, max as nat, n as nat);
}

/// `decimal` gives a text that stands for its argument and for no other number.
pub proof fn lemma_decimal_result(n: u64, r: String, other: nat)
    requires
        call_ensures(decimal, (n,), r),
    ensures
        stands_for(r@, other) <==> other == n,
        r@.len() > 0,
        r@.len() > 1 ==> r@[0] != '0',
{
    lemma_numeral_digits(n as nat);
    let max = n as nat + other;
    lemma_parsed_is_what_it_stands_for(r@, max, other);
    lemma_numeral_parses(n as nat, max);
    if n > 0 {
        lemma_no_leading_zero(n as nat);
    }
}

proof fn lemma_no_leading_zero(n: nat)
    requires
        n > 0,
    ensures
        numeral(n)[0] != '0',
        numeral(n).len() > 0,
    decreases n,
{
    if n >= 10 {
        lemma_no_leading_zero(n / 10);
    }
}

} // verus!
