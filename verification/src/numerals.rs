//! Positional numerals: the decimal and upper-case hexadecimal text of integers.
use vstd::prelude::*;
use vstd::string::*;

verus! {

/// The numeral character for digit value `d` (`0`-`9`, then `A`-`F`).
pub open spec fn digit_char(d: nat) -> char {
    if d < 10 {
        (48 + d) as char
    } else {
        (55 + d) as char
    }
}

/// The digit value of numeral character `c` (the inverse of [`digit_char`]).
pub open spec fn char_digit(c: char) -> int {
    if c <= '9' {
        c as int - 48
    } else {
        c as int - 55
    }
}

/// The numeral of `n` in base `base`, most significant digit first, without leading zeros
/// (`0` is written as a single `0`).
pub open spec fn digits(n: nat, base: nat) -> Seq<char>
    decreases n,
{
    if base < 2 || n < base {
        seq![digit_char(n)]
    } else {
        proof {
            vstd::arithmetic::div_mod::lemma_div_decreases(n as int, base as int);
        }
        digits(n / base, base).push(digit_char(n % base))
    }
}

/// Whether `c` is an upper-case hexadecimal digit: `0`-`9` or `A`-`F`.
pub open spec fn is_upper_hex_char(c: char) -> bool {
    ('0' <= c && c <= '9') || ('A' <= c && c <= 'F')
}

/// The value that the numeral `s` denotes in base `base`.
pub open spec fn numeral_value(s: Seq<char>, base: nat) -> int
    decreases s.len(),
{
    if s.len() == 0 {
        0
    } else {
        numeral_value(s.drop_last(), base) * base + char_digit(s.last())
    }
}

/// The decimal text of a signed integer: a `-` before the digits of its magnitude when it is
/// negative.
pub open spec fn signed_decimal(n: int) -> Seq<char> {
    if n < 0 {
        seq!['-'].add(digits((-n) as nat, 10))
    } else {
        digits(n as nat, 10)
    }
}

/// The value that a signed decimal text denotes.
pub open spec fn signed_decimal_value(s: Seq<char>) -> int {
    if s.len() > 0 && s[0] == '-' {
        -numeral_value(s.drop_first(), 10)
    } else {
        numeral_value(s, 10)
    }
}

proof fn lemma_char_digit(d: nat)
    requires
        d < 16,
    ensures
        char_digit(digit_char(d)) == d,
{
    assert((48 + d) as char as int == 48 + d);
    assert((55 + d) as char as int == 55 + d);
}

/// A numeral denotes the number it was written for.
pub proof fn lemma_digits_value(n: nat, base: nat)
    requires
        2 <= base <= 16,
    ensures
        numeral_value(digits(n, base), base) == n,
        digits(n, base).len() >= 1,
        digits(n, base)[0] != '-',
    decreases n,
{
    if n < base {
        lemma_char_digit(n);
        let s = digits(n, base);
        assert(s.drop_last() =~= Seq::<char>::empty());
        assert(numeral_value(s.drop_last(), base) == 0);
        assert(s.last() == digit_char(n));
    } else {
        vstd::arithmetic::div_mod::lemma_div_decreases(n as int, base as int);
        lemma_digits_value(n / base, base);
        let s = digits(n, base);
        assert(s.drop_last() =~= digits(n / base, base));
        vstd::arithmetic::div_mod::lemma_fundamental_div_mod(n as int, base as int);
        vstd::arithmetic::div_mod::lemma_mod_bound(n as int, base as int);
        lemma_char_digit(n % base);
        vstd::arithmetic::mul::lemma_mul_is_commutative(base as int, (n / base) as int);
        assert(s.last() == digit_char(n % base));
        assert(numeral_value(s, base) == numeral_value(s.drop_last(), base) * base + char_digit(
            s.last(),
        ));
    }
}

/// Every character of a numeral in base `base` is the numeral character of a digit below
/// `base`; in base 16 (or less) that is `0`-`9` or `A`-`F`.
pub proof fn lemma_digits_chars(n: nat, base: nat)
    requires
        2 <= base <= 16,
    ensures
        forall|j: int|
            0 <= j < digits(n, base).len() ==> is_upper_hex_char(#[trigger] digits(n, base)[j]),
    decreases n,
{
    if n >= base {
        vstd::arithmetic::div_mod::lemma_div_decreases(n as int, base as int);
        lemma_digits_chars(n / base, base);
        vstd::arithmetic::div_mod::lemma_mod_bound(n as int, base as int);
        lemma_digit_char_hex(n % base);
        let s = digits(n, base);
        assert forall|j: int| 0 <= j < s.len() implies is_upper_hex_char(#[trigger] s[j]) by {
            if j < s.len() - 1 {
                assert(s[j] == digits(n / base, base)[j]);
            }
        }
    } else {
        lemma_digit_char_hex(n);
    }
}

proof fn lemma_digit_char_hex(d: nat)
    requires
        d < 16,
    ensures
        is_upper_hex_char(digit_char(d)),
        d != 0 ==> digit_char(d) != '0',
{
    assert((48 + d) as char as int == 48 + d);
    assert((55 + d) as char as int == 55 + d);
}

/// The numeral of a positive number has no leading zero.
pub proof fn lemma_digits_leading(n: nat, base: nat)
    requires
        2 <= base <= 16,
        n > 0,
    ensures
        digits(n, base)[0] != '0',
    decreases n,
{
    if n >= base {
        vstd::arithmetic::div_mod::lemma_div_decreases(n as int, base as int);
        vstd::arithmetic::div_mod::lemma_div_non_zero(n as int, base as int);
        lemma_digits_leading(n / base, base);
        lemma_digits_value(n / base, base);
        assert(digits(n, base)[0] == digits(n / base, base)[0]);
    } else {
        lemma_digit_char_hex(n);
    }
}

/// Whether `c` is a decimal digit `0`-`9`.
pub open spec fn is_decimal_char(c: char) -> bool {
    '0' <= c && c <= '9'
}

proof fn lemma_decimal_digit_char(d: nat)
    requires
        d < 10,
    ensures
        is_decimal_char(digit_char(d)),
{
    assert((48 + d) as char as int == 48 + d);
}

/// Every character of a decimal numeral is a decimal digit.
pub proof fn lemma_decimal_digits_chars(n: nat)
    ensures
        forall|j: int| 0 <= j < digits(n, 10).len() ==> is_decimal_char(#[trigger] digits(n, 10)[j]),
    decreases n,
{
    if n >= 10 {
        lemma_decimal_digits_chars(n / 10);
        lemma_decimal_digit_char(n % 10);
        let s = digits(n, 10);
        assert forall|j: int| 0 <= j < s.len() implies is_decimal_char(#[trigger] s[j]) by {
            if j < s.len() - 1 {
                assert(s[j] == digits(n / 10, 10)[j]);
            }
        }
    } else {
        lemma_decimal_digit_char(n);
    }
}

/// The shape of the decimal text of a signed integer: a leading `-` exactly when it is
/// negative, then decimal digits only, with no leading zero unless the integer is zero.
pub proof fn lemma_signed_decimal_shape(n: int)
    ensures
        signed_decimal(n).len() >= 1,
        (signed_decimal(n)[0] == '-') <==> n < 0,
        forall|j: int|
            (if n < 0 { 1int } else { 0int }) <= j < signed_decimal(n).len() ==> is_decimal_char(
                #[trigger] signed_decimal(n)[j],
            ),
        n != 0 ==> signed_decimal(n)[if n < 0 { 1int } else { 0int }] != '0',
        n == 0 ==> signed_decimal(n) == seq!['0'],
{
    let m: nat = if n < 0 { (-n) as nat } else { n as nat };
    lemma_decimal_digits_chars(m);
    lemma_digits_value(m, 10);
    if m > 0 {
        lemma_digits_leading(m, 10);
    }
    let d = digits(m, 10);
    if n < 0 {
        let s = signed_decimal(n);
        assert(s == seq!['-'].add(d));
        assert forall|j: int| 1 <= j < s.len() implies is_decimal_char(#[trigger] s[j]) by {
            assert(s[j] == d[j - 1]);
        }
        assert(s[1] == d[0]);
    } else {
        assert(is_decimal_char(d[0]));
        if n == 0 {
            assert(d =~= seq![digit_char(0)]);
            assert((48 + 0) as char as int == 48);
            assert(digit_char(0) == '0');
        }
    }
}

/// The decimal text of a signed integer reads back as that integer.
pub proof fn lemma_signed_decimal_value(n: int)
    ensures
        signed_decimal_value(signed_decimal(n)) == n,
{
    if n < 0 {
        lemma_digits_value((-n) as nat, 10);
        assert(signed_decimal(n).drop_first() =~= digits((-n) as nat, 10));
    } else {
        lemma_digits_value(n as nat, 10);
    }
}

/// The one-character text of digit `d`.
fn digit_str(d: u64) -> (r: &'static str)
    requires
        d < 16,
    ensures
        r@ == seq![digit_char(d as nat)],
{
    let all = "0123456789ABCDEF";
    proof {
        reveal_strlit("0123456789ABCDEF");
        assert(all@[d as int] == digit_char(d as nat));
    }
    all.substring_ascii(d as usize, d as usize + 1)
}

/// Appends to `s` the numeral of `n` in base `base`.
pub fn push_digits(s: &mut String, n: u64, base: u64)
    requires
        2 <= base <= 16,
    ensures
        final(s)@ == old(s)@ + digits(n as nat, base as nat),
    decreases n,
{
    let ghost before = s@;
    if n >= base {
        proof {
            vstd::arithmetic::div_mod::lemma_div_decreases(n as int, base as int);
        }
        push_digits(s, n / base, base);
    }
    let d = digit_str(n % base);
    s.append(d);
    proof {
        if n >= base {
            assert(digits(n as nat, base as nat) == digits((n / base) as nat, base as nat).push(
                digit_char((n % base) as nat),
            ));
            assert(s@ =~= before + digits(n as nat, base as nat));
        } else {
            vstd::arithmetic::div_mod::lemma_small_mod(n as nat, base as nat);
            assert(s@ =~= before + digits(n as nat, base as nat));
        }
    }
}

/// The decimal text of `n`, with a leading `-` when it is negative.
pub fn signed_decimal_string(n: i64) -> (r: String)
    ensures
        r@ == signed_decimal(n as int),
{
    let mut s = String::new();
    if n < 0 {
        let minus = "-";
        proof {
            reveal_strlit("-");
        }
        s.append(minus);
        let magnitude: u64 = (0i128 - (n as i128)) as u64;
        push_digits(&mut s, magnitude, 10);
    } else {
        push_digits(&mut s, n as u64, 10);
    }
    s
}

} // verus!
