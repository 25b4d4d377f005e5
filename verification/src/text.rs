//! Decimal numbers as text.

use vstd::prelude::*;
use vstd::string::*;

verus! {

/// The character of a decimal digit.
pub open spec fn digit_char(d: nat) -> char
    recommends
        d < 10,
{
    (48 + d) as char
}

/// The decimal notation of `n`, without leading zeros.
pub open spec fn decimal(n: nat) -> Seq<char>
    decreases n,
{
    if n < 10 {
        seq![digit_char(n)]
    } else {
        decimal(n / 10).push(digit_char(n % 10))
    }
}

/// The decimal notation of `n`, padded with a zero to at least two digits.
pub open spec fn two_digits(n: nat) -> Seq<char> {
    if n < 10 {
        seq!['0'].add(decimal(n))
    } else {
        decimal(n)
    }
}

/// A one-character string holding the digit `d`.
fn digit_str(d: u64) -> (r: &'static str)
    requires
        d < 10,
    ensures
        r@ == seq![digit_char(d as nat)],
{
    proof {
        reveal_strlit("0");
        reveal_strlit("1");
        reveal_strlit("2");
        reveal_strlit("3");
        reveal_strlit("4");
        reveal_strlit("5");
        reveal_strlit("6");
        reveal_strlit("7");
        reveal_strlit("8");
        reveal_strlit("9");
    }
    match d {
        0 => "0",
        1 => "1",
        2 => "2",
        3 => "3",
        4 => "4",
        5 => "5",
        6 => "6",
        7 => "7",
        8 => "8",
        _ => "9",
    }
}

/// Appends the decimal notation of `n` to `s`.
pub fn push_decimal(s: &mut String, n: u64)
    ensures
        final(s)@ == old(s)@ + decimal(n as nat),
    decreases n,
{
    if n >= 10 {
        push_decimal(s, n / 10);
    }
    s.append(digit_str(n % 10));
    assert(s@ == old(s)@ + decimal(n as nat)) by {
        if n >= 10 {
            assert(decimal(n as nat) == decimal((n / 10) as nat).push(digit_char((n % 10) as nat)));
        }
    }
}

/// Appends `n` in decimal, padded with a zero to at least two digits.
pub fn push_two_digits(s: &mut String, n: u64)
    ensures
        final(s)@ == old(s)@ + two_digits(n as nat),
{
    proof {
        reveal_strlit("0");
    }
    if n < 10 {
        s.append("0");
    }
    push_decimal(s, n);
}

/// A decimal digit character.
pub open spec fn is_digit(c: char) -> bool {
    48 <= (c as int) && (c as int) <= 57
}

/// The number that a string of decimal digits denotes, read in base 10.
pub open spec fn digits_value(s: Seq<char>) -> int
    decreases s.len(),
{
    if s.len() == 0 {
        0
    } else {
        digits_value(s.drop_last()) * 10 + ((s.last() as int) - 48)
    }
}

/// `decimal(n)` is the positional notation of `n`: a non-empty string of
/// decimal digits, without a leading zero unless it is `0` itself, that
/// reads back in base 10 as `n`.
pub proof fn law_decimal_reads_back(n: nat)
    ensures
        decimal(n).len() > 0,
        forall|i: int| 0 <= i < decimal(n).len() ==> is_digit(#[trigger] decimal(n)[i]),
        digits_value(decimal(n)) == n,
        decimal(n).len() > 1 ==> decimal(n)[0] != '0',
    decreases n,
{
    if n < 10 {
        assert(decimal(n) =~= seq![digit_char(n)]);
        assert(decimal(n).drop_last() =~= Seq::<char>::empty());
        assert(digits_value(Seq::<char>::empty()) == 0);
        assert((digit_char(n) as int) == 48 + n);
    } else {
        let q = n / 10;
        let d = n % 10;
        law_decimal_reads_back(q);
        let s = decimal(n);
        assert(s == decimal(q).push(digit_char(d)));
        assert(s.drop_last() =~= decimal(q));
        assert((digit_char(d) as int) == 48 + d);
        assert(n == q * 10 + d) by (nonlinear_arith)
            requires
                q == n / 10,
                d == n % 10,
        ;
        assert forall|i: int| 0 <= i < s.len() implies is_digit(#[trigger] s[i]) by {
            if i < decimal(q).len() {
                assert(s[i] == decimal(q)[i]);
            }
        }
        assert(s[0] == decimal(q)[0]);
        if q < 10 {
            assert(decimal(q) =~= seq![digit_char(q)]);
            assert((digit_char(q) as int) == 48 + q);
        } else {
            law_decimal_reads_back((q / 10) as nat);
            assert(decimal(q) == decimal((q / 10) as nat).push(digit_char((q % 10) as nat)));
        }
        assert(digits_value(s) == digits_value(decimal(q)) * 10 + ((digit_char(d) as int) - 48));
    }
}

/// `two_digits(n)` is `n` in decimal, at least two digits long: digits that
/// read back as `n`, zero-padded when `n` is below ten.
pub proof fn law_two_digits_reads_back(n: nat)
    ensures
        two_digits(n).len() >= 2,
        forall|i: int| 0 <= i < two_digits(n).len() ==> is_digit(#[trigger] two_digits(n)[i]),
        digits_value(two_digits(n)) == n,
        n < 100 ==> two_digits(n).len() == 2,
{
    law_decimal_reads_back(n);
    if n < 10 {
        let s = two_digits(n);
        assert(s =~= seq!['0', digit_char(n)]);
        assert(s.drop_last() =~= seq!['0']);
        assert(seq!['0'].drop_last() =~= Seq::<char>::empty());
        assert(digits_value(Seq::<char>::empty()) == 0);
        assert(('0' as int) == 48);
        assert(digits_value(seq!['0']) == 0);
        assert((digit_char(n) as int) == 48 + n);
        assert(digits_value(s) == digits_value(seq!['0']) * 10 + ((digit_char(n) as int) - 48));
    } else {
        law_decimal_reads_back(n / 10);
        if n < 100 {
            assert(n / 10 < 10);
            assert(decimal(n / 10).len() == 1);
        } else {
            assert(n / 10 >= 10);
            law_decimal_reads_back(n / 100);
            assert(decimal((n / 10) as nat).len() > 1) by {
                assert(decimal((n / 10) as nat) == decimal(((n / 10) / 10) as nat).push(digit_char(((n / 10) % 10) as nat)));
            }
        }
    }
}

} // verus!
