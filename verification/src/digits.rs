//! Decimal rendering of the integer metric values.
//!
//! The wire format writes a metric's numeric value in plain base-10 ASCII.
//! [`spec_u64_chars`] and [`spec_i64_chars`] define that rendering at the
//! specification level, and [`append_u64`] / [`append_i64`] produce it.

use vstd::prelude::*;

verus! {

use vstd::utf8::is_ascii_chars;

/// The ASCII character for a single decimal digit.
pub open spec fn spec_digit_char(d: nat) -> char {
    if d == 0 {
        '0'
    } else if d == 1 {
        '1'
    } else if d == 2 {
        '2'
    } else if d == 3 {
        '3'
    } else if d == 4 {
        '4'
    } else if d == 5 {
        '5'
    } else if d == 6 {
        '6'
    } else if d == 7 {
        '7'
    } else if d == 8 {
        '8'
    } else {
        '9'
    }
}

/// Base-10 rendering of an unsigned value, most significant digit first,
/// with no leading zeros (a lone `'0'` for zero).
pub open spec fn spec_u64_chars(n: nat) -> Seq<char>
    decreases n,
{
    if n < 10 {
        seq![spec_digit_char(n)]
    } else {
        spec_u64_chars(n / 10) + seq![spec_digit_char(n % 10)]
    }
}

/// Base-10 rendering of a signed value: a leading `'-'` for negatives,
/// then the digits of the magnitude.
pub open spec fn spec_i64_chars(i: int) -> Seq<char> {
    if i < 0 {
        seq!['-'] + spec_u64_chars((-i) as nat)
    } else {
        spec_u64_chars(i as nat)
    }
}

/// The numeric value of a decimal digit character (zero for anything
/// that is not one).
pub open spec fn spec_digit_val(c: char) -> nat {
    if c == '1' {
        1
    } else if c == '2' {
        2
    } else if c == '3' {
        3
    } else if c == '4' {
        4
    } else if c == '5' {
        5
    } else if c == '6' {
        6
    } else if c == '7' {
        7
    } else if c == '8' {
        8
    } else if c == '9' {
        9
    } else {
        0
    }
}

/// The number a sequence of decimal digit characters denotes, most
/// significant digit first.
pub open spec fn spec_digits_value(s: Seq<char>) -> nat
    decreases s.len(),
{
    if s.len() == 0 {
        0
    } else {
        spec_digits_value(s.drop_last()) * 10 + spec_digit_val(s.last())
    }
}

/// Round trip: the rendered digits of a value denote exactly that value —
/// most significant digit first, no more and no less.
pub proof fn lemma_u64_chars_round_trip(n: nat)
    ensures
        spec_digits_value(spec_u64_chars(n)) == n,
    decreases n,
{
    if n < 10 {
        let s = seq![spec_digit_char(n)];
        assert(s.drop_last() =~= Seq::<char>::empty());
        assert(spec_digits_value(s.drop_last()) == 0);
        assert(spec_digit_val(spec_digit_char(n)) == n);
    } else {
        lemma_u64_chars_round_trip(n / 10);
        let s = spec_u64_chars(n);
        assert(s == spec_u64_chars(n / 10) + seq![spec_digit_char(n % 10)]);
        assert(s.drop_last() =~= spec_u64_chars(n / 10));
        assert(s.last() == spec_digit_char(n % 10));
        assert(spec_digit_val(spec_digit_char(n % 10)) == n % 10);
        assert(spec_digits_value(s) == (n / 10) * 10 + n % 10);
    }
}

/// Round trip for signed values: a nonnegative value renders to digits
/// denoting itself; a negative one to a minus sign and the digits of its
/// magnitude.
pub proof fn lemma_i64_chars_round_trip(i: int)
    ensures
        i >= 0 ==> spec_digits_value(spec_i64_chars(i)) == i,
        i < 0 ==> spec_i64_chars(i)[0] == '-' && spec_digits_value(
            spec_i64_chars(i).drop_first(),
        ) == -i,
{
    if i >= 0 {
        lemma_u64_chars_round_trip(i as nat);
    } else {
        lemma_u64_chars_round_trip((-i) as nat);
        assert(spec_i64_chars(i).drop_first() =~= spec_u64_chars((-i) as nat));
    }
}

/// Ten to the power `k`.
pub open spec fn pow10(k: nat) -> nat
    decreases k,
{
    if k == 0 {
        1
    } else {
        10 * pow10((k - 1) as nat)
    }
}

/// A value below `pow10(k)` renders to at most `k` digits.
pub proof fn lemma_u64_chars_len_le(n: nat, k: nat)
    requires
        k >= 1,
        n < pow10(k),
    ensures
        spec_u64_chars(n).len() <= k,
    decreases k,
{
    if n < 10 {
    } else {
        assert(pow10(k) == 10 * pow10((k - 1) as nat));
        assert(k >= 2) by {
            if k == 1 {
                assert(pow10(1nat) == 10);
            }
        }
        assert(n / 10 < pow10((k - 1) as nat)) by (nonlinear_arith)
            requires
                n < 10 * pow10((k - 1) as nat),
                n >= 10,
        ;
        lemma_u64_chars_len_le(n / 10, (k - 1) as nat);
    }
}

/// A value below ten billion renders to at most ten digits: the range the
/// size estimate's digit budget covers.
pub proof fn lemma_u64_chars_ten_digits(n: nat)
    requires
        n < 10000000000,
    ensures
        spec_u64_chars(n).len() <= 10,
{
    reveal_with_fuel(pow10, 11);
    assert(pow10(10) == 10000000000);
    lemma_u64_chars_len_le(n, 10);
}

/// Every character of a rendered unsigned value is an ASCII digit.
pub proof fn lemma_u64_chars_ascii(n: nat)
    ensures
        is_ascii_chars(spec_u64_chars(n)),
    decreases n,
{
    if n < 10 {
        assert(is_ascii_chars(seq![spec_digit_char(n)]));
    } else {
        lemma_u64_chars_ascii(n / 10);
        assert(is_ascii_chars(spec_u64_chars(n)));
    }
}

/// A rendered signed value is nonempty ASCII text.
pub proof fn lemma_i64_chars_ascii(i: int)
    ensures
        is_ascii_chars(spec_i64_chars(i)),
        spec_i64_chars(i).len() >= 1,
{
    if i < 0 {
        lemma_u64_chars_ascii((-i) as nat);
        assert(is_ascii_chars(spec_i64_chars(i)));
    } else {
        lemma_u64_chars_ascii(i as nat);
    }
}

/// The one-character string for a single decimal digit.
fn digit_to_str(d: u64) -> (r: &'static str)
    requires
        d < 10,
    ensures
        r@ == seq![spec_digit_char(d as nat)],
{
    if d == 0 {
        proof {
            reveal_strlit("0");
        }
        assert("0"@ =~= seq![spec_digit_char(0nat)]);
        "0"
    } else if d == 1 {
        proof {
            reveal_strlit("1");
        }
        assert("1"@ =~= seq![spec_digit_char(1nat)]);
        "1"
    } else if d == 2 {
        proof {
            reveal_strlit("2");
        }
        assert("2"@ =~= seq![spec_digit_char(2nat)]);
        "2"
    } else if d == 3 {
        proof {
            reveal_strlit("3");
        }
        assert("3"@ =~= seq![spec_digit_char(3nat)]);
        "3"
    } else if d == 4 {
        proof {
            reveal_strlit("4");
        }
        assert("4"@ =~= seq![spec_digit_char(4nat)]);
        "4"
    } else if d == 5 {
        proof {
            reveal_strlit("5");
        }
        assert("5"@ =~= seq![spec_digit_char(5nat)]);
        "5"
    } else if d == 6 {
        proof {
            reveal_strlit("6");
        }
        assert("6"@ =~= seq![spec_digit_char(6nat)]);
        "6"
    } else if d == 7 {
        proof {
            reveal_strlit("7");
        }
        assert("7"@ =~= seq![spec_digit_char(7nat)]);
        "7"
    } else if d == 8 {
        proof {
            reveal_strlit("8");
        }
        assert("8"@ =~= seq![spec_digit_char(8nat)]);
        "8"
    } else {
        proof {
            reveal_strlit("9");
        }
        assert("9"@ =~= seq![spec_digit_char(9nat)]);
        "9"
    }
}

/// Appends the base-10 rendering of `n` to `out`.
pub fn append_u64(out: &mut String, n: u64)
    ensures
        final(out)@ == old(out)@ + spec_u64_chars(n as nat),
    decreases n,
{
    if n >= 10 {
        append_u64(out, n / 10);
    }
    let d = digit_to_str(n % 10);
    out.append(d);
    proof {
        assert(out@ =~= old(out)@ + spec_u64_chars(n as nat));
    }
}

/// Appends the base-10 rendering of `i` to `out`, with a `'-'` sign for
/// negative values.
pub fn append_i64(out: &mut String, i: i64)
    ensures
        final(out)@ == old(out)@ + spec_i64_chars(i as int),
{
    if i < 0 {
        let m: u64 = ((-(i as i128)) as u64);
        proof {
            reveal_strlit("-");
            assert("-"@ =~= seq!['-']);
            assert(m as nat == (-(i as int)) as nat);
        }
        out.append("-");
        append_u64(out, m);
        proof {
            assert(out@ =~= old(out)@ + spec_i64_chars(i as int));
        }
    } else {
        append_u64(out, i as u64);
    }
}

} // verus!
