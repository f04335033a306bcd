//! The classic fizz-buzz formatting of a counter, with a verified
//! decimal rendering of the numbers that are neither.

use vstd::prelude::*;

verus! {

/// The character for a single decimal digit.
pub open spec fn digit_char(d: nat) -> char {
    if d == 0 {
        '0'
    } else if d == 1 {
        '1'
    } else if d == 2 {
        '2'
    } else if d == 3 {
        '3'
    } else if d == 4 {
        '4'
    } else if d == 5 {
        '5'
    } else if d == 6 {
        '6'
    } else if d == 7 {
        '7'
    } else if d == 8 {
        '8'
    } else {
        '9'
    }
}

/// The decimal digits of `n`, most significant first.
pub open spec fn spec_decimal(n: nat) -> Seq<char>
    decreases n,
{
    if n < 10 {
        seq![digit_char(n)]
    } else {
        spec_decimal(n / 10).push(digit_char(n % 10))
    }
}

/// What `fizz_buzz` renders: the word for the divisors of the counter,
/// or its decimal digits.
pub open spec fn spec_fizz_buzz(i: nat) -> Seq<char> {
    if i % 3 == 0 && i % 5 == 0 {
        "FizzBuzz"@
    } else if i % 3 == 0 {
        "Fizz"@
    } else if i % 5 == 0 {
        "Buzz"@
    } else {
        spec_decimal(i)
    }
}

/// What `fast_fizz_buzz` renders: it tests the divisor three before
/// the divisor fifteen, so a multiple of fifteen renders as the word
/// for three alone.
pub open spec fn spec_fast_fizz_buzz(i: nat) -> Seq<char> {
    if i % 3 == 0 {
        "Fizz"@
    } else if i % 5 == 0 {
        "Buzz"@
    } else {
        spec_decimal(i)
    }
}

/// Appends the character of one decimal digit.
fn push_digit(s: &mut String, d: u32)
    requires
        d < 10,
    ensures
        final(s)@ == old(s)@.push(digit_char(d as nat)),
{
    let piece: &str = if d == 0 {
        "0"
    } else if d == 1 {
        "1"
    } else if d == 2 {
        "2"
    } else if d == 3 {
        "3"
    } else if d == 4 {
        "4"
    } else if d == 5 {
        "5"
    } else if d == 6 {
        "6"
    } else if d == 7 {
        "7"
    } else if d == 8 {
        "8"
    } else {
        "9"
    };
    proof {
        reveal_strlit("0");
        reveal_strlit("1");
        reveal_strlit("2");
        reveal_strlit("3");
        reveal_strlit("4");
        reveal_strlit("5");
        reveal_strlit("6");
        reveal_strlit("7");
        reveal_strlit("8");
        reveal_strlit("9");
    }
    s.append(piece);
    proof {
        assert(final(s)@ =~= old(s)@.push(digit_char(d as nat)));
    }
}

/// Appends the decimal digits of `n`, most significant first.
fn append_decimal(n: u32, s: &mut String)
    ensures
        final(s)@ == old(s)@ + spec_decimal(n as nat),
    decreases n,
{
    if n < 10 {
        push_digit(s, n);
        proof {
            assert(old(s)@.push(digit_char(n as nat)) =~= old(s)@ + spec_decimal(n as nat));
        }
    } else {
        append_decimal(n / 10, s);
        push_digit(s, n % 10);
        proof {
            assert((old(s)@ + spec_decimal(n as nat / 10)).push(digit_char((n % 10) as nat)) =~= old(
                s,
            )@ + spec_decimal(n as nat));
        }
    }
}

/// Renders `n` in decimal, most significant digit first.
pub fn u32_decimal(n: u32) -> (r: String)
    ensures
        r@ == spec_decimal(n as nat),
{
    let mut s = String::new();
    append_decimal(n, &mut s);
    proof {
        assert(Seq::<char>::empty() + spec_decimal(n as nat) =~= spec_decimal(n as nat));
    }
    s
}

/// Very naive implementation of FizzBuzz
pub fn fizz_buzz(i: u32) -> (r: String)
    ensures
        r@ == spec_fizz_buzz(i as nat),
{
    if i % 3 == 0 {
        if i % 5 == 0 {
            "FizzBuzz".to_owned()
        } else {
            "Fizz".to_owned()
        }
    } else if i % 5 == 0 {
        "Buzz".to_owned()
    } else {
        u32_decimal(i)
    }
}

/// The variant that tests the divisor three first, so that the word
/// for fifteen is never reached.
pub fn fast_fizz_buzz(i: u32) -> (r: String)
    ensures
        r@ == spec_fast_fizz_buzz(i as nat),
{
    if i % 3 == 0 {
        "Fizz".to_owned()
    } else if i % 5 == 0 {
        "Buzz".to_owned()
    } else if i % 15 == 0 {
        proof {
            assert(i as int % 3 == 0) by (nonlinear_arith)
                requires
                    i as int % 15 == 0,
            ;
        }
        "FizzBuzz".to_owned()
    } else {
        u32_decimal(i)
    }
}

} // verus!

