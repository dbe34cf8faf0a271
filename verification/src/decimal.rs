//! Decimal numerals, the form in which descriptor numbers are handed to a
//! void on its command line.

use vstd::prelude::*;
use vstd::string::*;

verus! {

/// The character of one decimal digit.
pub open spec fn digit(d: int) -> char {
    if d == 0 {
        '0'
    } else if d == 1 {
        '1'
    } else if d == 2 {
        '2'
    } else if d == 3 {
        '3'
    } else if d == 4 {
        '4'
    } else if d == 5 {
        '5'
    } else if d == 6 {
        '6'
    } else if d == 7 {
        '7'
    } else if d == 8 {
        '8'
    } else {
        '9'
    }
}

/// The decimal numeral of a natural number, without leading zeros.
pub open spec fn decimal_nat(n: nat) -> Seq<char>
    decreases n,
{
    if n < 10 {
        seq![digit(n as int)]
    } else {
        decimal_nat(n / 10).push(digit((n % 10) as int))
    }
}

/// The decimal numeral of an integer, with a minus sign where it is negative.
pub open spec fn decimal(n: int) -> Seq<char> {
    if n < 0 {
        seq!['-'] + decimal_nat((-n) as nat)
    } else {
        decimal_nat(n as nat)
    }
}

fn digit_str(d: u32) -> (s: &'static str)
    requires
        d < 10,
    ensures
        s@ == seq![digit(d as int)],
{
    proof {
        reveal_strlit("0");
        reveal_strlit("1");
        reveal_strlit("2");
        reveal_strlit("3");
        reveal_strlit("4");
        reveal_strlit("5");
        reveal_strlit("6");
        reveal_strlit("7");
        reveal_strlit("8");
        reveal_strlit("9");
    }
    let s = if d == 0 {
        "0"
    } else if d == 1 {
        "1"
    } else if d == 2 {
        "2"
    } else if d == 3 {
        "3"
    } else if d == 4 {
        "4"
    } else if d == 5 {
        "5"
    } else if d == 6 {
        "6"
    } else if d == 7 {
        "7"
    } else if d == 8 {
        "8"
    } else {
        "9"
    };
    assert(s@ =~= seq![digit(d as int)]);
    s
}

/// Writes a natural number in decimal.
pub fn unsigned_to_string(n: u32) -> (s: String)
    ensures
        s@ == decimal_nat(n as nat),
    decreases n,
{
    if n < 10 {
        String::from_str(digit_str(n))
    } else {
        let front = unsigned_to_string(n / 10);
        let s = front.concat(digit_str(n % 10));
        assert(s@ =~= decimal_nat((n / 10) as nat).push(digit((n % 10) as int)));
        s
    }
}

/// Writes a descriptor number, or any other 32-bit integer, in decimal.
pub fn fd_to_string(fd: i32) -> (s: String)
    ensures
        s@ == decimal(fd as int),
{
    if fd < 0 {
        let magnitude: u32 = (-(fd as i64)) as u32;
        let digits = unsigned_to_string(magnitude);
        proof {
            reveal_strlit("-");
        }
        let s = String::from_str("-").concat(digits.as_str());
        assert(s@ =~= seq!['-'] + decimal_nat((-(fd as int)) as nat));
        s
    } else {
        unsigned_to_string(fd as u32)
    }
}

} // verus!
