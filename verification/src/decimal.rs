use vstd::prelude::*;

verus! {

/// The character for one decimal digit.
pub open spec fn digit_char(d: int) -> char {
    if d == 0 {
        '0'
    } else if d == 1 {
        '1'
    } else if d == 2 {
        '2'
    } else if d == 3 {
        '3'
    } else if d == 4 {
        '4'
    } else if d == 5 {
        '5'
    } else if d == 6 {
        '6'
    } else if d == 7 {
        '7'
    } else if d == 8 {
        '8'
    } else {
        '9'
    }
}

/// The decimal digits of a number, most significant first, with no leading
/// zeroes (zero itself is the single digit 0).
pub open spec fn dec_digits(n: nat) -> Seq<char>
    decreases n,
{
    if n < 10 {
        seq![digit_char(n as int)]
    } else {
        dec_digits(n / 10).push(digit_char((n % 10) as int))
    }
}

/// An amount in minor units, written as a decimal with two fraction digits:
/// 12345 cents reads 123.45.
pub open spec fn amount_digits(cents: nat) -> Seq<char> {
    dec_digits(cents / 100).push('.').push(digit_char((cents % 100 / 10) as int)).push(
        digit_char((cents % 10) as int),
    )
}

/// One decimal digit as a string slice.
pub fn digit_str(d: u64) -> (s: &'static str)
    requires
        d < 10,
    ensures
        s@ == seq![digit_char(d as int)],
{
    proof {
        reveal_strlit("0");
        reveal_strlit("1");
        reveal_strlit("2");
        reveal_strlit("3");
        reveal_strlit("4");
        reveal_strlit("5");
        reveal_strlit("6");
        reveal_strlit("7");
        reveal_strlit("8");
        reveal_strlit("9");
        assert("0"@ =~= seq![digit_char(0)]);
        assert("1"@ =~= seq![digit_char(1)]);
        assert("2"@ =~= seq![digit_char(2)]);
        assert("3"@ =~= seq![digit_char(3)]);
        assert("4"@ =~= seq![digit_char(4)]);
        assert("5"@ =~= seq![digit_char(5)]);
        assert("6"@ =~= seq![digit_char(6)]);
        assert("7"@ =~= seq![digit_char(7)]);
        assert("8"@ =~= seq![digit_char(8)]);
        assert("9"@ =~= seq![digit_char(9)]);
    }
    match d {
        0 => "0",
        1 => "1",
        2 => "2",
        3 => "3",
        4 => "4",
        5 => "5",
        6 => "6",
        7 => "7",
        8 => "8",
        _ => "9",
    }
}

/// A number written in decimal, most significant digit first.
pub fn u64_to_dec_string(n: u64) -> (s: String)
    ensures
        s@ == dec_digits(n as nat),
    decreases n,
{
    if n < 10 {
        digit_str(n).to_owned()
    } else {
        let mut s = u64_to_dec_string(n / 10);
        let d = digit_str(n % 10);
        s.append(d);
        proof {
            assert(dec_digits((n / 10) as nat) + seq![digit_char((n % 10) as int)]
                =~= dec_digits((n / 10) as nat).push(digit_char((n % 10) as int)));
        }
        s
    }
}

/// An amount in minor units written as a decimal with two fraction digits.
pub fn amount_string(cents: u64) -> (s: String)
    ensures
        s@ == amount_digits(cents as nat),
{
    let mut s = u64_to_dec_string(cents / 100);
    proof {
        reveal_strlit(".");
    }
    s.append(".");
    let tens = digit_str(cents % 100 / 10);
    s.append(tens);
    let ones = digit_str(cents % 10);
    s.append(ones);
    proof {
        assert("."@ =~= seq!['.']);
        assert(s@ =~= amount_digits(cents as nat));
    }
    s
}

} // verus!
