//! Whole numbers as text.

use vstd::prelude::*;
use vstd::string::StringExecFns;

verus! {

/// The character of a decimal digit.
pub open spec fn digit_char(d: int) -> char {
    if d == 0 {
        '0'
    } else if d == 1 {
        '1'
    } else if d == 2 {
        '2'
    } else if d == 3 {
        '3'
    } else if d == 4 {
        '4'
    } else if d == 5 {
        '5'
    } else if d == 6 {
        '6'
    } else if d == 7 {
        '7'
    } else if d == 8 {
        '8'
    } else {
        '9'
    }
}

/// The decimal digits of a number, most significant first, without leading
/// zeros; zero is "0".
pub open spec fn digits(n: nat) -> Seq<char>
    decreases n,
{
    if n < 10 {
        seq![digit_char(n as int)]
    } else {
        digits(n / 10).push(digit_char((n % 10) as int))
    }
}

/// Append one decimal digit to a text.
fn push_digit(s: &mut String, d: u64)
    requires
        d < 10,
    ensures
        final(s)@ == old(s)@.push(digit_char(d as int)),
{
    proof {
        reveal_strlit("0");
        reveal_strlit("1");
        reveal_strlit("2");
        reveal_strlit("3");
        reveal_strlit("4");
        reveal_strlit("5");
        reveal_strlit("6");
        reveal_strlit("7");
        reveal_strlit("8");
        reveal_strlit("9");
    }
    let ghost before = s@;
    if d == 0 {
        s.append("0");
    } else if d == 1 {
        s.append("1");
    } else if d == 2 {
        s.append("2");
    } else if d == 3 {
        s.append("3");
    } else if d == 4 {
        s.append("4");
    } else if d == 5 {
        s.append("5");
    } else if d == 6 {
        s.append("6");
    } else if d == 7 {
        s.append("7");
    } else if d == 8 {
        s.append("8");
    } else {
        s.append("9");
    }
    proof {
        assert(s@ =~= before.push(digit_char(d as int)));
    }
}

/// Append the decimal digits of a number to a text.
pub fn push_decimal(s: &mut String, n: u64)
    ensures
        final(s)@ == old(s)@ + digits(n as nat),
    decreases n,
{
    let ghost before = s@;
    if n >= 10 {
        push_decimal(s, n / 10);
    }
    push_digit(s, n % 10);
    proof {
        assert(s@ =~= before + digits(n as nat));
    }
}

/// The decimal digits of a number.
pub fn decimal(n: u64) -> (r: String)
    ensures
        r@ == digits(n as nat),
{
    let mut s = String::new();
    push_decimal(&mut s, n);
    proof {
        assert(Seq::<char>::empty() + digits(n as nat) =~= digits(n as nat));
    }
    s
}

/// The three digits of a number below a thousand, with leading zeros.
pub open spec fn group_of_three(m: nat) -> Seq<char> {
    seq![
        digit_char((m / 100) as int),
        digit_char((m / 10 % 10) as int),
        digit_char((m % 10) as int),
    ]
}

/// The decimal digits of a number in groups of three, counted from the
/// right, with a comma between the groups: 1234567 is "1,234,567".
pub open spec fn with_commas(n: nat) -> Seq<char>
    decreases n,
{
    if n < 1000 {
        digits(n)
    } else {
        with_commas(n / 1000) + seq![','] + group_of_three(n % 1000)
    }
}

/// Append the digits of a number in groups of three to a text.
fn push_with_commas(s: &mut String, n: u64)
    ensures
        final(s)@ == old(s)@ + with_commas(n as nat),
    decreases n,
{
    let ghost before = s@;
    if n < 1000 {
        push_decimal(s, n);
    } else {
        push_with_commas(s, n / 1000);
        s.append(",");
        let rest: u64 = n % 1000;
        push_digit(s, rest / 100);
        push_digit(s, rest / 10 % 10);
        push_digit(s, rest % 10);
        proof {
            reveal_strlit(",");
            assert(","@ =~= seq![',']);
            assert(s@ =~= before + with_commas(n as nat));
        }
    }
}

/// A number with a comma between its thousands.
pub fn format_number_with_commas(n: usize) -> (r: String)
    ensures
        r@ == with_commas(n as nat),
{
    let mut s = String::new();
    push_with_commas(&mut s, n as u64);
    proof {
        assert(Seq::<char>::empty() + with_commas(n as nat) =~= with_commas(n as nat));
    }
    s
}

/// The decimal text of a whole number: a minus sign before the digits of a
/// negative one.
pub open spec fn signed_digits(n: int) -> Seq<char> {
    if n < 0 {
        "-"@ + digits((-n) as nat)
    } else {
        digits(n as nat)
    }
}

/// Append the decimal text of a whole number to a text.
pub fn push_signed(s: &mut String, n: i64)
    ensures
        final(s)@ == old(s)@ + signed_digits(n as int),
{
    let ghost before = s@;
    if n < 0 {
        let magnitude: u64 = (-(n as i128)) as u64;
        s.append("-");
        push_decimal(s, magnitude);
        proof {
            assert(s@ =~= before + signed_digits(n as int));
        }
    } else {
        push_decimal(s, n as u64);
    }
}

/// The text for a remaining time in minutes: below an hour the minutes,
/// "45m left"; from an hour on the hours and the minutes, "2h 5m left".
pub open spec fn remaining_time_text(minutes: int) -> Seq<char> {
    if minutes < 60 {
        signed_digits(minutes) + "m left"@
    } else {
        digits((minutes / 60) as nat) + "h "@ + digits((minutes % 60) as nat) + "m left"@
    }
}

/// Format a remaining time, given in minutes.
pub fn format_remaining_time(minutes: i64) -> (r: String)
    ensures
        r@ == remaining_time_text(minutes as int),
{
    let mut s = String::new();
    if minutes < 60 {
        push_signed(&mut s, minutes);
        s.append("m left");
        proof {
            assert(s@ =~= remaining_time_text(minutes as int));
        }
    } else {
        let hours: u64 = (minutes / 60) as u64;
        let mins: u64 = (minutes % 60) as u64;
        push_decimal(&mut s, hours);
        s.append("h ");
        push_decimal(&mut s, mins);
        s.append("m left");
        proof {
            assert(s@ =~= remaining_time_text(minutes as int));
        }
    }
    s
}

} // verus!
