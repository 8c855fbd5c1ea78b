//! Numbers as text: decimal integers and fixed-point thousandths.

use vstd::prelude::*;
use vstd::string::StringExecFns;
use vstd::std_specs::iter::IteratorSpec;

verus! {

/// The decimal digit of value `d`.
pub open spec fn digit_char(d: int) -> char {
    seq!['0', '1', '2', '3', '4', '5', '6', '7', '8', '9'][d]
}

/// `n` in decimal, without leading zeros.
pub open spec fn decimal_nat(n: nat) -> Seq<char>
    decreases n,
{
    if n < 10 {
        seq![digit_char(n as int)]
    } else {
        decimal_nat(n / 10).push(digit_char(n as int % 10))
    }
}

/// `n` in decimal, with a minus sign if it is negative.
pub open spec fn decimal(n: int) -> Seq<char> {
    if n < 0 {
        seq!['-'] + decimal_nat((-n) as nat)
    } else {
        decimal_nat(n as nat)
    }
}

/// `value` thousandths as a decimal fraction with three places: 400 is
/// `0.400`, 12345 is `12.345`.
pub open spec fn thousandths(value: nat) -> Seq<char> {
    decimal_nat(value / 1000) + seq![
        '.',
        digit_char(value as int / 100 % 10),
        digit_char(value as int / 10 % 10),
        digit_char(value as int % 10),
    ]
}

fn digit_text(d: u64) -> (text: &'static str)
    requires
        d < 10,
    ensures
        text@ == seq![digit_char(d as int)],
{
    proof {
        reveal_strlit("0");
        reveal_strlit("1");
        reveal_strlit("2");
        reveal_strlit("3");
        reveal_strlit("4");
        reveal_strlit("5");
        reveal_strlit("6");
        reveal_strlit("7");
        reveal_strlit("8");
        reveal_strlit("9");
    }
    let text = if d == 0 {
        "0"
    } else if d == 1 {
        "1"
    } else if d == 2 {
        "2"
    } else if d == 3 {
        "3"
    } else if d == 4 {
        "4"
    } else if d == 5 {
        "5"
    } else if d == 6 {
        "6"
    } else if d == 7 {
        "7"
    } else if d == 8 {
        "8"
    } else {
        "9"
    };
    assert(text@ =~= seq![digit_char(d as int)]);
    text
}

/// `n` written in decimal.
pub fn natural_string(n: u64) -> (text: String)
    ensures
        text@ == decimal_nat(n as nat),
    decreases n,
{
    if n < 10 {
        digit_text(n).to_owned()
    } else {
        let mut text = natural_string(n / 10);
        text.append(digit_text(n % 10));
        assert(text@ =~= decimal_nat((n / 10) as nat).push(digit_char(n as int % 10)));
        text
    }
}

/// `n` written in decimal.
pub fn decimal_string(n: i64) -> (text: String)
    ensures
        text@ == decimal(n as int),
{
    if n >= 0 {
        natural_string(n as u64)
    } else {
        let magnitude: u64 = (-(n + 1)) as u64 + 1;
        proof {
            reveal_strlit("-");
        }
        let mut text = "-".to_owned();
        let digits = natural_string(magnitude);
        text.append(digits.as_str());
        assert(text@ =~= seq!['-'] + decimal_nat((-n) as nat));
        text
    }
}

/// `value` thousandths written as a decimal fraction with three places.
pub fn thousandths_string(value: u32) -> (text: String)
    ensures
        text@ == thousandths(value as nat),
{
    proof {
        reveal_strlit(".");
    }
    let mut text = natural_string((value / 1000) as u64);
    text.append(".");
    text.append(digit_text((value / 100 % 10) as u64));
    text.append(digit_text((value / 10 % 10) as u64));
    text.append(digit_text((value % 10) as u64));
    assert(text@ =~= thousandths(value as nat));
    text
}

/// The characters of `text`, in a vector.
pub fn chars_of(text: &str) -> (chars: Vec<char>)
    ensures
        chars@ == text@,
{
    let mut chars: Vec<char> = Vec::new();
    for c in it: text.chars()
        invariant
            it.seq() == text@,
            chars@ == text@.take(it.index() as int),
    {
        assert(text@.take(it.index() + 1).drop_last() =~= text@.take(it.index() as int));
        chars.push(c);
    }
    assert(text@.take(text@.len() as int) =~= text@);
    chars
}

} // verus!
