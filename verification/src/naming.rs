//! Numbers written out in names.

use vstd::prelude::*;
use vstd::string::StringExecFns;

verus! {

/// The decimal digits, in order.
pub open spec fn digits() -> Seq<char> {
    "0123456789"@
}

/// `n` written in decimal, without leading zeros.
pub open spec fn decimal(n: nat) -> Seq<char>
    decreases n,
{
    if n < 10 {
        seq![digits()[n as int]]
    } else {
        decimal(n / 10).push(digits()[(n % 10) as int])
    }
}

/// `n` written in decimal, with a minus sign before a negative number.
pub open spec fn signed_decimal(n: int) -> Seq<char> {
    if n < 0 {
        "-"@ + decimal((-n) as nat)
    } else {
        decimal(n as nat)
    }
}

/// `n` written in decimal.
pub fn decimal_string(n: usize) -> (text: String)
    ensures
        text@ == decimal(n as nat),
    decreases n,
{
    proof {
        reveal_strlit("0123456789");
    }
    let low: usize = n % 10;
    let digit = "0123456789".substring_char(low, low + 1);
    assert(digit@ =~= seq![digits()[low as int]]);
    if n < 10 {
        digit.to_owned()
    } else {
        let mut text = decimal_string(n / 10);
        text.append(digit);
        assert(text@ =~= decimal((n / 10) as nat).push(digits()[low as int]));
        text
    }
}

/// `n` written in decimal, with a minus sign before a negative number.
pub fn signed_decimal_string(n: i32) -> (text: String)
    ensures
        text@ == signed_decimal(n as int),
{
    if n < 0 {
        let magnitude: i64 = -(n as i64);
        let mut text = "-".to_owned();
        let rest = decimal_string(magnitude as usize);
        text.append(rest.as_str());
        text
    } else {
        decimal_string(n as usize)
    }
}

} // verus!
