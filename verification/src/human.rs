//! Byte counts in short decimal form.

use vstd::prelude::*;
use vstd::string::StringExecFns;

verus! {

/// The character of one decimal digit.
pub open spec fn digit_char(d: nat) -> char {
    if d == 0 {
        '0'
    } else if d == 1 {
        '1'
    } else if d == 2 {
        '2'
    } else if d == 3 {
        '3'
    } else if d == 4 {
        '4'
    } else if d == 5 {
        '5'
    } else if d == 6 {
        '6'
    } else if d == 7 {
        '7'
    } else if d == 8 {
        '8'
    } else {
        '9'
    }
}

/// The decimal digits of `n`, most significant first, without leading zeros.
pub open spec fn decimal_digits(n: nat) -> Seq<char>
    decreases n,
{
    if n < 10 {
        seq![digit_char(n)]
    } else {
        decimal_digits(n / 10).push(digit_char(n % 10))
    }
}

/// The text that [`human`] gives for `size`: the count in bytes up to 10 KiB,
/// in whole KiB up to 10 MiB, in whole MiB up to 10 GiB, and in whole GiB
/// above that, each rounded down and followed by a space and its unit.
pub open spec fn human_text(size: u64) -> Seq<char> {
    if size <= 10240 {
        decimal_digits(size as nat) + seq![' ', 'b']
    } else if size <= 10485760 {
        decimal_digits((size / 1024) as nat) + seq![' ', 'k', 'b']
    } else if size <= 10737418240 {
        decimal_digits((size / 1024 / 1024) as nat) + seq![' ', 'm', 'b']
    } else {
        decimal_digits((size / 1024 / 1024 / 1024) as nat) + seq![' ', 'g', 'b']
    }
}

/// Calls `u64::to_string` of std, which is trusted to write the number in
/// decimal digits, most significant first, without sign or leading zeros.
#[verifier::external_body]
fn decimal(n: u64) -> (text: String)
    ensures
        text@ == decimal_digits(n as nat),
{
    n.to_string()
}

/// Renders a byte count for display.
pub fn human(size: u64) -> (text: String)
    ensures
        text@ == human_text(size),
{
    if size <= 10240 {
        let mut text = decimal(size);
        text.append(" b");
        proof {
            reveal_strlit(" b");
            assert(" b"@ =~= seq![' ', 'b']);
        }
        text
    } else if size <= 10485760 {
        let mut text = decimal(size / 1024);
        text.append(" kb");
        proof {
            reveal_strlit(" kb");
            assert(" kb"@ =~= seq![' ', 'k', 'b']);
        }
        text
    } else if size <= 10737418240 {
        let mut text = decimal(size / 1024 / 1024);
        text.append(" mb");
        proof {
            reveal_strlit(" mb");
            assert(" mb"@ =~= seq![' ', 'm', 'b']);
        }
        text
    } else {
        let mut text = decimal(size / 1024 / 1024 / 1024);
        text.append(" gb");
        proof {
            reveal_strlit(" gb");
            assert(" gb"@ =~= seq![' ', 'g', 'b']);
        }
        text
    }
}

} // verus!
