//! The time an attempt took, to the hundredth of a second.

use vstd::prelude::*;
use vstd::string::*;

verus! {

/// A time in hundredths of a second. The largest number stands for "no
/// time yet".
#[derive(Clone, Copy, PartialEq, Eq, Structural, Debug)]
pub struct LevelTime(pub u32);

/// The character of a decimal digit.
pub open spec fn digit(d: int) -> char {
    seq!['0', '1', '2', '3', '4', '5', '6', '7', '8', '9'][d]
}

/// A number in decimal, without leading zeros.
pub open spec fn decimal(n: nat) -> Seq<char>
    decreases n,
{
    if n < 10 {
        seq![digit(n as int)]
    } else {
        decimal(n / 10).push(digit((n % 10) as int))
    }
}

/// A number in decimal, with a leading zero where it has one digit only.
pub open spec fn two_digits(n: nat) -> Seq<char> {
    if n < 10 {
        seq!['0'] + decimal(n)
    } else {
        decimal(n)
    }
}

impl LevelTime {
    /// The value that stands for "no time yet".
    pub open spec fn spec_invalid() -> LevelTime {
        LevelTime(0xffff_ffff)
    }

    /// The time as it is shown: minutes, seconds and hundredths, two digits
    /// each and more for the minutes where they need them, or dashes where
    /// there is no time yet.
    pub open spec fn text(self) -> Seq<char> {
        if self == Self::spec_invalid() {
            seq!['-', '-', ':', '-', '-', ':', '-', '-']
        } else {
            two_digits((self.0 / 6000) as nat) + seq![':'] + two_digits((self.0 / 100 % 60) as nat)
                + seq![':'] + two_digits((self.0 % 100) as nat)
        }
    }

    /// The time of so many hundredths of a second.
    pub fn new(hundredths: u32) -> (time: LevelTime)
        ensures
            time.0 == hundredths,
    {
        LevelTime(hundredths)
    }

    /// The value that stands for "no time yet".
    pub fn invalid() -> (time: LevelTime)
        ensures
            time == Self::spec_invalid(),
    {
        LevelTime(0xffff_ffff)
    }

    /// The time as text, as in `01:23:45`.
    pub fn fmt(&self) -> (text: String)
        ensures
            text@ == self.text(),
    {
        if self.0 == 0xffff_ffff {
            proof {
                reveal_strlit("--:--:--");
            }
            let text = String::from_str("--:--:--");
            assert(text@ =~= self.text());
            text
        } else {
            proof {
                reveal_strlit(":");
            }
            let mut text = String::new();
            push_two_digits(&mut text, self.0 / 6000);
            text.append(":");
            push_two_digits(&mut text, self.0 / 100 % 60);
            text.append(":");
            push_two_digits(&mut text, self.0 % 100);
            assert(text@ =~= self.text());
            text
        }
    }
}

/// The text of one decimal digit.
fn digit_str(d: u32) -> (text: &'static str)
    requires
        d < 10,
    ensures
        text@ == seq![digit(d as int)],
{
    proof {
        reveal_strlit("0");
        reveal_strlit("1");
        reveal_strlit("2");
        reveal_strlit("3");
        reveal_strlit("4");
        reveal_strlit("5");
        reveal_strlit("6");
        reveal_strlit("7");
        reveal_strlit("8");
        reveal_strlit("9");
    }
    let text = match d {
        0 => "0",
        1 => "1",
        2 => "2",
        3 => "3",
        4 => "4",
        5 => "5",
        6 => "6",
        7 => "7",
        8 => "8",
        _ => "9",
    };
    assert(text@ =~= seq![digit(d as int)]);
    text
}

/// Writes a number in decimal at the end of a text.
fn push_decimal(text: &mut String, n: u32)
    ensures
        final(text)@ == old(text)@ + decimal(n as nat),
    decreases n,
{
    if n >= 10 {
        push_decimal(text, n / 10);
    }
    text.append(digit_str(n % 10));
    assert(text@ =~= old(text)@ + decimal(n as nat));
}

/// Writes a number in decimal at the end of a text, with a leading zero
/// where it has one digit only.
fn push_two_digits(text: &mut String, n: u32)
    ensures
        final(text)@ == old(text)@ + two_digits(n as nat),
{
    if n < 10 {
        proof {
            reveal_strlit("0");
        }
        text.append("0");
    }
    push_decimal(text, n);
    assert(text@ =~= old(text)@ + two_digits(n as nat));
}

} // verus!
