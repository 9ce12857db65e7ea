//! One unit component of a duration, and its short and long text.
use vstd::prelude::*;

verus! {

/// The text of one decimal digit.
pub open spec fn digit_char(d: nat) -> char {
    if d == 0 {
        '0'
    } else if d == 1 {
        '1'
    } else if d == 2 {
        '2'
    } else if d == 3 {
        '3'
    } else if d == 4 {
        '4'
    } else if d == 5 {
        '5'
    } else if d == 6 {
        '6'
    } else if d == 7 {
        '7'
    } else if d == 8 {
        '8'
    } else {
        '9'
    }
}

/// The decimal digits of `n`, most significant first, with no leading zeros.
pub open spec fn decimal(n: nat) -> Seq<char>
    decreases n,
{
    if n < 10 {
        seq![digit_char(n)]
    } else {
        decimal(n / 10) + seq![digit_char(n % 10)]
    }
}

fn digit_str(d: u64) -> (r: &'static str)
    requires
        d < 10,
    ensures
        r@ == seq![digit_char(d as nat)],
{
    match d {
        0 => { proof { reveal_strlit("0"); } "0" },
        1 => { proof { reveal_strlit("1"); } "1" },
        2 => { proof { reveal_strlit("2"); } "2" },
        3 => { proof { reveal_strlit("3"); } "3" },
        4 => { proof { reveal_strlit("4"); } "4" },
        5 => { proof { reveal_strlit("5"); } "5" },
        6 => { proof { reveal_strlit("6"); } "6" },
        7 => { proof { reveal_strlit("7"); } "7" },
        8 => { proof { reveal_strlit("8"); } "8" },
        _ => { proof { reveal_strlit("9"); } "9" },
    }
}

/// Appends the decimal digits of `n` to `s`.
fn push_decimal(s: &mut String, n: u64)
    ensures
        final(s)@ == old(s)@ + decimal(n as nat),
    decreases n,
{
    if n >= 10 {
        push_decimal(s, n / 10);
    }
    s.append(digit_str(n % 10));
    assert(s@ =~= old(s)@ + decimal(n as nat));
}


/// One non-zero unit of a split duration, with its magnitude.
#[derive(Debug, Clone, Copy, PartialEq, Eq, Structural)]
pub enum MillisecondPart {
    Years(u64),
    Days(u16),
    Hours(u8),
    Minutes(u8),
    Seconds(u8),
    /// Whole seconds together with the millisecond remainder.
    SecsAndMillis(u8, u16),
    Millis(u16),
    Micros(u16),
    Nanos(u16),
}

/// `n` in decimal followed by `suffix`.
pub open spec fn with_suffix(n: nat, suffix: Seq<char>) -> Seq<char> {
    decimal(n) + suffix
}

/// `val` in decimal, a space and `word`, with a plural `s` unless `val` is
/// the singular value.
pub open spec fn plural_text(val: nat, word: Seq<char>, single_val: nat) -> Seq<char> {
    decimal(val) + " "@ + word + if val == single_val {
        Seq::empty()
    } else {
        "s"@
    }
}

/// `seconds.millis`, the millisecond count written as it is, unpadded.
pub open spec fn fraction_text(seconds: nat, millis: nat) -> Seq<char> {
    decimal(seconds) + "."@ + decimal(millis)
}

impl MillisecondPart {
    /// The compact text: the value and a unit letter with no space between.
    pub open spec fn short_text(self) -> Seq<char> {
        match self {
            MillisecondPart::Years(x) => with_suffix(x as nat, "y"@),
            MillisecondPart::Days(x) => with_suffix(x as nat, "d"@),
            MillisecondPart::Hours(x) => with_suffix(x as nat, "h"@),
            MillisecondPart::Minutes(x) => with_suffix(x as nat, "m"@),
            MillisecondPart::Seconds(x) => with_suffix(x as nat, "s"@),
            MillisecondPart::SecsAndMillis(x, y) => fraction_text(x as nat, y as nat) + "s"@,
            MillisecondPart::Millis(x) => with_suffix(x as nat, "ms"@),
            MillisecondPart::Micros(x) => with_suffix(x as nat, "\u{b5}s"@),
            MillisecondPart::Nanos(x) => with_suffix(x as nat, "ns"@),
        }
    }

    /// The verbose text: the value, a space and the English unit word,
    /// plural unless the value is one.
    pub open spec fn long_text(self) -> Seq<char> {
        match self {
            MillisecondPart::Years(x) => plural_text(x as nat, "year"@, 1),
            MillisecondPart::Days(x) => plural_text(x as nat, "day"@, 1),
            MillisecondPart::Hours(x) => plural_text(x as nat, "hour"@, 1),
            MillisecondPart::Minutes(x) => plural_text(x as nat, "minute"@, 1),
            MillisecondPart::Seconds(x) => plural_text(x as nat, "second"@, 1),
            MillisecondPart::SecsAndMillis(x, y) => fraction_text(x as nat, y as nat)
                + " seconds"@,
            MillisecondPart::Millis(x) => plural_text(x as nat, "millisecond"@, 1),
            MillisecondPart::Micros(x) => plural_text(x as nat, "microsecond"@, 1),
            MillisecondPart::Nanos(x) => plural_text(x as nat, "nanosecond"@, 1),
        }
    }

    pub fn to_short_string(&self) -> (r: String)
        ensures
            r@ == self.short_text(),
    {
        match self {
            MillisecondPart::Years(x) => decimal_with_suffix(*x, "y"),
            MillisecondPart::Days(x) => decimal_with_suffix(*x as u64, "d"),
            MillisecondPart::Hours(x) => decimal_with_suffix(*x as u64, "h"),
            MillisecondPart::Minutes(x) => decimal_with_suffix(*x as u64, "m"),
            MillisecondPart::Seconds(x) => decimal_with_suffix(*x as u64, "s"),
            MillisecondPart::Millis(x) => decimal_with_suffix(*x as u64, "ms"),
            MillisecondPart::SecsAndMillis(x, y) => {
                let mut s = fraction_string(*x, *y);
                s.append("s");
                s
            },
            MillisecondPart::Micros(x) => decimal_with_suffix(*x as u64, "\u{b5}s"),
            MillisecondPart::Nanos(x) => decimal_with_suffix(*x as u64, "ns"),
        }
    }

    pub fn to_long_string(&self) -> (r: String)
        ensures
            r@ == self.long_text(),
    {
        match self {
            MillisecondPart::Years(x) => with_pluralization(*x, "year", 1),
            MillisecondPart::Days(x) => with_pluralization(*x as u64, "day", 1),
            MillisecondPart::Hours(x) => with_pluralization(*x as u64, "hour", 1),
            MillisecondPart::Minutes(x) => with_pluralization(*x as u64, "minute", 1),
            MillisecondPart::Seconds(x) => with_pluralization(*x as u64, "second", 1),
            MillisecondPart::Millis(x) => with_pluralization(*x as u64, "millisecond", 1),
            MillisecondPart::SecsAndMillis(x, y) => {
                let mut s = fraction_string(*x, *y);
                s.append(" seconds");
                s
            },
            MillisecondPart::Micros(x) => with_pluralization(*x as u64, "microsecond", 1),
            MillisecondPart::Nanos(x) => with_pluralization(*x as u64, "nanosecond", 1),
        }
    }
}

fn decimal_with_suffix(n: u64, suffix: &str) -> (r: String)
    ensures
        r@ == with_suffix(n as nat, suffix@),
{
    let mut s = String::new();
    push_decimal(&mut s, n);
    s.append(suffix);
    s
}

fn fraction_string(seconds: u8, millis: u16) -> (r: String)
    ensures
        r@ == fraction_text(seconds as nat, millis as nat),
{
    let mut s = String::new();
    push_decimal(&mut s, seconds as u64);
    s.append(".");
    push_decimal(&mut s, millis as u64);
    s
}

/// Writes `val`, a space and `text`, adding the plural `s` exactly when
/// `val` differs from `single_val`.
pub fn with_pluralization(val: u64, text: &str, single_val: u64) -> (r: String)
    ensures
        r@ == plural_text(val as nat, text@, single_val as nat),
{
    let mut s = String::new();
    push_decimal(&mut s, val);
    s.append(" ");
    s.append(text);
    if val != single_val {
        s.append("s");
    }
    s
}

} // verus!
