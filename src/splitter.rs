//! Splitting a duration given in one unit into its unit components.
use vstd::prelude::*;

use crate::formatter::MillisecondPart;

verus! {

/// The number of distinct values of a `u64`. The year count is held in a
/// `u64`, so it is taken modulo this number; no smaller field is affected.
pub open spec fn u64_span() -> nat {
    0x1_0000_0000_0000_0000
}

/// `seq![p]` if `present`, else the empty sequence.
pub open spec fn part_if(present: bool, p: MillisecondPart) -> Seq<MillisecondPart> {
    if present {
        seq![p]
    } else {
        Seq::empty()
    }
}

/// The components of a record with the given fields: one per non-zero field,
/// from years down to nanoseconds. With `merge`, non-zero seconds and a
/// non-zero millisecond remainder become one `SecsAndMillis` part, and the
/// milliseconds get no part of their own.
pub open spec fn components_of(
    years: nat,
    days: nat,
    hours: nat,
    minutes: nat,
    seconds: nat,
    millis: nat,
    micros: nat,
    nanos: nat,
    merge: bool,
) -> Seq<MillisecondPart> {
    part_if(years > 0, MillisecondPart::Years(years as u64))
        + part_if(days > 0, MillisecondPart::Days(days as u16))
        + part_if(hours > 0, MillisecondPart::Hours(hours as u8))
        + part_if(minutes > 0, MillisecondPart::Minutes(minutes as u8))
        + part_if(
        seconds > 0,
        if merge && millis > 0 {
            MillisecondPart::SecsAndMillis(seconds as u8, millis as u16)
        } else {
            MillisecondPart::Seconds(seconds as u8)
        },
    ) + part_if(!merge && millis > 0, MillisecondPart::Millis(millis as u16))
        + part_if(micros > 0, MillisecondPart::Micros(micros as u16))
        + part_if(nanos > 0, MillisecondPart::Nanos(nanos as u16))
}

/// The unmerged components of `secs` whole seconds with the given sub-second
/// remainders. The year count wraps modulo `u64_span()`.
pub open spec fn split_clock(secs: nat, millis: nat, micros: nat, nanos: nat) -> Seq<
    MillisecondPart,
> {
    let minutes = secs / 60;
    let hours = minutes / 60;
    let days = hours / 24;
    components_of(
        (days / 365) % u64_span(),
        days % 365,
        hours % 24,
        minutes % 60,
        secs % 60,
        millis,
        micros,
        nanos,
        false,
    )
}

/// The parts of `n` nanoseconds: the remainders at each division by 1000
/// give the nanoseconds, microseconds and milliseconds; the whole seconds
/// are split by `split_clock`.
pub open spec fn split_nanos(n: nat) -> Seq<MillisecondPart> {
    let micros = n / 1000;
    let millis = micros / 1000;
    split_clock(millis / 1000, millis % 1000, micros % 1000, n % 1000)
}

/// The parts of `n` microseconds, which have no nanosecond remainder.
pub open spec fn split_micros(n: nat) -> Seq<MillisecondPart> {
    let millis = n / 1000;
    split_clock(millis / 1000, millis % 1000, n % 1000, 0)
}

/// The parts of `n` milliseconds, which have no finer remainder.
pub open spec fn split_millis(n: nat) -> Seq<MillisecondPart> {
    split_clock(n / 1000, n % 1000, 0, 0)
}

/// The parts of `n` seconds, which have no sub-second remainder.
pub open spec fn split_secs(n: nat) -> Seq<MillisecondPart> {
    split_clock(n, 0, 0, 0)
}

/// The parts of `n` minutes: hours, days and 365-day years above, the
/// minute of the hour below.
pub open spec fn split_minutes(n: nat) -> Seq<MillisecondPart> {
    let hours = n / 60;
    let days = hours / 24;
    components_of((days / 365) % u64_span(), days % 365, hours % 24, n % 60, 0, 0, 0, 0, false)
}

/// The parts of `n` hours: days and 365-day years above, the hour of the
/// day below.
pub open spec fn split_hours(n: nat) -> Seq<MillisecondPart> {
    let days = n / 24;
    components_of((days / 365) % u64_span(), days % 365, n % 24, 0, 0, 0, 0, 0, false)
}

/// The parts of `n` days: whole 365-day years and the day of the year.
pub open spec fn split_days(n: nat) -> Seq<MillisecondPart> {
    components_of((n / 365) % u64_span(), n % 365, 0, 0, 0, 0, 0, 0, false)
}

/// The parts of `n` years: the years alone.
pub open spec fn split_years(n: nat) -> Seq<MillisecondPart> {
    components_of(n % u64_span(), 0, 0, 0, 0, 0, 0, 0, false)
}

/// `parts` with each `Seconds` that is directly followed by `Millis` joined
/// with it into one `SecsAndMillis`, and each other `Millis` left out: a
/// millisecond remainder shows only beside whole seconds.
pub open spec fn merged(parts: Seq<MillisecondPart>) -> Seq<MillisecondPart>
    decreases parts.len(),
{
    if parts.len() == 0 {
        Seq::empty()
    } else {
        match parts[0] {
            MillisecondPart::Seconds(s) => {
                if parts.len() > 1 && parts[1] is Millis {
                    seq![MillisecondPart::SecsAndMillis(s, parts[1]->Millis_0)] + merged(
                        parts.skip(2),
                    )
                } else {
                    seq![parts[0]] + merged(parts.skip(1))
                }
            },
            MillisecondPart::Millis(_) => merged(parts.skip(1)),
            _ => seq![parts[0]] + merged(parts.skip(1)),
        }
    }
}

/// The length of one part, in nanoseconds, with a year of 365 days.
pub open spec fn part_nanos(p: MillisecondPart) -> nat {
    match p {
        MillisecondPart::Years(x) => x as nat * 31_536_000_000_000_000,
        MillisecondPart::Days(x) => x as nat * 86_400_000_000_000,
        MillisecondPart::Hours(x) => x as nat * 3_600_000_000_000,
        MillisecondPart::Minutes(x) => x as nat * 60_000_000_000,
        MillisecondPart::Seconds(x) => x as nat * 1_000_000_000,
        MillisecondPart::SecsAndMillis(x, y) => x as nat * 1_000_000_000 + y as nat * 1_000_000,
        MillisecondPart::Millis(x) => x as nat * 1_000_000,
        MillisecondPart::Micros(x) => x as nat * 1000,
        MillisecondPart::Nanos(x) => x as nat,
    }
}

/// The total length of the parts, in nanoseconds.
pub open spec fn total_nanos(parts: Seq<MillisecondPart>) -> nat
    decreases parts.len(),
{
    if parts.len() == 0 {
        0
    } else {
        part_nanos(parts[0]) + total_nanos(parts.skip(1))
    }
}

/// The texts joined with one space between each two.
pub open spec fn joined(texts: Seq<Seq<char>>) -> Seq<char>
    decreases texts.len(),
{
    if texts.len() == 0 {
        Seq::empty()
    } else if texts.len() == 1 {
        texts[0]
    } else {
        joined(texts.drop_last()) + " "@ + texts.last()
    }
}

/// The short text of each part, in order.
pub open spec fn short_texts(parts: Seq<MillisecondPart>) -> Seq<Seq<char>> {
    parts.map_values(|p: MillisecondPart| p.short_text())
}

/// The long text of each part, in order.
pub open spec fn long_texts(parts: Seq<MillisecondPart>) -> Seq<Seq<char>> {
    parts.map_values(|p: MillisecondPart| p.long_text())
}

/// A duration split into its non-zero unit components, largest unit first.
#[derive(Debug, Clone, PartialEq)]
pub struct Millisecond {
    pub parts: Vec<MillisecondPart>,
}

impl View for Millisecond {
    type V = Seq<MillisecondPart>;

    open spec fn view(&self) -> Seq<MillisecondPart> {
        self.parts@
    }
}

impl Default for Millisecond {
    fn default() -> (r: Self)
        ensures
            r@ == Seq::<MillisecondPart>::empty(),
    {
        Millisecond { parts: Vec::new() }
    }
}

fn push_if(parts: &mut Vec<MillisecondPart>, present: bool, p: MillisecondPart)
    ensures
        final(parts)@ == old(parts)@ + part_if(present, p),
{
    if present {
        parts.push(p);
    }
    assert(parts@ =~= old(parts)@ + part_if(present, p));
}

/// The low 64 bits of `n`: the year count that a `u64` holds.
fn wrap_to_u64(n: u128) -> (r: u64)
    ensures
        r as nat == n as nat % u64_span(),
{
    let r = #[verifier::truncate] (n as u64);
    assert(r as u128 == n % 0x1_0000_0000_0000_0000) by (bit_vector)
        requires
            r == #[verifier::truncate] (n as u64),
    ;
    r
}

impl Millisecond {
    fn from_fields(
        years: u64,
        days: u16,
        hours: u8,
        minutes: u8,
        seconds: u8,
        millis: u16,
        micros: u16,
        nanos: u16,
    ) -> (r: Self)
        ensures
            r@ == components_of(
                years as nat,
                days as nat,
                hours as nat,
                minutes as nat,
                seconds as nat,
                millis as nat,
                micros as nat,
                nanos as nat,
                false,
            ),
    {
        let mut parts: Vec<MillisecondPart> = Vec::new();
        push_if(&mut parts, years > 0, MillisecondPart::Years(years));
        push_if(&mut parts, days > 0, MillisecondPart::Days(days));
        push_if(&mut parts, hours > 0, MillisecondPart::Hours(hours));
        push_if(&mut parts, minutes > 0, MillisecondPart::Minutes(minutes));
        push_if(&mut parts, seconds > 0, MillisecondPart::Seconds(seconds));
        push_if(&mut parts, millis > 0, MillisecondPart::Millis(millis));
        push_if(&mut parts, micros > 0, MillisecondPart::Micros(micros));
        push_if(&mut parts, nanos > 0, MillisecondPart::Nanos(nanos));
        assert(parts@ =~= components_of(
            years as nat,
            days as nat,
            hours as nat,
            minutes as nat,
            seconds as nat,
            millis as nat,
            micros as nat,
            nanos as nat,
            false,
        ));
        Millisecond { parts }
    }

    fn from_clock(secs: u128, millis: u16, micros: u16, nanos: u16) -> (r: Self)
        ensures
            r@ == split_clock(secs as nat, millis as nat, micros as nat, nanos as nat),
    {
        let minutes = secs / 60;
        let hours = minutes / 60;
        let days = hours / 24;
        Self::from_fields(
            wrap_to_u64(days / 365),
            (days % 365) as u16,
            (hours % 24) as u8,
            (minutes % 60) as u8,
            (secs % 60) as u8,
            millis,
            micros,
            nanos,
        )
    }

    /// Splits `nanos` nanoseconds. Every field is exact but the year
    /// count, which wraps around beyond `u64::MAX` years.
    pub fn from_nanos(nanos: u128) -> (r: Self)
        ensures
            r@ == split_nanos(nanos as nat),
    {
        let micros = nanos / 1000;
        let millis = micros / 1000;
        Self::from_clock(
            millis / 1000,
            (millis % 1000) as u16,
            (micros % 1000) as u16,
            (nanos % 1000) as u16,
        )
    }

    /// Splits `micros` microseconds. Every field is exact but the year
    /// count, which wraps around beyond `u64::MAX` years.
    pub fn from_micros(micros: u128) -> (r: Self)
        ensures
            r@ == split_micros(micros as nat),
    {
        let millis = micros / 1000;
        Self::from_clock(millis / 1000, (millis % 1000) as u16, (micros % 1000) as u16, 0)
    }

    /// Splits `millis` milliseconds. Every field is exact but the year
    /// count, which wraps around beyond `u64::MAX` years.
    pub fn from_millis(millis: u128) -> (r: Self)
        ensures
            r@ == split_millis(millis as nat),
    {
        Self::from_clock(millis / 1000, (millis % 1000) as u16, 0, 0)
    }

    pub fn from_secs(seconds: u64) -> (r: Self)
        ensures
            r@ == split_secs(seconds as nat),
    {
        Self::from_clock(seconds as u128, 0, 0, 0)
    }

    pub fn from_minutes(minutes: u64) -> (r: Self)
        ensures
            r@ == split_minutes(minutes as nat),
    {
        let hours = minutes / 60;
        let days = hours / 24;
        Self::from_fields(days / 365, (days % 365) as u16, (hours % 24) as u8, (minutes % 60) as u8, 0, 0, 0, 0)
    }

    pub fn from_hours(hours: u64) -> (r: Self)
        ensures
            r@ == split_hours(hours as nat),
    {
        let days = hours / 24;
        Self::from_fields(days / 365, (days % 365) as u16, (hours % 24) as u8, 0, 0, 0, 0, 0)
    }

    /// Splits `days` days, with every year 365 days long.
    pub fn from_days(days: u64) -> (r: Self)
        ensures
            r@ == split_days(days as nat),
    {
        assert((days / 365) as nat % u64_span() == (days / 365) as nat);
        Self::from_fields(days / 365, (days % 365) as u16, 0, 0, 0, 0, 0, 0)
    }

    pub fn from_years(years: u64) -> (r: Self)
        ensures
            r@ == split_years(years as nat),
    {
        assert(years as nat % u64_span() == years as nat);
        Self::from_fields(years, 0, 0, 0, 0, 0, 0, 0)
    }
}

impl Millisecond {
    /// The parts in order; with `merge`, whole seconds and a millisecond
    /// remainder that follows them become one `SecsAndMillis` part.
    pub fn components(&self, merge: bool) -> (r: Vec<MillisecondPart>)
        ensures
            r@ == if merge {
                merged(self@)
            } else {
                self@
            },
    {
        let n = self.parts.len();
        let mut r: Vec<MillisecondPart> = Vec::new();
        let mut i: usize = 0;
        assert(self@.skip(0) =~= self@);
        assert(r@ + merged(self@) =~= merged(self@));
        while i < n
            invariant
                n == self@.len(),
                i <= n,
                merge ==> merged(self@) == r@ + merged(self@.skip(i as int)),
                !merge ==> r@ == self@.take(i as int),
            decreases n - i,
        {
            let p = self.parts[i];
            let ghost rest = self@.skip(i as int);
            assert(rest.skip(1) =~= self@.skip(i + 1));
            assert(rest.len() > 1 ==> rest.skip(2) =~= self@.skip(i + 2));
            if !merge {
                r.push(p);
                i = i + 1;
                assert(r@ =~= self@.take(i as int));
            } else {
                match p {
                    MillisecondPart::Seconds(s) => {
                        let next = if i + 1 < n {
                            Some(self.parts[i + 1])
                        } else {
                            None
                        };
                        match next {
                            Some(MillisecondPart::Millis(m)) => {
                                r.push(MillisecondPart::SecsAndMillis(s, m));
                                i = i + 2;
                            },
                            _ => {
                                r.push(p);
                                i = i + 1;
                            },
                        }
                    },
                    MillisecondPart::Millis(_) => {
                        i = i + 1;
                    },
                    _ => {
                        r.push(p);
                        i = i + 1;
                    },
                }
                assert(merged(self@) =~= r@ + merged(self@.skip(i as int)));
            }
        }
        assert(self@.skip(n as int) =~= Seq::<MillisecondPart>::empty());
        assert(self@.take(n as int) =~= self@);
        r
    }

    /// The parts with seconds and their millisecond remainder merged, as
    /// `components(true)` gives them.
    pub fn merged_components(&self) -> (r: Vec<MillisecondPart>)
        ensures
            r@ == merged(self@),
    {
        self.components(true)
    }

    /// The short texts of the parts, separated by single spaces.
    pub fn to_short_string(&self) -> (r: String)
        ensures
            r@ == joined(short_texts(self@)),
    {
        let n = self.parts.len();
        let mut s = String::new();
        let mut i: usize = 0;
        while i < n
            invariant
                n == self@.len(),
                i <= n,
                s@ == joined(short_texts(self@).take(i as int)),
            decreases n - i,
        {
            if i > 0 {
                s.append(" ");
            }
            let t = self.parts[i].to_short_string();
            s.append(t.as_str());
            i = i + 1;
            let ghost texts = short_texts(self@).take(i as int);
            assert(texts.drop_last() =~= short_texts(self@).take(i - 1));
        }
        assert(short_texts(self@).take(n as int) =~= short_texts(self@));
        s
    }

    /// The long texts of the parts, separated by single spaces.
    pub fn to_long_string(&self) -> (r: String)
        ensures
            r@ == joined(long_texts(self@)),
    {
        let n = self.parts.len();
        let mut s = String::new();
        let mut i: usize = 0;
        while i < n
            invariant
                n == self@.len(),
                i <= n,
                s@ == joined(long_texts(self@).take(i as int)),
            decreases n - i,
        {
            if i > 0 {
                s.append(" ");
            }
            let t = self.parts[i].to_long_string();
            s.append(t.as_str());
            i = i + 1;
            let ghost texts = long_texts(self@).take(i as int);
            assert(texts.drop_last() =~= long_texts(self@).take(i - 1));
        }
        assert(long_texts(self@).take(n as int) =~= long_texts(self@));
        s
    }
}

} // verus!
