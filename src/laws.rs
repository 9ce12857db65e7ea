//! What holds of every split: it adds back up to its input, the entry
//! points of different units agree, and merging follows the component rule.
use vstd::prelude::*;
use vstd::seq_lib::lemma_concat_associative;

use crate::formatter::MillisecondPart;
use crate::splitter::{
    components_of, joined, long_texts, merged, part_if, part_nanos, short_texts, split_clock,
    split_days, split_hours, split_micros, split_millis, split_minutes, split_nanos, split_secs,
    split_years, total_nanos, u64_span,
};

verus! {

proof fn lemma_total_concat(a: Seq<MillisecondPart>, b: Seq<MillisecondPart>)
    ensures
        total_nanos(a + b) == total_nanos(a) + total_nanos(b),
    decreases a.len(),
{
    if a.len() == 0 {
        assert(a + b =~= b);
    } else {
        assert((a + b).skip(1) =~= a.skip(1) + b);
        lemma_total_concat(a.skip(1), b);
    }
}

proof fn lemma_total_part_if(present: bool, p: MillisecondPart)
    ensures
        total_nanos(part_if(present, p)) == if present {
            part_nanos(p)
        } else {
            0
        },
{
    assert(total_nanos(Seq::empty()) == 0);
    if present {
        assert(seq![p].skip(1) =~= Seq::<MillisecondPart>::empty());
    }
}

proof fn lemma_total_of_record(
    years: nat,
    days: nat,
    hours: nat,
    minutes: nat,
    seconds: nat,
    millis: nat,
    micros: nat,
    nanos: nat,
)
    requires
        years < u64_span(),
        days < 0x1_0000,
        hours < 0x100,
        minutes < 0x100,
        seconds < 0x100,
        millis < 0x1_0000,
        micros < 0x1_0000,
        nanos < 0x1_0000,
    ensures
        total_nanos(components_of(years, days, hours, minutes, seconds, millis, micros, nanos, false))
            == years * 31_536_000_000_000_000 + days * 86_400_000_000_000 + hours
            * 3_600_000_000_000 + minutes * 60_000_000_000 + seconds * 1_000_000_000 + millis
            * 1_000_000 + micros * 1000 + nanos,
{
    let py = part_if(years > 0, MillisecondPart::Years(years as u64));
    let pd = part_if(days > 0, MillisecondPart::Days(days as u16));
    let ph = part_if(hours > 0, MillisecondPart::Hours(hours as u8));
    let pm = part_if(minutes > 0, MillisecondPart::Minutes(minutes as u8));
    let ps = part_if(seconds > 0, MillisecondPart::Seconds(seconds as u8));
    let pms = part_if(millis > 0, MillisecondPart::Millis(millis as u16));
    let pus = part_if(micros > 0, MillisecondPart::Micros(micros as u16));
    let pns = part_if(nanos > 0, MillisecondPart::Nanos(nanos as u16));
    lemma_total_part_if(years > 0, MillisecondPart::Years(years as u64));
    lemma_total_part_if(days > 0, MillisecondPart::Days(days as u16));
    lemma_total_part_if(hours > 0, MillisecondPart::Hours(hours as u8));
    lemma_total_part_if(minutes > 0, MillisecondPart::Minutes(minutes as u8));
    lemma_total_part_if(seconds > 0, MillisecondPart::Seconds(seconds as u8));
    lemma_total_part_if(millis > 0, MillisecondPart::Millis(millis as u16));
    lemma_total_part_if(micros > 0, MillisecondPart::Micros(micros as u16));
    lemma_total_part_if(nanos > 0, MillisecondPart::Nanos(nanos as u16));
    lemma_total_concat(py, pd);
    lemma_total_concat(py + pd, ph);
    lemma_total_concat(py + pd + ph, pm);
    lemma_total_concat(py + pd + ph + pm, ps);
    lemma_total_concat(py + pd + ph + pm + ps, pms);
    lemma_total_concat(py + pd + ph + pm + ps + pms, pus);
    lemma_total_concat(py + pd + ph + pm + ps + pms + pus, pns);
}

/// Splitting `n` nanoseconds and adding the parts back up, with the fixed
/// ratios 1000, 1000, 1000, 60, 60, 24 and 365, gives `n` again, as long as
/// the year count of `n` fits in a `u64`.
pub proof fn lemma_nanos_round_trip(n: nat)
    requires
        n / 31_536_000_000_000_000 < u64_span(),
    ensures
        total_nanos(split_nanos(n)) == n,
{
    let micros = n / 1000;
    let millis = micros / 1000;
    let secs = millis / 1000;
    assert(secs == n / 1_000_000_000);
    let minutes = secs / 60;
    let hours = minutes / 60;
    let days = hours / 24;
    assert(days / 365 == n / 31_536_000_000_000_000);
    assert((days / 365) % u64_span() == days / 365);
    lemma_total_of_record(
        days / 365,
        days % 365,
        hours % 24,
        minutes % 60,
        secs % 60,
        millis % 1000,
        micros % 1000,
        n % 1000,
    );
    assert(n == secs * 1_000_000_000 + (millis % 1000) * 1_000_000 + (micros % 1000) * 1000 + n
        % 1000);
    assert(secs == (days / 365) * 31_536_000 + (days % 365) * 86_400 + (hours % 24) * 3600 + (
    minutes % 60) * 60 + secs % 60);
}

/// Splitting `n` milliseconds, `n * 1000` microseconds and `n * 1_000_000`
/// nanoseconds gives the same parts.
pub proof fn lemma_sub_second_units_agree(n: nat)
    ensures
        split_millis(n) == split_micros(n * 1000),
        split_micros(n * 1000) == split_nanos(n * 1_000_000),
{
    assert((n * 1000) / 1000 == n);
    assert((n * 1000) % 1000 == 0);
    assert((n * 1_000_000) / 1000 == n * 1000);
    assert((n * 1_000_000) % 1000 == 0);
}

/// Each entry point from seconds up splits a count as the next finer entry
/// point splits the same duration in its own unit, down to milliseconds and
/// nanoseconds.
pub proof fn lemma_coarse_units_agree(n: nat)
    ensures
        split_years(n) == split_days(n * 365),
        split_days(n) == split_hours(n * 24),
        split_hours(n) == split_minutes(n * 60),
        split_minutes(n) == split_secs(n * 60),
        split_secs(n) == split_millis(n * 1000),
        split_secs(n) == split_nanos(n * 1_000_000_000),
{
    assert((n * 365) / 365 == n);
    assert((n * 365) % 365 == 0);
    assert((n * 24) / 24 == n);
    assert((n * 24) % 24 == 0);
    assert((n * 60) / 60 == n);
    assert((n * 60) % 60 == 0);
    assert((n * 1000) / 1000 == n);
    assert((n * 1000) % 1000 == 0);
    lemma_sub_second_units_agree(n * 1000);
    assert(n * 1000 * 1_000_000 == n * 1_000_000_000);
}

/// Zero in any unit splits into no parts at all, and no parts render as
/// the empty string, short or long.
pub proof fn lemma_zero_is_empty()
    ensures
        split_nanos(0) == Seq::<MillisecondPart>::empty(),
        split_micros(0) == Seq::<MillisecondPart>::empty(),
        split_millis(0) == Seq::<MillisecondPart>::empty(),
        split_secs(0) == Seq::<MillisecondPart>::empty(),
        split_minutes(0) == Seq::<MillisecondPart>::empty(),
        split_hours(0) == Seq::<MillisecondPart>::empty(),
        split_days(0) == Seq::<MillisecondPart>::empty(),
        split_years(0) == Seq::<MillisecondPart>::empty(),
        joined(short_texts(Seq::empty())) == Seq::<char>::empty(),
        joined(long_texts(Seq::empty())) == Seq::<char>::empty(),
{
    let none = Seq::<MillisecondPart>::empty();
    assert(components_of(0, 0, 0, 0, 0, 0, 0, 0, false) =~= none);
    assert(split_clock(0, 0, 0, 0) =~= none);
    assert(0nat % u64_span() == 0);
    assert(split_nanos(0) == split_clock(0, 0, 0, 0));
    assert(split_micros(0) == split_clock(0, 0, 0, 0));
    assert(short_texts(none) =~= Seq::<Seq<char>>::empty());
    assert(long_texts(none) =~= Seq::<Seq<char>>::empty());
}

/// A part that merging never touches.
spec fn is_plain(p: MillisecondPart) -> bool {
    !(p is Seconds) && !(p is Millis)
}

proof fn lemma_merged_plain_part(present: bool, p: MillisecondPart, rest: Seq<MillisecondPart>)
    requires
        is_plain(p),
    ensures
        merged(part_if(present, p) + rest) == part_if(present, p) + merged(rest),
{
    if present {
        let s = seq![p] + rest;
        assert(s[0] == p);
        assert(s.skip(1) =~= rest);
    } else {
        assert(part_if(present, p) + rest =~= rest);
        assert(part_if(present, p) + merged(rest) =~= merged(rest));
    }
}

proof fn lemma_merged_seconds_millis(seconds: nat, millis: nat, tail: Seq<MillisecondPart>)
    requires
        tail.len() > 0 ==> is_plain(tail[0]),
    ensures
        merged(
            part_if(seconds > 0, MillisecondPart::Seconds(seconds as u8)) + (part_if(
                millis > 0,
                MillisecondPart::Millis(millis as u16),
            ) + tail),
        ) == part_if(
            seconds > 0,
            if millis > 0 {
                MillisecondPart::SecsAndMillis(seconds as u8, millis as u16)
            } else {
                MillisecondPart::Seconds(seconds as u8)
            },
        ) + merged(tail),
{
    let s = MillisecondPart::Seconds(seconds as u8);
    let m = MillisecondPart::Millis(millis as u16);
    let mid = part_if(seconds > 0, s) + (part_if(millis > 0, m) + tail);
    if seconds > 0 && millis > 0 {
        assert(mid =~= seq![s, m] + tail);
        assert(mid.skip(2) =~= tail);
    } else if seconds > 0 {
        assert(mid =~= seq![s] + tail);
        assert(mid.skip(1) =~= tail);
        if mid.len() > 1 {
            assert(mid[1] == tail[0]);
            assert(is_plain(tail[0]));
        }
    } else if millis > 0 {
        assert(mid =~= seq![m] + tail);
        assert(mid.skip(1) =~= tail);
    } else {
        assert(mid =~= tail);
    }
    assert(Seq::<MillisecondPart>::empty() + merged(tail) =~= merged(tail));
}

proof fn lemma_components_nested(
    years: nat,
    days: nat,
    hours: nat,
    minutes: nat,
    seconds: nat,
    millis: nat,
    micros: nat,
    nanos: nat,
    merge: bool,
)
    ensures
        components_of(years, days, hours, minutes, seconds, millis, micros, nanos, merge)
            == part_if(years > 0, MillisecondPart::Years(years as u64)) + (part_if(
            days > 0,
            MillisecondPart::Days(days as u16),
        ) + (part_if(hours > 0, MillisecondPart::Hours(hours as u8)) + (part_if(
            minutes > 0,
            MillisecondPart::Minutes(minutes as u8),
        ) + components_of(0, 0, 0, 0, seconds, millis, micros, nanos, merge)))),
{
    let py = part_if(years > 0, MillisecondPart::Years(years as u64));
    let pd = part_if(days > 0, MillisecondPart::Days(days as u16));
    let ph = part_if(hours > 0, MillisecondPart::Hours(hours as u8));
    let pm = part_if(minutes > 0, MillisecondPart::Minutes(minutes as u8));
    let low = components_of(0, 0, 0, 0, seconds, millis, micros, nanos, merge);
    let none = Seq::<MillisecondPart>::empty();
    let ps = part_if(
        seconds > 0,
        if merge && millis > 0 {
            MillisecondPart::SecsAndMillis(seconds as u8, millis as u16)
        } else {
            MillisecondPart::Seconds(seconds as u8)
        },
    );
    let pms = part_if(!merge && millis > 0, MillisecondPart::Millis(millis as u16));
    let pus = part_if(micros > 0, MillisecondPart::Micros(micros as u16));
    let pns = part_if(nanos > 0, MillisecondPart::Nanos(nanos as u16));
    let l = py + pd + ph + pm;
    assert(low =~= ps + pms + pus + pns);
    lemma_concat_associative(l + ps + pms, pus, pns);
    lemma_concat_associative(l + ps, pms, pus + pns);
    lemma_concat_associative(l, ps, pms + (pus + pns));
    lemma_concat_associative(ps, pms, pus + pns);
    lemma_concat_associative(ps + pms, pus, pns);
    assert(l + low == py + pd + ph + pm + ps + pms + pus + pns);
    lemma_concat_associative(py + pd + ph, pm, low);
    lemma_concat_associative(py + pd, ph, pm + low);
    lemma_concat_associative(py, pd, ph + (pm + low));
}

proof fn lemma_merge_low(seconds: nat, millis: nat, micros: nat, nanos: nat)
    ensures
        merged(components_of(0, 0, 0, 0, seconds, millis, micros, nanos, false))
            == components_of(0, 0, 0, 0, seconds, millis, micros, nanos, true),
{
    let pus = part_if(micros > 0, MillisecondPart::Micros(micros as u16));
    let pns = part_if(nanos > 0, MillisecondPart::Nanos(nanos as u16));
    let ps = part_if(seconds > 0, MillisecondPart::Seconds(seconds as u8));
    let pms = part_if(millis > 0, MillisecondPart::Millis(millis as u16));
    let joint = part_if(
        seconds > 0,
        if millis > 0 {
            MillisecondPart::SecsAndMillis(seconds as u8, millis as u16)
        } else {
            MillisecondPart::Seconds(seconds as u8)
        },
    );
    let none = Seq::<MillisecondPart>::empty();
    let tail = pus + (pns + none);
    assert(components_of(0, 0, 0, 0, seconds, millis, micros, nanos, false) =~= ps + (pms
        + tail));
    assert(components_of(0, 0, 0, 0, seconds, millis, micros, nanos, true) =~= joint + tail);
    assert(merged(none) == none);
    lemma_merged_plain_part(nanos > 0, MillisecondPart::Nanos(nanos as u16), none);
    lemma_merged_plain_part(micros > 0, MillisecondPart::Micros(micros as u16), pns + none);
    assert(tail.len() > 0 ==> is_plain(tail[0]));
    lemma_merged_seconds_millis(seconds, millis, tail);
}

/// Merging the unmerged components of any record gives its merged
/// components: seconds and a millisecond remainder that are both non-zero
/// become one part, and a millisecond remainder without seconds is not shown.
pub proof fn lemma_merge_follows_record(
    years: nat,
    days: nat,
    hours: nat,
    minutes: nat,
    seconds: nat,
    millis: nat,
    micros: nat,
    nanos: nat,
)
    ensures
        merged(components_of(years, days, hours, minutes, seconds, millis, micros, nanos, false))
            == components_of(years, days, hours, minutes, seconds, millis, micros, nanos, true),
{
    lemma_components_nested(years, days, hours, minutes, seconds, millis, micros, nanos, false);
    lemma_components_nested(years, days, hours, minutes, seconds, millis, micros, nanos, true);
    let pd = part_if(days > 0, MillisecondPart::Days(days as u16));
    let ph = part_if(hours > 0, MillisecondPart::Hours(hours as u8));
    let pm = part_if(minutes > 0, MillisecondPart::Minutes(minutes as u8));
    let low = components_of(0, 0, 0, 0, seconds, millis, micros, nanos, false);
    lemma_merge_low(seconds, millis, micros, nanos);
    lemma_merged_plain_part(minutes > 0, MillisecondPart::Minutes(minutes as u8), low);
    lemma_merged_plain_part(hours > 0, MillisecondPart::Hours(hours as u8), pm + low);
    lemma_merged_plain_part(days > 0, MillisecondPart::Days(days as u16), ph + (pm + low));
    lemma_merged_plain_part(years > 0, MillisecondPart::Years(years as u64), pd + (ph + (pm + low)));
}

} // verus!
