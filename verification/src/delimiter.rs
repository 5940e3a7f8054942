//! The delimiter line that opens every message of an archive.
//!
//! A delimiter has the form
//! `From MAILER-DAEMON <weekday> <month> <day> <HH:MM:SS> <year>\n`.
//! Its calendar fields are fixed approximations of the seconds elapsed since
//! the 1970 epoch (31-day months, 365-day years, weekday zero on the epoch),
//! kept as they are so that archives stay byte-compatible.

use crate::clock::seconds_since_epoch;
use vstd::prelude::*;

verus! {

/// Seconds in a day.
pub const SECONDS_PER_DAY: u64 = 86_400;

/// Seconds in the fixed-length month used for the month field.
pub const SECONDS_PER_MONTH: u64 = 2_628_000;

/// Seconds in the fixed-length year used for the year field.
pub const SECONDS_PER_YEAR: u64 = 31_536_000;

/// The line terminator.
pub const NEWLINE: u8 = 10;

/// The ASCII space.
pub const SPACE: u8 = 32;

/// The ASCII colon.
pub const COLON: u8 = 58;

/// The ASCII digit for `d % 10`; the digits run from 48, which is `0`.
pub open spec fn digit(d: nat) -> u8 {
    (48 + d % 10) as u8
}

/// The decimal numeral of `n`, without padding.
pub open spec fn decimal(n: nat) -> Seq<u8>
    decreases n,
{
    if n < 10 {
        seq![digit(n)]
    } else {
        decimal(n / 10).push(digit(n % 10))
    }
}

/// The decimal numeral of `n`, padded with a zero to two digits where it has only one.
pub open spec fn two_digits(n: nat) -> Seq<u8> {
    if n < 10 {
        seq![digit(0), digit(n)]
    } else {
        decimal(n)
    }
}

/// The day-name table, indexed from `Sun`.
pub open spec fn weekday_name(index: nat) -> Seq<u8> {
    if index == 0 {
        seq![83u8, 117u8, 110u8]  // Sun
    } else if index == 1 {
        seq![77u8, 111u8, 110u8]  // Mon
    } else if index == 2 {
        seq![84u8, 117u8, 101u8]  // Tue
    } else if index == 3 {
        seq![87u8, 101u8, 100u8]  // Wed
    } else if index == 4 {
        seq![84u8, 104u8, 117u8]  // Thu
    } else if index == 5 {
        seq![70u8, 114u8, 105u8]  // Fri
    } else {
        seq![83u8, 97u8, 116u8]  // Sat
    }
}

/// The month-name table, indexed from `Jan`.
pub open spec fn month_name(index: nat) -> Seq<u8> {
    if index == 0 {
        seq![74u8, 97u8, 110u8]  // Jan
    } else if index == 1 {
        seq![70u8, 101u8, 98u8]  // Feb
    } else if index == 2 {
        seq![77u8, 97u8, 114u8]  // Mar
    } else if index == 3 {
        seq![65u8, 112u8, 114u8]  // Apr
    } else if index == 4 {
        seq![77u8, 97u8, 121u8]  // May
    } else if index == 5 {
        seq![74u8, 117u8, 110u8]  // Jun
    } else if index == 6 {
        seq![74u8, 117u8, 108u8]  // Jul
    } else if index == 7 {
        seq![65u8, 117u8, 103u8]  // Aug
    } else if index == 8 {
        seq![83u8, 101u8, 112u8]  // Sep
    } else if index == 9 {
        seq![79u8, 99u8, 116u8]  // Oct
    } else if index == 10 {
        seq![78u8, 111u8, 118u8]  // Nov
    } else {
        seq![68u8, 101u8, 99u8]  // Dec
    }
}

/// Index into the day-name table: whole days since the epoch, modulo 7.
pub open spec fn weekday_index(secs: nat) -> nat {
    (secs / (SECONDS_PER_DAY as nat)) % 7
}

/// Index into the month-name table: whole fixed-length months, modulo 12.
pub open spec fn month_index(secs: nat) -> nat {
    (secs / (SECONDS_PER_MONTH as nat)) % 12
}

/// Day of the month, every month taken as 31 days long.
pub open spec fn day_of_month(secs: nat) -> nat {
    (secs / (SECONDS_PER_DAY as nat)) % 31 + 1
}

/// Hour of the day.
pub open spec fn hour_of_day(secs: nat) -> nat {
    (secs / 3_600) % 24
}

/// Minute of the hour.
pub open spec fn minute_of_hour(secs: nat) -> nat {
    (secs / 60) % 60
}

/// Second of the minute.
pub open spec fn second_of_minute(secs: nat) -> nat {
    secs % 60
}

/// The year, every year taken as 365 days long.
pub open spec fn year_of(secs: nat) -> nat {
    1970 + secs / (SECONDS_PER_YEAR as nat)
}

/// The bytes of `From MAILER-DAEMON `, which open every synthesized delimiter.
pub open spec fn sender_prefix() -> Seq<u8> {
    // F r o m _ M A I L E R - D A E M O N _
    seq![
        70u8, 114u8, 111u8, 109u8, SPACE, 77u8, 65u8, 73u8, 76u8, 69u8, 82u8, 45u8, 68u8, 65u8,
        69u8, 77u8, 79u8, 78u8, SPACE,
    ]
}

/// The clock field `HH:MM:SS`.
pub open spec fn clock_field(secs: nat) -> Seq<u8> {
    two_digits(hour_of_day(secs)) + seq![COLON] + two_digits(minute_of_hour(secs)) + seq![COLON]
        + two_digits(second_of_minute(secs))
}

/// The delimiter line for a moment `secs` seconds after the epoch.
pub open spec fn from_line(secs: nat) -> Seq<u8> {
    sender_prefix() + weekday_name(weekday_index(secs)) + seq![SPACE] + month_name(
        month_index(secs),
    ) + seq![SPACE] + decimal(day_of_month(secs)) + seq![SPACE] + clock_field(secs) + seq![SPACE]
        + decimal(year_of(secs)) + seq![NEWLINE]
}

/// Whether `line` is the delimiter line of some moment.
pub open spec fn is_from_line(line: Seq<u8>) -> bool {
    exists|secs: u64| line == from_line(secs as nat)
}

/// Whether no byte of `bytes` is a line terminator.
pub open spec fn has_no_newline(bytes: Seq<u8>) -> bool {
    forall|i: int| 0 <= i < bytes.len() ==> bytes[i] != NEWLINE
}

/// Whether `line` is exactly one line: it ends with a line terminator and holds no other.
pub open spec fn is_single_line(line: Seq<u8>) -> bool {
    line.len() > 0 && line.last() == NEWLINE && has_no_newline(line.drop_last())
}

/// A decimal numeral is not empty and holds ASCII digits only.
pub proof fn lemma_decimal_digits(n: nat)
    ensures
        decimal(n).len() >= 1,
        forall|i: int| 0 <= i < decimal(n).len() ==> 48 <= #[trigger] decimal(n)[i] <= 57,
    decreases n,
{
    if n >= 10 {
        lemma_decimal_digits(n / 10);
    }
}

/// Joining two runs of bytes that hold no line terminator gives one that holds none.
pub proof fn lemma_join_has_no_newline(left: Seq<u8>, right: Seq<u8>)
    requires
        has_no_newline(left),
        has_no_newline(right),
    ensures
        has_no_newline(left + right),
{
}

/// The clock field holds no line terminator.
proof fn lemma_clock_field_has_no_newline(secs: nat)
    ensures
        has_no_newline(clock_field(secs)),
{
    lemma_decimal_digits(hour_of_day(secs));
    lemma_decimal_digits(minute_of_hour(secs));
    lemma_decimal_digits(second_of_minute(secs));
    let hours = two_digits(hour_of_day(secs));
    let minutes = two_digits(minute_of_hour(secs));
    let seconds = two_digits(second_of_minute(secs));
    let colon = seq![COLON];
    assert(has_no_newline(hours));
    assert(has_no_newline(minutes));
    assert(has_no_newline(seconds));
    assert(has_no_newline(colon));
    lemma_join_has_no_newline(hours, colon);
    lemma_join_has_no_newline(hours + colon, minutes);
    lemma_join_has_no_newline(hours + colon + minutes, colon);
    lemma_join_has_no_newline(hours + colon + minutes + colon, seconds);
}

/// Every delimiter opens with `From MAILER-DAEMON ` and is exactly one line.
pub proof fn lemma_from_line_is_one_line(secs: nat)
    ensures
        from_line(secs).len() > sender_prefix().len(),
        from_line(secs).subrange(0, sender_prefix().len() as int) == sender_prefix(),
        is_single_line(from_line(secs)),
{
    let day = decimal(day_of_month(secs));
    let year = decimal(year_of(secs));
    lemma_decimal_digits(day_of_month(secs));
    lemma_decimal_digits(year_of(secs));
    let gap = seq![SPACE];
    let a = sender_prefix() + weekday_name(weekday_index(secs));
    let b = a + gap;
    let c = b + month_name(month_index(secs));
    let d = c + gap;
    let e = d + day;
    let f = e + gap;
    let g = f + clock_field(secs);
    let h = g + gap;
    let body = h + year;
    assert(has_no_newline(sender_prefix()));
    assert(has_no_newline(weekday_name(weekday_index(secs))));
    assert(has_no_newline(month_name(month_index(secs))));
    assert(has_no_newline(gap));
    assert(has_no_newline(day));
    assert(has_no_newline(year));
    lemma_clock_field_has_no_newline(secs);
    lemma_join_has_no_newline(sender_prefix(), weekday_name(weekday_index(secs)));
    lemma_join_has_no_newline(a, gap);
    lemma_join_has_no_newline(b, month_name(month_index(secs)));
    lemma_join_has_no_newline(c, gap);
    lemma_join_has_no_newline(d, day);
    lemma_join_has_no_newline(e, gap);
    lemma_join_has_no_newline(f, clock_field(secs));
    lemma_join_has_no_newline(g, gap);
    lemma_join_has_no_newline(h, year);
    assert(from_line(secs) == body + seq![NEWLINE]);
    assert(from_line(secs).drop_last() =~= body);
    assert(from_line(secs).subrange(0, sender_prefix().len() as int) =~= sender_prefix());
}

fn append_weekday(out: &mut Vec<u8>, index: u64)
    requires
        index < 7,
    ensures
        final(out)@ == old(out)@ + weekday_name(index as nat),
{
    let name: Vec<u8> = if index == 0 {
        vec![83u8, 117u8, 110u8]  // Sun
    } else if index == 1 {
        vec![77u8, 111u8, 110u8]  // Mon
    } else if index == 2 {
        vec![84u8, 117u8, 101u8]  // Tue
    } else if index == 3 {
        vec![87u8, 101u8, 100u8]  // Wed
    } else if index == 4 {
        vec![84u8, 104u8, 117u8]  // Thu
    } else if index == 5 {
        vec![70u8, 114u8, 105u8]  // Fri
    } else {
        vec![83u8, 97u8, 116u8]  // Sat
    };
    assert(name@ =~= weekday_name(index as nat));
    out.extend_from_slice(name.as_slice());
}

fn append_month(out: &mut Vec<u8>, index: u64)
    requires
        index < 12,
    ensures
        final(out)@ == old(out)@ + month_name(index as nat),
{
    let name: Vec<u8> = if index == 0 {
        vec![74u8, 97u8, 110u8]  // Jan
    } else if index == 1 {
        vec![70u8, 101u8, 98u8]  // Feb
    } else if index == 2 {
        vec![77u8, 97u8, 114u8]  // Mar
    } else if index == 3 {
        vec![65u8, 112u8, 114u8]  // Apr
    } else if index == 4 {
        vec![77u8, 97u8, 121u8]  // May
    } else if index == 5 {
        vec![74u8, 117u8, 110u8]  // Jun
    } else if index == 6 {
        vec![74u8, 117u8, 108u8]  // Jul
    } else if index == 7 {
        vec![65u8, 117u8, 103u8]  // Aug
    } else if index == 8 {
        vec![83u8, 101u8, 112u8]  // Sep
    } else if index == 9 {
        vec![79u8, 99u8, 116u8]  // Oct
    } else if index == 10 {
        vec![78u8, 111u8, 118u8]  // Nov
    } else {
        vec![68u8, 101u8, 99u8]  // Dec
    };
    assert(name@ =~= month_name(index as nat));
    out.extend_from_slice(name.as_slice());
}

fn digit_byte(d: u64) -> (b: u8)
    requires
        d < 10,
    ensures
        b == digit(d as nat),
{
    48u8 + (d as u8)
}

/// Appends the unpadded decimal numeral of `n` to `out`.
pub fn append_decimal(out: &mut Vec<u8>, n: u64)
    ensures
        final(out)@ == old(out)@ + decimal(n as nat),
    decreases n,
{
    if n >= 10 {
        append_decimal(out, n / 10);
    }
    out.push(digit_byte(n % 10));
    assert(final(out)@ =~= old(out)@ + decimal(n as nat));
}

/// Appends the decimal numeral of `n` to `out`, padded with a zero to two digits.
pub fn append_two_digits(out: &mut Vec<u8>, n: u64)
    ensures
        final(out)@ == old(out)@ + two_digits(n as nat),
{
    if n < 10 {
        out.push(digit_byte(0));
        out.push(digit_byte(n));
        assert(final(out)@ =~= old(out)@ + two_digits(n as nat));
    } else {
        append_decimal(out, n);
    }
}

/// The delimiter line for a moment `secs` seconds after the epoch.
pub fn from_line_at(secs: u64) -> (line: Vec<u8>)
    ensures
        line@ == from_line(secs as nat),
{
    // F r o m _ M A I L E R - D A E M O N _
    let mut line: Vec<u8> = vec![
        70u8, 114u8, 111u8, 109u8, SPACE, 77u8, 65u8, 73u8, 76u8, 69u8, 82u8, 45u8, 68u8, 65u8,
        69u8, 77u8, 79u8, 78u8, SPACE,
    ];
    assert(line@ =~= sender_prefix());
    let days: u64 = secs / SECONDS_PER_DAY;
    append_weekday(&mut line, days % 7);
    line.push(SPACE);
    append_month(&mut line, (secs / SECONDS_PER_MONTH) % 12);
    line.push(SPACE);
    append_decimal(&mut line, days % 31 + 1);
    line.push(SPACE);
    append_two_digits(&mut line, (secs / 3_600) % 24);
    line.push(COLON);
    append_two_digits(&mut line, (secs / 60) % 60);
    line.push(COLON);
    append_two_digits(&mut line, secs % 60);
    line.push(SPACE);
    append_decimal(&mut line, 1970 + secs / SECONDS_PER_YEAR);
    line.push(NEWLINE);
    assert(line@ =~= from_line(secs as nat));
    line
}

/// The delimiter line for the current moment of the system clock.
///
/// Two calls may give different lines; each is the delimiter of some moment.
pub fn generate_from_line() -> (line: Vec<u8>)
    ensures
        is_from_line(line@),
{
    let secs: u64 = seconds_since_epoch();
    from_line_at(secs)
}

} // verus!
