//! Turning a user's date and time of day into the moment a command is due.

use vstd::prelude::*;
use crate::calendar::{
    CalendarDate, Moment, date_parsed, date_text, days_in_month, following_day, minute_stamp,
    parse_date, two_digits,
};
use crate::error::CommandError;
use crate::text::{
    decimal, is_digit, digit_char, digit_value, is_numeral, lower_of, lowercase, numeral_value,
    padded_decimal, text_equals,
};

verus! {

/// How a date argument is read once it has been lowercased.
#[derive(Clone, Copy, Debug, PartialEq, Eq, Structural)]
pub enum DateWord {
    Today,
    Tomorrow,
    Calendar,
}

pub open spec fn date_word_of(lowered: Seq<char>) -> DateWord {
    if lowered == "today"@ {
        DateWord::Today
    } else if lowered == "tomorrow"@ {
        DateWord::Tomorrow
    } else {
        DateWord::Calendar
    }
}

pub open spec fn iso_pattern() -> Seq<char> {
    "%Y-%m-%d"@
}

/// The day a date argument names, given the caller's current day.
pub open spec fn resolved_date(date: Seq<char>, today: CalendarDate) -> Option<CalendarDate> {
    match date_word_of(lower_of(date)) {
        DateWord::Today => Some(today),
        DateWord::Tomorrow => if today.is_last() {
            None
        } else {
            Some(today.next())
        },
        DateWord::Calendar => date_parsed(date, iso_pattern()),
    }
}

/// `t` is two runs of digits around a colon at `k`.
pub open spec fn colon_splits(t: Seq<char>, k: int) -> bool {
    &&& 0 <= k < t.len()
    &&& t[k] == ':'
    &&& is_numeral(t.take(k))
    &&& is_numeral(t.skip(k + 1))
}

/// Hour and minute of an `HH:MM` text, when it is well formed and in range.
pub open spec fn clock_time_of(t: Seq<char>) -> Option<(nat, nat)> {
    if exists|k: int| colon_splits(t, k) {
        let k = choose|k: int| colon_splits(t, k);
        let h = numeral_value(t.take(k));
        let m = numeral_value(t.skip(k + 1));
        if h < 24 && m < 60 {
            Some((h, m))
        } else {
            None
        }
    } else {
        None
    }
}

/// The moment a schedule is due, or why the arguments are rejected.
pub open spec fn scheduled_moment(date: Seq<char>, time: Seq<char>, today: CalendarDate) -> Result<
    Moment,
    CommandError,
> {
    match resolved_date(date, today) {
        None => Err(CommandError::InvalidDate),
        Some(d) => match clock_time_of(time) {
            None => Err(CommandError::InvalidTime),
            Some((h, m)) => Ok(Moment { date: d, hour: h as u32, minute: m as u32, second: 0 }),
        },
    }
}

pub open spec fn capped(v: nat) -> nat {
    if v > 100 { 100 } else { v }
}

/// Classifies a lowercased date argument.
pub fn date_word(lowered: &str) -> (r: DateWord)
    ensures
        r == date_word_of(lowered@),
{
    if text_equals(lowered, "today") {
        DateWord::Today
    } else if text_equals(lowered, "tomorrow") {
        DateWord::Tomorrow
    } else {
        DateWord::Calendar
    }
}

/// Resolves `today`, `tomorrow` (in any letter case) or an ISO calendar date.
pub fn resolve_date(date: &str, today: &CalendarDate) -> (r: Result<CalendarDate, CommandError>)
    requires
        today.wf(),
    ensures
        r == (match resolved_date(date@, *today) {
            Some(d) => Ok(d),
            None => Err(CommandError::InvalidDate),
        }),
        r matches Ok(d) ==> d.wf(),
{
    let lowered = lowercase(date);
    let found = match date_word(lowered.as_str()) {
        DateWord::Today => Some(*today),
        DateWord::Tomorrow => following_day(today),
        DateWord::Calendar => parse_date(date, "%Y-%m-%d"),
    };
    match found {
        Some(d) => Ok(d),
        None => Err(CommandError::InvalidDate),
    }
}

/// Reads the digits of `t` between `from` and `to`, saturating at 100.
fn read_numeral(t: &str, from: usize, to: usize) -> (r: Option<u32>)
    requires
        from <= to <= t@.len(),
    ensures
        r is Some <==> is_numeral(t@.subrange(from as int, to as int)),
        r matches Some(v) ==> v == capped(numeral_value(t@.subrange(from as int, to as int))),
{
    if from == to {
        return None;
    }
    let mut v: u32 = 0;
    let mut i: usize = from;
    while i < to
        invariant
            from <= i <= to <= t@.len(),
            is_numeral(t@.subrange(from as int, i as int)) || i == from,
            v == capped(numeral_value(t@.subrange(from as int, i as int))),
        decreases to - i,
    {
        let c = t.get_char(i);
        let ghost before = t@.subrange(from as int, i as int);
        let ghost after = t@.subrange(from as int, i + 1);
        assert(after == before.push(c));
        assert(after.drop_last() == before);
        if c < '0' || c > '9' {
            assert(!is_numeral(t@.subrange(from as int, to as int))) by {
                assert(t@.subrange(from as int, to as int)[i - from] == c);
            }
            return None;
        }
        let d = (c as u32) - ('0' as u32);
        v = if v >= 100 { 100 } else if v * 10 + d > 100 { 100 } else { v * 10 + d };
        i = i + 1;
    }
    Some(v)
}

/// Reads an `HH:MM` time of day: two runs of digits around one colon, with
/// an hour below 24 and a minute below 60.
pub fn parse_clock_time(time: &str) -> (r: Result<(u32, u32), CommandError>)
    ensures
        r == (match clock_time_of(time@) {
            Some((h, m)) => Ok((h as u32, m as u32)),
            None => Err(CommandError::InvalidTime),
        }),
{
    let n = time.unicode_len();
    let ghost t = time@;
    let mut k: usize = 0;
    while k < n
        invariant
            t == time@,
            n == t.len(),
            k <= n,
            forall|j: int| 0 <= j < k ==> t[j] != ':',
        ensures
            k <= n,
            forall|j: int| 0 <= j < k ==> t[j] != ':',
            k < n ==> t[k as int] == ':',
        decreases n - k,
    {
        if time.get_char(k) == ':' {
            break;
        }
        k = k + 1;
    }
    if k == n {
        assert(!exists|j: int| colon_splits(t, j));
        return Err(CommandError::InvalidTime);
    }
    assert(t[k as int] == ':');
    let hour = read_numeral(time, 0, k);
    let minute = read_numeral(time, k + 1, n);
    assert(t.take(k as int) == t.subrange(0, k as int));
    assert(t.skip(k + 1) == t.subrange(k + 1, n as int));
    assert forall|j: int| j != k && #[trigger] colon_splits(t, j) implies false by {
        if j > k {
            assert(t.take(j)[k as int] == ':');
        }
    }
    match (hour, minute) {
        (Some(h), Some(m)) => {
            assert(colon_splits(t, k as int));
            if h < 24 && m < 60 {
                Ok((h, m))
            } else {
                Err(CommandError::InvalidTime)
            }
        },
        _ => {
            assert(!exists|j: int| colon_splits(t, j));
            Err(CommandError::InvalidTime)
        },
    }
}

/// Combines a resolved date and a validated time of day, seconds zero.
pub fn validate_schedule_time(date: &str, time: &str, today: &CalendarDate) -> (r: Result<
    Moment,
    CommandError,
>)
    requires
        today.wf(),
    ensures
        r == scheduled_moment(date@, time@, *today),
        r matches Ok(m) ==> m.wf(),
{
    let day = match resolve_date(date, today) {
        Ok(d) => d,
        Err(e) => return Err(e),
    };
    match parse_clock_time(time) {
        Ok((hour, minute)) => Ok(Moment { date: day, hour, minute, second: 0 }),
        Err(e) => Err(e),
    }
}

/// `HH:MM` with two-digit fields.
pub open spec fn clock_text(hour: u32, minute: u32) -> Seq<char> {
    two_digits(hour as int) + seq![':'] + two_digits(minute as int)
}

proof fn lemma_two_digit_numeral(s: Seq<char>)
    requires
        s.len() == 2,
        is_numeral(s),
    ensures
        numeral_value(s) < 100,
        two_digits(numeral_value(s) as int) == s,
{
    let a = s[0];
    let b = s[1];
    assert(is_digit(a) && is_digit(b));
    assert(s.drop_last().drop_last().len() == 0);
    assert(s.drop_last() =~= seq![a]);
    assert(numeral_value(seq![a]) == digit_value(a)) by {
        assert(seq![a].drop_last().len() == 0);
        reveal_with_fuel(numeral_value, 2);
    }
    let v = numeral_value(s);
    assert(v == digit_value(a) * 10 + digit_value(b));
    assert(digit_char(digit_value(a)) == a);
    assert(digit_char(digit_value(b)) == b);
    if digit_value(a) == 0 {
        assert(v == digit_value(b));
        assert(decimal(v) == seq![b]);
        reveal_with_fuel(padded_decimal, 3);
        assert(a == '0');
        assert(padded_decimal(v, 2) =~= s);
    } else {
        assert(v / 10 == digit_value(a));
        assert(v % 10 == digit_value(b));
        reveal_with_fuel(decimal, 2);
        assert(decimal(v) =~= s);
        reveal_with_fuel(padded_decimal, 2);
    }
}

/// A validated moment gives back exactly what was asked for: the day that the
/// date argument names, and the hour and minute that the time argument
/// writes, with seconds zero. Its stored stamp is that day's `YYYY-MM-DD`, a
/// `T`, and the time as `HH:MM`; a time argument already written with two
/// digits on each side of the colon comes back letter for letter.
pub proof fn validated_moment_round_trip(date: Seq<char>, time: Seq<char>, today: CalendarDate)
    requires
        today.wf(),
        scheduled_moment(date, time, today) is Ok,
    ensures
        ({
            let m = scheduled_moment(date, time, today)->Ok_0;
            &&& resolved_date(date, today) == Some(m.date)
            &&& clock_time_of(time) == Some((m.hour as nat, m.minute as nat))
            &&& m.second == 0
            &&& minute_stamp(m) == date_text(m.date) + seq!['T'] + clock_text(m.hour, m.minute)
            &&& (time.len() == 5 && time[2] == ':') ==> clock_text(m.hour, m.minute) == time
        }),
{
    let m = scheduled_moment(date, time, today)->Ok_0;
    assert(minute_stamp(m) =~= date_text(m.date) + seq!['T'] + clock_text(m.hour, m.minute));
    if time.len() == 5 && time[2] == ':' {
        let k = choose|k: int| colon_splits(time, k);
        assert(colon_splits(time, k));
        if k < 2 {
            assert(time.skip(k + 1)[1 - k] == ':');
        } else if k > 2 {
            assert(time.take(k)[2] == ':');
        }
        assert(k == 2);
        lemma_two_digit_numeral(time.take(2));
        lemma_two_digit_numeral(time.skip(3));
        assert(clock_text(m.hour, m.minute) =~= time);
    }
}

/// Whenever the date is valid, a time that is not two runs of digits around
/// a single colon, or whose hour is 24 or more, or whose minute is 60 or
/// more, is rejected as an invalid time.
pub proof fn malformed_time_rejected(date: Seq<char>, time: Seq<char>, today: CalendarDate)
    requires
        resolved_date(date, today) is Some,
        forall|k: int|
            #![trigger colon_splits(time, k)]
            colon_splits(time, k) ==> numeral_value(time.take(k)) >= 24 || numeral_value(
                time.skip(k + 1),
            ) >= 60,
    ensures
        scheduled_moment(date, time, today) == Err::<Moment, CommandError>(
            CommandError::InvalidTime,
        ),
{
    if exists|k: int| colon_splits(time, k) {
        let k = choose|k: int| colon_splits(time, k);
        assert(colon_splits(time, k));
    }
}

/// `today` and `tomorrow`, in any letter case, name the caller's current day
/// and the day after it; the time of day plays no part.
pub proof fn symbolic_dates_follow_today(date: Seq<char>, today: CalendarDate)
    requires
        today.wf(),
    ensures
        lower_of(date) == "today"@ ==> resolved_date(date, today) == Some(today),
        lower_of(date) == "tomorrow"@ && !today.is_last() ==> resolved_date(date, today) == Some(
            today.next(),
        ) && today.next().wf(),
{
    reveal_strlit("today");
    reveal_strlit("tomorrow");
    if lower_of(date) == "tomorrow"@ {
        assert(lower_of(date).len() != "today"@.len());
    }
    let n = today.next();
    assert(days_in_month(today.year as int, 1) == 31);
}

} // verus!
