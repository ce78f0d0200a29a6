//! Times as they are shown, on the clock of this machine.
use chrono::{FixedOffset, Local, TimeZone};
use vstd::prelude::*;
use vstd::string::*;

use crate::calendar::{day_at, day_number, day_text, local_day, stamp_at, Date, DAY};
use crate::text::text_opt;

verus! {

/// The first second that a date can be given for.
pub const FIRST_SECOND: i64 = -8_334_601_228_800;

/// The last second that a date can be given for.
pub const LAST_SECOND: i64 = 8_210_266_876_799;

/// How a date and time are written.
pub const STAMP_FORMAT: &'static str = "%d.%m.%y %H:%M:%S";

/// How a day is written.
pub const DAY_FORMAT: &'static str = "%Y-%m-%d";

/// Whether a clock may be `offset` seconds ahead of UTC: by less than a day.
pub open spec fn is_offset(offset: int) -> bool {
    -DAY < offset < DAY
}

/// Whether `text` is the date and time of `seconds` on some clock.
pub open spec fn is_time_of(text: Seq<char>, seconds: int) -> bool {
    exists|offset: int| is_offset(offset) && text == #[trigger] stamp_at(seconds, offset)
}

/// Whether `text` is the date and time of some second from 1970 on, as the current one is.
pub open spec fn is_some_time(text: Seq<char>) -> bool {
    exists|now: int| 0 <= now <= LAST_SECOND && #[trigger] is_time_of(text, now)
}

/// The time that is shown for a timestamp: its own where it has a date, on a clock `offset`
/// seconds ahead of UTC, and otherwise the current one, `now` on a clock `now_offset`
/// seconds ahead.
pub open spec fn time_text(
    seconds: Option<i64>,
    offset: int,
    now: int,
    now_offset: int,
) -> Seq<char> {
    match seconds {
        Some(s) => if FIRST_SECOND <= s <= LAST_SECOND {
            stamp_at(s as int, offset)
        } else {
            stamp_at(now, now_offset)
        },
        None => stamp_at(now, now_offset),
    }
}

/// Whether `text` is the time that is shown for a timestamp, on some clock and at some
/// current time.
pub open spec fn is_shown_time(text: Seq<char>, seconds: Option<i64>) -> bool {
    exists|offset: int, now: int, now_offset: int|
        is_offset(offset) && 0 <= now <= LAST_SECOND && is_offset(now_offset) && text
            == #[trigger] time_text(seconds, offset, now, now_offset)
}

/// Whether a date can be given for `seconds` on a clock `offset` seconds ahead of UTC.
pub open spec fn has_date(seconds: int, offset: int) -> bool {
    FIRST_SECOND <= seconds <= LAST_SECOND && is_offset(offset)
}

/// Calls `chrono::Local.timestamp_opt`, and `offset` on what it gives. Claims that there
/// is a date for exactly the seconds from `FIRST_SECOND` to `LAST_SECOND`, and that the
/// clock is then less than a day ahead of or behind UTC. By how much depends on the time
/// zone of the machine and is not claimed. Where a machine is set to a zone a day or more
/// from UTC, `chrono` has no dates and panics.
#[verifier::external_body]
fn local_offset(seconds: i64) -> (r: Option<i32>)
    ensures
        r is Some <==> FIRST_SECOND <= seconds <= LAST_SECOND,
        r matches Some(offset) ==> is_offset(offset as int),
{
    Local.timestamp_opt(seconds, 0).single().map(|at| at.offset().local_minus_utc())
}

/// Calls `chrono::Local::now`, and `timestamp` and `offset` on what it gives: the current
/// second, and how far the clock is ahead of UTC. Claims that it is a second from 1970 on
/// that has a date, on a clock less than a day ahead of or behind UTC; the rest is the
/// machine's. Where the machine's clock stands before 1970, or its zone lies a day or more
/// from UTC, `chrono` panics.
#[verifier::external_body]
fn local_now() -> (r: (i64, i32))
    ensures
        0 <= r.0 <= LAST_SECOND,
        is_offset(r.1 as int),
{
    let now = Local::now();
    (now.timestamp(), now.offset().local_minus_utc())
}

/// Calls `chrono::FixedOffset::east_opt`, `timestamp_opt` on the zone that it gives, and
/// `format` on the time. Claims that there is a date exactly where `has_date` says so, and
/// that it is the one of the civil calendar, written in the given format.
#[verifier::external_body]
fn format_on(seconds: i64, offset: i32, format: &str) -> (r: Option<String>)
    requires
        format@ == STAMP_FORMAT@ || format@ == DAY_FORMAT@,
    ensures
        r is Some <==> has_date(seconds as int, offset as int),
        r matches Some(s) ==> (format@ == STAMP_FORMAT@ ==> s@ == stamp_at(
            seconds as int,
            offset as int,
        )),
        r matches Some(s) ==> (format@ == DAY_FORMAT@ ==> s@ == day_at(
            seconds as int,
            offset as int,
        )),
{
    let zone = FixedOffset::east_opt(offset)?;
    zone.timestamp_opt(seconds, 0).single().map(|at| at.format(format).to_string())
}

/// The date and time of `seconds` on a clock `offset` seconds ahead of UTC, where it has a
/// date.
pub fn stamp_on(seconds: i64, offset: i32) -> (r: Option<String>)
    ensures
        text_opt(r) == (if has_date(seconds as int, offset as int) {
            Some(stamp_at(seconds as int, offset as int))
        } else {
            None
        }),
{
    format_on(seconds, offset, STAMP_FORMAT)
}

/// The day of `seconds` on a clock `offset` seconds ahead of UTC, where it has a date.
pub fn day_on(seconds: i64, offset: i32) -> (r: Option<String>)
    ensures
        text_opt(r) == (if has_date(seconds as int, offset as int) {
            Some(day_at(seconds as int, offset as int))
        } else {
            None
        }),
{
    format_on(seconds, offset, DAY_FORMAT)
}

/// The current date and time.
pub fn current_stamp() -> (r: String)
    ensures
        is_some_time(r@),
{
    let (now, offset): (i64, i32) = local_now();
    match stamp_on(now, offset) {
        Some(stamp) => {
            assert(is_time_of(stamp@, now as int));
            stamp
        },
        None => String::new(),
    }
}

/// The local date and time of a timestamp, in whole seconds; the current time where
/// there is no timestamp or no date for it.
pub fn format_slack_ts(seconds: Option<i64>) -> (r: String)
    ensures
        is_shown_time(r@, seconds),
{
    if let Some(s) = seconds {
        if let Some(offset) = local_offset(s) {
            if let Some(stamp) = stamp_on(s, offset) {
                assert(is_offset(0));
                assert(stamp@ == time_text(seconds, offset as int, 0, 0));
                return stamp;
            }
        }
    }
    let stamp: String = current_stamp();
    proof {
        let now = choose|now: int| 0 <= now <= LAST_SECOND && #[trigger] is_time_of(stamp@, now);
        let offset = choose|offset: int|
            is_offset(offset) && stamp@ == #[trigger] stamp_at(now, offset);
        assert(stamp@ == time_text(seconds, offset, now, offset));
    }
    stamp
}

/// The times of a list of timestamps.
pub fn format_all(seconds: &Vec<Option<i64>>) -> (r: Vec<String>)
    ensures
        r@.len() == seconds@.len(),
        forall|i: int| 0 <= i < r@.len() ==> is_shown_time(#[trigger] r@[i]@, seconds@[i]),
{
    let mut r: Vec<String> = Vec::new();
    let mut i: usize = 0;
    while i < seconds.len()
        invariant
            i <= seconds@.len(),
            r@.len() == i,
            forall|j: int| 0 <= j < r@.len() ==> is_shown_time(#[trigger] r@[j]@, seconds@[j]),
        decreases seconds@.len() - i,
    {
        r.push(format_slack_ts(seconds[i]));
        i += 1;
    }
    r
}

/// The search query for messages after `day`.
pub open spec fn query_after(day: Seq<char>) -> Seq<char> {
    "after:"@ + day
}

/// The search query for messages after `day`.
pub fn day_query(day: &str) -> (r: String)
    ensures
        r@ == query_after(day@),
{
    let mut query: String = "after:".to_owned();
    query.append(day);
    query
}

/// Whether `query` searches for every message from `oldest` on, in seconds, on some clock.
pub open spec fn covers_all_from(query: Seq<char>, oldest: int) -> bool {
    exists|offset: int|
        is_offset(offset) && query == query_after(#[trigger] day_at(oldest - DAY, offset))
}

/// The search query that covers every message from `oldest` on, in seconds; none where
/// there is no date for that. Search goes by days only, so it asks for one day more.
pub fn search_query(oldest: i64) -> (r: Option<String>)
    requires
        oldest < FIRST_SECOND || FIRST_SECOND + DAY <= oldest,
    ensures
        r is Some <==> FIRST_SECOND <= oldest <= LAST_SECOND,
        r matches Some(q) ==> exists|offset: int|
            is_offset(offset) && q@ == query_after(#[trigger] day_at(oldest - DAY, offset)),
        r matches Some(q) ==> covers_all_from(q@, oldest as int),
{
    if oldest < FIRST_SECOND || oldest > LAST_SECOND {
        return None;
    }
    match local_offset(oldest - DAY) {
        Some(offset) => match day_on(oldest - DAY, offset) {
            Some(day) => Some(day_query(day.as_str())),
            None => None,
        },
        None => None,
    }
}

// ---------------------------------------------------------------------------
// Laws.
// ---------------------------------------------------------------------------

/// A timestamp with a date is always shown by the same text on one clock, whatever the
/// current time is; and one without a date by the current time, whatever it holds.
pub proof fn law_one_second_has_one_text(
    seconds: Option<i64>,
    other: Option<i64>,
    offset: int,
    now: int,
    now_offset: int,
    later: int,
    later_offset: int,
)
    ensures
        seconds matches Some(s) ==> (FIRST_SECOND <= s <= LAST_SECOND ==> time_text(
            seconds,
            offset,
            now,
            now_offset,
        ) == time_text(seconds, offset, later, later_offset)),
        (seconds matches Some(s) ==> !(FIRST_SECOND <= s <= LAST_SECOND)) && (other matches Some(s)
            ==> !(FIRST_SECOND <= s <= LAST_SECOND)) ==> time_text(seconds, offset, now, now_offset)
            == time_text(other, offset, now, now_offset),
{
}

/// The day that a search asks for is the day before the oldest moment, and every moment
/// from then on falls on a later day, so that a search after that day misses none of
/// them. Both on the same clock.
pub proof fn law_search_misses_nothing(oldest: int, moment: int, offset: int)
    requires
        oldest <= moment,
    ensures
        day_at(oldest - DAY, offset) == day_text(local_day(oldest, offset) - 1),
        local_day(oldest - DAY, offset) < local_day(moment, offset),
{
}

/// A message is shown with its own time where that has a date, and with the time at which
/// it is shown otherwise.
pub proof fn law_messages_are_shown_with_their_time(
    seconds: i64,
    offset: int,
    now: int,
    now_offset: int,
)
    ensures
        FIRST_SECOND <= seconds <= LAST_SECOND ==> time_text(
            Some(seconds),
            offset,
            now,
            now_offset,
        ) == stamp_at(seconds as int, offset),
        seconds < FIRST_SECOND || seconds > LAST_SECOND ==> time_text(
            Some(seconds),
            offset,
            now,
            now_offset,
        ) == stamp_at(now, now_offset),
        time_text(None, offset, now, now_offset) == stamp_at(now, now_offset),
{
}

/// The search asks for what is younger than a day.
pub proof fn law_queries_name_the_day(day: Seq<char>)
    ensures
        query_after(day) == seq!['a', 'f', 't', 'e', 'r', ':'] + day,
{
    reveal_strlit("after:");
    assert("after:"@ =~= seq!['a', 'f', 't', 'e', 'r', ':']);
}

/// A query that covers all from a moment on names a day that ended, on the clock that it was
/// named by, before that moment's own day began, and no day before the last such.
pub proof fn law_queries_cover_every_moment(query: Seq<char>, oldest: int)
    requires
        covers_all_from(query, oldest),
    ensures
        exists|offset: int|
            -86_400 < offset < 86_400 && query == seq!['a', 'f', 't', 'e', 'r', ':']
                + #[trigger] day_text(local_day(oldest, offset) - 1),
{
    let offset = choose|offset: int|
        is_offset(offset) && query == query_after(#[trigger] day_at(oldest - DAY, offset));
    law_search_misses_nothing(oldest, oldest, offset);
    law_queries_name_the_day(day_at(oldest - DAY, offset));
}

/// A text shown for a timestamp with a date is the time of that second on some clock, and
/// one shown for any other is the time of some second since 1970.
pub proof fn law_shown_times(text: Seq<char>, seconds: Option<i64>)
    requires
        is_shown_time(text, seconds),
    ensures
        seconds matches Some(s) ==> (FIRST_SECOND <= s <= LAST_SECOND ==> exists|offset: int|
            -86_400 < offset < 86_400 && text == #[trigger] stamp_at(s as int, offset)),
        (seconds matches Some(s) ==> s < FIRST_SECOND || s > LAST_SECOND) ==> exists|
            now: int,
            offset: int,
        |
            0 <= now <= LAST_SECOND && -86_400 < offset < 86_400 && text == #[trigger] stamp_at(
                now,
                offset,
            ),
{
    let (offset, now, now_offset) = choose|offset: int, now: int, now_offset: int|
        is_offset(offset) && 0 <= now <= LAST_SECOND && is_offset(now_offset) && text
            == #[trigger] time_text(seconds, offset, now, now_offset);
    assert(text == time_text(seconds, offset, now, now_offset));
}

/// Dates can be given from the first second of the year -262143 to the last one before the
/// year 262143, on clocks less than a day from UTC.
pub proof fn law_seconds_with_a_date(seconds: int, offset: int)
    ensures
        has_date(seconds, offset) <==> 86_400 * day_number(
            (Date { year: -262_143, month: 1, day: 1 }),
        ) <= seconds < 86_400 * day_number((Date { year: 262_143, month: 1, day: 1 })) && -86_400
            < offset < 86_400,
{
    assert(day_number(Date { year: -262_143, month: 1, day: 1 }) == -96_465_292);
    assert(day_number(Date { year: 262_143, month: 1, day: 1 }) == 95_026_237);
}

} // verus!
