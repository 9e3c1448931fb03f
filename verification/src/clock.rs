//! Time stamps and how old they are.

use vstd::prelude::*;

use crate::text::is_digit;

verus! {

/// A point in time: the seconds since the start of 1970 in UTC, leap seconds not
/// counted, and the nanoseconds past that second, from 1 000 000 000 on inside
/// a leap second.
pub type Instant = (i64, u32);

/// How long an empty room can exist before being cleaned up: five minutes, in
/// nanoseconds.
pub const ROOM_TTL: i128 = 300_000_000_000;

/// The point in time that an RFC 3339 time stamp stands for, if it is one.
pub uninterp spec fn rfc3339_instant(stamp: Seq<char>) -> Option<(i64, u32)>;

/// Whether the characters of `s` from `from` up to `to` are decimal digits.
pub open spec fn digits_at(s: Seq<char>, from: int, to: int) -> bool {
    forall|i: int| from <= i < to ==> is_digit(#[trigger] s[i])
}

/// Whether `stamp` has the form of a time stamp in UTC whose year takes the first
/// `y` characters: four digits, or a plus sign and at least five. Then come the
/// month, the day, the hour, the minute and the second with two digits each, a
/// fraction of three, six or nine digits or none, and the offset.
pub open spec fn stamp_form(stamp: Seq<char>, y: int) -> bool {
    let fraction = stamp.len() - y - 21;
    &&& y == 4 && digits_at(stamp, 0, 4) || y >= 6 && stamp[0] == '+' && digits_at(stamp, 1, y)
    &&& stamp[y] == '-' && digits_at(stamp, y + 1, y + 3)
    &&& stamp[y + 3] == '-' && digits_at(stamp, y + 4, y + 6)
    &&& stamp[y + 6] == 'T' && digits_at(stamp, y + 7, y + 9)
    &&& stamp[y + 9] == ':' && digits_at(stamp, y + 10, y + 12)
    &&& stamp[y + 12] == ':' && digits_at(stamp, y + 13, y + 15)
    &&& fraction == 0 || (fraction == 4 || fraction == 7 || fraction == 10) && stamp[y + 15]
        == '.' && digits_at(stamp, y + 16, y + 15 + fraction)
    &&& "+00:00"@.is_suffix_of(stamp)
}

/// What holds of every time stamp that the clock gives: it has the form of one in
/// UTC, and it can be read back, unless it begins with the sign that years past
/// 9999 carry.
pub open spec fn clock_stamp(stamp: Seq<char>) -> bool {
    &&& exists|y: int| #[trigger] stamp_form(stamp, y)
    &&& stamp[0] != '+' ==> rfc3339_instant(stamp) is Some
}

/// Reads an RFC 3339 time stamp with `chrono::DateTime::parse_from_rfc3339`, and
/// takes the instant that it stands for from the `timestamp` and the
/// `timestamp_subsec_nanos` of what was read.
///
/// The contract says that the outcome depends on the text alone, and gives it a
/// name.
#[verifier::external_body]
pub(crate) fn parse_from_rfc3339(stamp: &str) -> (instant: Option<(i64, u32)>)
    ensures
        instant == rfc3339_instant(stamp@),
{
    match chrono::DateTime::parse_from_rfc3339(stamp) {
        Ok(t) => Some((t.timestamp(), t.timestamp_subsec_nanos())),
        Err(_) => None,
    }
}

/// The time stamp of this moment: `chrono::Utc::now` written out by
/// `chrono::DateTime::to_rfc3339`.
///
/// The contract says what holds at any moment: the form of the text, with the
/// offset of UTC, and that it reads back as a time stamp where the year has four
/// digits. Which
/// moment it stands for is left open, since that is for the machine's clock to
/// say. `chrono::Utc::now` panics on a clock that stands before 1970 or past the
/// years that a `chrono::DateTime` can hold.
#[verifier::external_body]
pub(crate) fn now_rfc3339() -> (stamp: String)
    ensures
        clock_stamp(stamp@),
{
    chrono::Utc::now().to_rfc3339()
}

/// The second of its day in which `t` lies.
pub open spec fn second_of_day(t: Instant) -> int {
    t.0 as int % 86_400
}

/// The nanoseconds from `then` to `now`, negative where `then` is the later. A
/// leap second counts where one of the two lies in it and the other lies at
/// another time of the day, on its far side.
pub open spec fn nanos_between(then: Instant, now: Instant) -> int {
    let leap: int = if second_of_day(now) > second_of_day(then) && then.1 >= 1_000_000_000 {
        1
    } else if second_of_day(now) < second_of_day(then) && now.1 >= 1_000_000_000 {
        -1
    } else {
        0
    };
    (now.0 - then.0 + leap) * 1_000_000_000 + (now.1 - then.1)
}

/// Whether something made at `created` has outlived an empty room's time at
/// `now`. What cannot be read never expires.
pub open spec fn expired(created: Option<Instant>, now: Option<Instant>) -> bool {
    match (created, now) {
        (Some(c), Some(n)) => nanos_between(c, n) > ROOM_TTL,
        _ => false,
    }
}

/// The second of its day in which `t` lies.
fn second_of_day_at(t: Instant) -> (s: i128)
    ensures
        s == second_of_day(t),
{
    // A multiple of a day that makes every 64-bit count of seconds positive.
    let shifted: i128 = t.0 as i128 + 86_400 * 200_000_000_000_000;
    assert(shifted % 86_400 == t.0 as int % 86_400) by (nonlinear_arith)
        requires
            shifted == t.0 + 86_400 * 200_000_000_000_000,
    ;
    shifted % 86_400
}

/// The nanoseconds from `then` to `now`.
pub fn nanos_from(then: Instant, now: Instant) -> (nanos: i128)
    ensures
        nanos == nanos_between(then, now),
{
    let day_now: i128 = second_of_day_at(now);
    let day_then: i128 = second_of_day_at(then);
    let leap: i128 = if day_now > day_then && then.1 >= 1_000_000_000 {
        1
    } else if day_now < day_then && now.1 >= 1_000_000_000 {
        -1
    } else {
        0
    };
    (now.0 as i128 - then.0 as i128 + leap) * 1_000_000_000 + (now.1 as i128 - then.1 as i128)
}

/// Whether something made at `created` has outlived an empty room's time at
/// `now`.
pub fn is_expired(created: Option<Instant>, now: Option<Instant>) -> (yes: bool)
    ensures
        yes == expired(created, now),
{
    match (created, now) {
        (Some(c), Some(n)) => nanos_from(c, n) > ROOM_TTL,
        _ => false,
    }
}

/// Whether something stamped `created_at` has outlived an empty room's time at
/// the moment stamped `now`.
pub fn stamp_expired(created_at: &str, now: &str) -> (yes: bool)
    ensures
        yes == expired(rfc3339_instant(created_at@), rfc3339_instant(now@)),
{
    is_expired(parse_from_rfc3339(created_at), parse_from_rfc3339(now))
}

} // verus!
