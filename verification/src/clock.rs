use vstd::prelude::*;
use crate::task::view_opt;

verus! {

/// The system clock's time type.
#[verifier::external_type_specification]
#[verifier::external_body]
pub struct ExSystemTime(std::time::SystemTime);

/// Nanoseconds in a second.
pub const NANOS_PER_SECOND: u32 = 1_000_000_000;

/// The last second of the year 9999, counted from the Unix epoch.
pub const LAST_SECOND_OF_9999: u64 = 253_402_300_799;

/// What chrono writes for the instant `secs` seconds and `nanos` nanoseconds
/// after the Unix epoch, in RFC 3339 with milliseconds and a `Z`
/// (`DateTime::from_timestamp` and then
/// `to_rfc3339_opts(SecondsFormat::Millis, true)`); none where chrono has no
/// such instant.
pub uninterp spec fn chrono_rfc3339_millis(secs: i64, nanos: u32) -> Option<Seq<char>>;

/// `s[i]` is `0` to `9`.
pub open spec fn digit_at(s: Seq<char>, i: int) -> bool {
    48 <= (s[i] as int) <= 57
}

/// The form `YYYY-MM-DDTHH:MM:SS.mmmZ`.
pub open spec fn has_timestamp_shape(s: Seq<char>) -> bool {
    &&& s.len() == 24
    &&& digit_at(s, 0) && digit_at(s, 1) && digit_at(s, 2) && digit_at(s, 3)
    &&& s[4] == '-'
    &&& digit_at(s, 5) && digit_at(s, 6)
    &&& s[7] == '-'
    &&& digit_at(s, 8) && digit_at(s, 9)
    &&& s[10] == 'T'
    &&& digit_at(s, 11) && digit_at(s, 12)
    &&& s[13] == ':'
    &&& digit_at(s, 14) && digit_at(s, 15)
    &&& s[16] == ':'
    &&& digit_at(s, 17) && digit_at(s, 18)
    &&& s[19] == '.'
    &&& digit_at(s, 20) && digit_at(s, 21) && digit_at(s, 22)
    &&& s[23] == 'Z'
}

/// The current time of the system clock (`SystemTime::now`). It depends on
/// the clock, so nothing is stated of it.
#[verifier::external_body]
fn system_time_now() -> (now: std::time::SystemTime) {
    std::time::SystemTime::now()
}

/// How long after the Unix epoch `t` is (`SystemTime::duration_since` with
/// `UNIX_EPOCH`); none where `t` is before the epoch, the case in which std
/// returns its error. What the duration holds is not stated.
#[verifier::external_body]
fn elapsed_since_epoch(t: &std::time::SystemTime) -> (elapsed: Option<std::time::Duration>) {
    match t.duration_since(std::time::UNIX_EPOCH) {
        Ok(elapsed) => Some(elapsed),
        Err(_) => None,
    }
}

/// The whole seconds of a duration (`Duration::as_secs`). Not stated, since
/// Verus sees nothing inside a `Duration`.
#[verifier::external_body]
fn whole_seconds(d: &std::time::Duration) -> (secs: u64) {
    d.as_secs()
}

/// The fraction of a second of a duration, in nanoseconds
/// (`Duration::subsec_nanos`), which std documents as less than one billion.
#[verifier::external_body]
fn subsecond_nanos(d: &std::time::Duration) -> (nanos: u32)
    ensures
        nanos < NANOS_PER_SECOND,
{
    d.subsec_nanos()
}

/// chrono's RFC 3339 text, with milliseconds and a `Z`, of the instant
/// `secs` seconds and `nanos` nanoseconds after the Unix epoch:
/// `DateTime::from_timestamp(secs, nanos)` written by
/// `to_rfc3339_opts(SecondsFormat::Millis, true)`. Claimed: the result is the
/// name `chrono_rfc3339_millis` of the arguments; an instant from 1970 up to
/// the end of the year 9999 with less than a second of nanoseconds exists,
/// and chrono's `write_rfc3339` writes it as `YYYY-MM-DDTHH:MM:SS.mmmZ`.
#[verifier::external_body]
fn rfc3339_millis_at(secs: i64, nanos: u32) -> (text: Option<String>)
    ensures
        view_opt(text) == chrono_rfc3339_millis(secs, nanos),
        0 <= secs <= LAST_SECOND_OF_9999 && nanos < NANOS_PER_SECOND ==> text is Some
            && has_timestamp_shape(text->0@),
{
    match chrono::DateTime::from_timestamp(secs, nanos) {
        Some(instant) => Some(instant.to_rfc3339_opts(chrono::SecondsFormat::Millis, true)),
        None => None,
    }
}

/// What the system clock reads: whole seconds and nanoseconds after the
/// Unix epoch; none where it reads a time before the epoch.
pub fn read_clock() -> (reading: Option<(u64, u32)>)
    ensures
        reading matches Some((_, nanos)) ==> nanos < NANOS_PER_SECOND,
{
    let now = system_time_now();
    match elapsed_since_epoch(&now) {
        None => None,
        Some(elapsed) => Some((whole_seconds(&elapsed), subsecond_nanos(&elapsed))),
    }
}

/// The timestamp text of a clock reading: chrono's text of the instant, or
/// the text of the epoch itself where chrono has no such instant.
pub open spec fn timestamp_text(secs: u64, nanos: u32) -> Seq<char> {
    if secs <= i64::MAX && nanos < NANOS_PER_SECOND && chrono_rfc3339_millis(
        secs as i64,
        nanos,
    ) is Some {
        chrono_rfc3339_millis(secs as i64, nanos)->0
    } else {
        chrono_rfc3339_millis(0, 0)->0
    }
}

/// `s` is the timestamp text of some clock reading, in the form
/// `YYYY-MM-DDTHH:MM:SS.mmmZ` where the reading lies before the year 10000.
pub open spec fn is_clock_text(s: Seq<char>) -> bool {
    exists|secs: u64, nanos: u32|
        #![trigger timestamp_text(secs, nanos)]
        s == timestamp_text(secs, nanos) && (secs <= LAST_SECOND_OF_9999 ==> has_timestamp_shape(s))
}

/// The timestamp text of a clock reading.
pub fn timestamp_at(secs: u64, nanos: u32) -> (text: String)
    ensures
        text@ == timestamp_text(secs, nanos),
        secs <= LAST_SECOND_OF_9999 ==> has_timestamp_shape(text@),
{
    if secs <= i64::MAX as u64 && nanos < NANOS_PER_SECOND {
        match rfc3339_millis_at(secs as i64, nanos) {
            Some(text) => {
                return text;
            },
            None => {},
        }
    }
    rfc3339_millis_at(0, 0).unwrap()
}

/// The current time as a timestamp text; the epoch's text when the system
/// clock reads a time before the epoch.
pub fn timestamp_now() -> (text: String)
    ensures
        is_clock_text(text@),
{
    match read_clock() {
        Some((secs, nanos)) => timestamp_at(secs, nanos),
        None => timestamp_at(0, 0),
    }
}

} // verus!
