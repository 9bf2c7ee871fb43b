//! From a modification time to the name of the folder that collects one day.

use vstd::prelude::*;

verus! {

/// The `time` crate's own error, of which nothing is known but that it is one.
#[verifier::external_type_specification]
#[verifier::external_body]
pub struct ExTimeError(time::Error);

/// The UTC calendar date of the instant `secs` seconds after the Unix epoch,
/// written as year, month and day with hyphens between them, as the `time`
/// crate prints it; `None` where the crate has no date for that instant.
pub uninterp spec fn utc_date_text(secs: int) -> Option<Seq<char>>;

/// Calls `time::format_description::parse_borrowed` on the fixed layout
/// `[year]-[month]-[day]`, `time::OffsetDateTime::from_unix_timestamp` on
/// `secs`, and `time::OffsetDateTime::format` on the two results.
///
/// Nothing is proved of these three. The contract claims only that the outcome
/// is a function of `secs`: the date is taken at UTC, so neither the time zone
/// of the machine nor anything else enters. It promises neither success nor
/// any property of the text.
#[verifier::external_body]
fn format_utc_date(secs: i64) -> (r: Result<String, time::Error>)
    ensures
        utc_date_text(secs as int) == match r {
            Ok(text) => Some(text@),
            Err(_) => None::<Seq<char>>,
        },
{
    let layout = time::format_description::parse_borrowed::<1>("[year]-[month]-[day]")?;
    Ok(time::OffsetDateTime::from_unix_timestamp(secs)?.format(&layout)?)
}

/// The whole seconds, rounded down, from the Unix epoch to an instant that
/// lies `secs` seconds and `nanos` nanoseconds after the epoch, or before it
/// where `before` is set. An instant a fraction of a second before a full
/// second belongs to the second that started earlier.
pub open spec fn floor_of(before: bool, secs: int, nanos: int) -> int {
    if !before {
        secs
    } else if nanos > 0 {
        -secs - 1
    } else {
        -secs
    }
}

/// Rounds an instant, given by its distance from the Unix epoch, down to
/// whole seconds since the epoch. `None` where they do not fit into an `i64`.
pub fn whole_seconds(before: bool, secs: u64, nanos: u32) -> (whole: Option<i64>)
    ensures
        match whole {
            Some(whole) => whole == floor_of(before, secs as int, nanos as int),
            None => !(i64::MIN <= floor_of(before, secs as int, nanos as int) <= i64::MAX),
        },
{
    if secs > 0x8000_0000_0000_0000 {
        None
    } else if secs == 0x8000_0000_0000_0000 {
        if before && nanos == 0 {
            Some(i64::MIN)
        } else {
            None
        }
    } else {
        let within: i64 = secs as i64;
        if !before {
            Some(within)
        } else if nanos > 0 {
            Some(-within - 1)
        } else {
            Some(-within)
        }
    }
}

/// The name of the folder for files last modified at `secs` seconds after the
/// Unix epoch (negative before it): their UTC date. `None` where the date is
/// out of the calendar's range.
pub fn bucket_name(secs: i64) -> (name: Option<String>)
    ensures
        name.deep_view() == utc_date_text(secs as int),
{
    match format_utc_date(secs) {
        Ok(text) => Some(text),
        Err(_) => None,
    }
}

} // verus!
