//! The boundary to the calendar: an instant as text in a time zone.

use vstd::prelude::*;

verus! {

/// The calendar text of the instant `epoch` seconds after the Unix epoch, in
/// the zone that is `offset_seconds` east of UTC, written as `pattern` says;
/// `None` where the instant or the offset is outside what the calendar can
/// hold, or the pattern is not one.
pub uninterp spec fn calendar_text(epoch: int, offset_seconds: int, pattern: Seq<char>) -> Option<
    Seq<char>,
>;

/// `chrono::DateTime::format`, on the instant that `DateTime::from_timestamp`
/// makes of `epoch` and `with_timezone` moves to the `FixedOffset` that
/// `east_opt` makes of `offset_seconds`, written out by `write_to`.
/// `east_opt` refuses an offset of a day or more, `from_timestamp` an instant
/// outside the calendar, `write_to` a pattern that is none; the result is then
/// `None`. None of them reads a clock, a zone or a locale: the claim is that
/// the result depends on the three arguments alone.
#[verifier::external_body]
pub(crate) fn format_epoch(epoch: i64, offset_seconds: i32, pattern: &str) -> (text: Option<String>)
    ensures
        match text {
            Some(written) => calendar_text(epoch as int, offset_seconds as int, pattern@) == Some(
                written@,
            ),
            None => calendar_text(epoch as int, offset_seconds as int, pattern@) is None,
        },
{
    let offset = chrono::FixedOffset::east_opt(offset_seconds)?;
    let moment = chrono::DateTime::from_timestamp(epoch, 0)?.with_timezone(&offset);
    let mut written = String::new();
    moment.format(pattern).write_to(&mut written).ok()?;
    Some(written)
}

} // verus!
