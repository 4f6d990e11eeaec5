//! Rendering of Unix timestamps as UTC calendar text, and of elapsed
//! seconds as a compound duration.

use vstd::prelude::*;
use crate::numfmt::dec_digits;

verus! {

/// The calendar text that a Unix timestamp renders to ("2023-07-22
/// 05:06:40 UTC" style). The civil-calendar computation behind it is left
/// to chrono; the text is a function of the timestamp alone.
pub uninterp spec fn utc_text_of(ts: nat) -> Seq<char>;

/// The largest timestamp the library renders: 9999-12-31 23:59:59 UTC.
pub const MAX_RENDERABLE_TIMESTAMP: u64 = 253_402_300_799;

/// Relies on chrono: `DateTime::<Utc>::from_timestamp` returns `Some` for
/// every second count up to year 9999 (its range runs to year 262142), and
/// the `Display` of a `DateTime<Utc>` renders the date and time with
/// second precision followed by " UTC", from the timestamp alone.
#[verifier::external_body]
pub(crate) fn utc_datetime_text(ts: u64) -> (r: String)
    requires
        ts <= MAX_RENDERABLE_TIMESTAMP,
    ensures
        r@ == utc_text_of(ts as nat),
{
    let rendered = match chrono::DateTime::<chrono::Utc>::from_timestamp(ts as i64, 0) {
        Some(moment) => moment.to_string(),
        None => String::new(),
    };
    rendered
}

/// One component of a compound duration: the digits of `n` followed by the
/// unit letter, or nothing when the component is zero.
pub open spec fn duration_part(n: nat, unit: char) -> Seq<char> {
    if n == 0 {
        Seq::<char>::empty()
    } else {
        dec_digits(n).push(unit)
    }
}

/// Elapsed seconds as a compound "days hours minutes seconds" text:
/// 7259 reads "2h59s", 0 reads "0s"; zero components are omitted.
pub open spec fn dhms_text(secs: nat) -> Seq<char> {
    if secs == 0 {
        seq!['0', 's']
    } else {
        duration_part(secs / 86400, 'd') + duration_part((secs % 86400) / 3600, 'h')
            + duration_part((secs % 3600) / 60, 'm') + duration_part(secs % 60, 's')
    }
}

/// Relies on compound_duration's `format_dhms`: it decomposes the seconds
/// into days, hours, minutes and seconds, renders each non-zero component
/// as its decimal digits followed by its unit letter, and renders zero
/// seconds as "0s".
#[verifier::external_body]
pub(crate) fn dhms_duration_text(secs: u64) -> (r: String)
    ensures
        r@ == dhms_text(secs as nat),
{
    compound_duration::format_dhms(secs)
}

} // verus!
