//! Instants and durations, as the `chrono` crate represents them.
//!
//! The values are opaque to the verifier.  What `chrono` computes from
//! them is given a name here, and each function below states which name
//! its result carries.  Nothing in this module is proved: it records what
//! the rest of the library takes on trust from `chrono`.

use vstd::prelude::*;

verus! {

#[verifier::external_type_specification]
#[verifier::external_body]
pub struct ExTimeDelta(chrono::TimeDelta);

#[verifier::external_type_specification]
#[verifier::external_body]
pub struct ExNaiveDateTime(chrono::NaiveDateTime);

#[verifier::external_type_specification]
#[verifier::external_body]
pub struct ExFixedOffset(chrono::FixedOffset);

/// The number of whole seconds in a duration, rounded towards zero.
pub uninterp spec fn whole_seconds(delta: chrono::TimeDelta) -> int;

/// The duration from `earlier` to `later`, negative when `later` comes
/// first.
pub uninterp spec fn duration_between(
    later: chrono::NaiveDateTime,
    earlier: chrono::NaiveDateTime,
) -> chrono::TimeDelta;

/// The text that `chrono` displays for the instant `utc` seen at `offset`
/// from UTC: local date, local time and the offset.
pub uninterp spec fn timestamp_text(utc: chrono::NaiveDateTime, offset: chrono::FixedOffset) -> Seq<
    char,
>;

/// `TimeDelta::num_seconds`: the number of whole seconds in the duration.
pub assume_specification[ chrono::TimeDelta::num_seconds ](delta: &chrono::TimeDelta) -> (n: i64)
    ensures
        n == whole_seconds(*delta),
;

/// `NaiveDateTime::signed_duration_since`: the duration from `earlier` to
/// `later`.  It is in range for any two instants, so the call never fails.
pub assume_specification[ chrono::NaiveDateTime::signed_duration_since ](
    later: chrono::NaiveDateTime,
    earlier: chrono::NaiveDateTime,
) -> (delta: chrono::TimeDelta)
    ensures
        delta == duration_between(later, earlier),
;

/// The `Display` text of the `DateTime` made of `utc` and `offset`.
#[verifier::external_body]
pub(crate) fn timestamp_string(utc: &chrono::NaiveDateTime, offset: &chrono::FixedOffset) -> (s:
    String)
    ensures
        s@ == timestamp_text(*utc, *offset),
{
    chrono::DateTime::<chrono::FixedOffset>::from_naive_utc_and_offset(*utc, *offset).to_string()
}

/// An instant at a fixed offset from UTC.
#[derive(Clone, Copy, Debug, PartialEq, Eq)]
pub struct Timestamp {
    /// The instant, as date and time in UTC.
    pub utc: chrono::NaiveDateTime,
    /// The offset of the local time from UTC.
    pub offset: chrono::FixedOffset,
}

} // verus!
