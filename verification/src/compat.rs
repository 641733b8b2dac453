//! The Unix-timestamp encoding of device profiles: a profile stores its timestamp as the
//! number of seconds since the Unix epoch.
use chrono::NaiveDateTime;
use vstd::prelude::*;

use crate::numerals::{
    is_decimal_char, lemma_signed_decimal_shape, lemma_signed_decimal_value, signed_decimal, signed_decimal_string, signed_decimal_value,
};

verus! {

#[verifier::external_type_specification]
#[verifier::external_body]
pub struct ExNaiveDateTime(NaiveDateTime);

/// The first second that `chrono::NaiveDateTime` can represent: the start of January 1 of
/// chrono's `MIN_YEAR` (262144 BCE), counted from the Unix epoch.
pub const MIN_TIMESTAMP: i64 = -8_334_601_228_800i64;

/// The last second that `chrono::NaiveDateTime` can represent: the end of December 31 of
/// chrono's `MAX_YEAR` (262142 CE), counted from the Unix epoch.
pub const MAX_TIMESTAMP: i64 = 8_210_266_876_799i64;

/// Whether a `NaiveDateTime` can stand `secs` seconds after the Unix epoch.
pub open spec fn timestamp_in_range(secs: i64) -> bool {
    MIN_TIMESTAMP <= secs <= MAX_TIMESTAMP
}

/// Calls `chrono::NaiveDateTime::from_timestamp_opt(secs, 0)`. The contract claims that the
/// result is `Some` exactly when `secs` lies from `MIN_TIMESTAMP` to `MAX_TIMESTAMP`: chrono
/// turns `secs` into the day `secs.div_euclid(86_400) + 719_163` from the common era, which
/// it accepts exactly when the day's year lies from `MIN_YEAR` to `MAX_YEAR`. Nothing is said
/// of the value inside, which this crate does not read.
#[verifier::external_body]
fn naive_datetime_from_timestamp(secs: i64) -> (r: Option<NaiveDateTime>)
    ensures
        r is Some <==> timestamp_in_range(secs),
{
    #[allow(deprecated)]
    NaiveDateTime::from_timestamp_opt(secs, 0)
}

/// A moment in time, as the number of whole seconds since the Unix epoch, that `chrono`
/// can represent as a `NaiveDateTime`.
#[derive(Clone, Copy, Debug, PartialEq, Eq)]
pub struct UnixTimestamp {
    secs: i64,
}

impl UnixTimestamp {
    /// The number of seconds since the Unix epoch.
    pub closed spec fn seconds(self) -> i64 {
        self.secs
    }

    /// Every timestamp lies in chrono's range.
    #[verifier::type_invariant]
    spec fn in_range(self) -> bool {
        timestamp_in_range(self.secs)
    }

    /// The number of seconds since the Unix epoch.
    pub fn timestamp(&self) -> (r: i64)
        ensures
            r == self.seconds(),
            timestamp_in_range(r),
    {
        proof {
            use_type_invariant(self);
        }
        self.secs
    }
}

/// The reason a timestamp was refused.
#[derive(Clone, Copy, Debug, PartialEq, Eq, Structural)]
pub enum TimestampError {
    /// The number of seconds lies outside the range of `chrono::NaiveDateTime`.
    OutOfRange,
}

impl TimestampError {
    /// The message that the error is reported with.
    pub fn message(&self) -> (r: &'static str)
        ensures
            r@ == "unable to construct NaiveDateTime from i64"@,
    {
        "unable to construct NaiveDateTime from i64"
    }
}

/// Reads a Unix epoch timestamp (whole seconds) as a date-time: `Ok` with those seconds when
/// chrono can represent the moment, `OutOfRange` otherwise.
pub fn deserialize_naive_date_timestamp(secs: i64) -> (r: Result<UnixTimestamp, TimestampError>)
    ensures
        r is Ok <==> timestamp_in_range(secs),
        r matches Ok(t) ==> t.seconds() == secs,
        r matches Err(e) ==> e == TimestampError::OutOfRange,
{
    match naive_datetime_from_timestamp(secs) {
        Some(_) => Ok(UnixTimestamp { secs }),
        None => Err(TimestampError::OutOfRange),
    }
}

/// Writes a date-time as the decimal text of its seconds since the Unix epoch.
pub fn serialize_naive_datetime_timestamp_to_str(value: &UnixTimestamp) -> (r: String)
    ensures
        r@ == signed_decimal(value.seconds() as int),
        timestamp_in_range(value.seconds()),
{
    proof {
        use_type_invariant(value);
    }
    signed_decimal_string(value.secs)
}

/// What is written reads back: the text written for a timestamp denotes its seconds, and a
/// timestamp is determined by its seconds. With the contracts of the two functions above
/// (the seconds of every timestamp lie in range, and those are the seconds that read back as
/// `Ok`), deserializing the written value gives back the timestamp that was written.
pub proof fn lemma_timestamp_roundtrip(t: UnixTimestamp)
    ensures
        signed_decimal_value(signed_decimal(t.seconds() as int)) == t.seconds(),
        forall|u: UnixTimestamp| #[trigger] u.seconds() == t.seconds() ==> u == t,
{
    lemma_signed_decimal_value(t.seconds() as int);
}

/// The text written for a timestamp is a plain decimal numeral of its seconds: a leading `-`
/// exactly for moments before the epoch, then decimal digits only, with no leading zero
/// unless it is the epoch itself (written `0`).
pub proof fn lemma_timestamp_text_shape(t: UnixTimestamp)
    ensures
        signed_decimal(t.seconds() as int).len() >= 1,
        (signed_decimal(t.seconds() as int)[0] == '-') <==> t.seconds() < 0,
        forall|j: int|
            (if t.seconds() < 0 { 1int } else { 0int }) <= j < signed_decimal(t.seconds() as int).len()
                ==> is_decimal_char(#[trigger] signed_decimal(t.seconds() as int)[j]),
        t.seconds() == 0 ==> signed_decimal(t.seconds() as int) == seq!['0'],
{
    lemma_signed_decimal_shape(t.seconds() as int);
}

} // verus!
