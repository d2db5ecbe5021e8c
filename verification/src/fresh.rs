//! Values that come from outside the program: the wall clock and random
//! identifiers.
use vstd::prelude::*;

verus! {

/// Seconds since the Unix epoch from std's `SystemTime::now`, or `None` when
/// the clock reads earlier than the epoch. Nothing is promised of the value.
#[verifier::external_body]
fn clock_seconds() -> (res: Option<u64>)
{
    std::time::SystemTime::now().duration_since(std::time::UNIX_EPOCH).ok().map(|d| d.as_secs())
}

/// A timestamp as the workbench stores it: the seconds reinterpreted as
/// `i64` (as `as i64` does), or 0 where the clock gave none.
pub open spec fn timestamp_of(seconds: Option<u64>) -> i64 {
    match seconds {
        Some(s) => s as i64,
        None => 0,
    }
}

/// The stored timestamp for a clock reading.
pub fn timestamp_from_seconds(seconds: Option<u64>) -> (res: i64)
    ensures
        res == timestamp_of(seconds),
{
    match seconds {
        Some(s) => s as i64,
        None => 0,
    }
}

/// The current time as a stored timestamp.
pub fn current_timestamp() -> (res: i64)
    ensures
        exists|seconds: Option<u64>| res == timestamp_of(seconds),
{
    let seconds = clock_seconds();
    timestamp_from_seconds(seconds)
}

/// A lower-case hexadecimal digit.
pub open spec fn is_lower_hex(c: char) -> bool {
    ('0' <= c && c <= '9') || ('a' <= c && c <= 'f')
}

/// The hyphenated lower-case text of a version-4 UUID:
/// `xxxxxxxx-xxxx-4xxx-Yxxx-xxxxxxxxxxxx`, `Y` one of `8 9 a b`.
pub open spec fn is_uuid_v4_text(s: Seq<char>) -> bool {
    &&& s.len() == 36
    &&& forall|i: int|
        0 <= i < 36 ==> if i == 8 || i == 13 || i == 18 || i == 23 {
            #[trigger] s[i] == '-'
        } else {
            is_lower_hex(s[i])
        }
    &&& s[14] == '4'
    &&& (s[19] == '8' || s[19] == '9' || s[19] == 'a' || s[19] == 'b')
}

/// The text of uuid's `Uuid::new_v4()`: random, and of the hyphenated
/// lower-case version-4 form.
#[verifier::external_body]
pub(crate) fn new_uuid_v4() -> (res: String)
    ensures
        is_uuid_v4_text(res@),
{
    uuid::Uuid::new_v4().to_string()
}

} // verus!
