//! Fresh random identifiers, and the wall clock.

use vstd::prelude::*;

verus! {

/// Is the character a lower-case hexadecimal digit?
pub open spec fn is_lower_hex(c: char) -> bool {
    ('0' <= c && c <= '9') || ('a' <= c && c <= 'f')
}

/// The shape of a hyphenated lower-case UUID: 36 characters, dashes at
/// 8, 13, 18 and 23, hexadecimal digits elsewhere.
pub open spec fn uuid_shaped(s: Seq<char>) -> bool {
    &&& s.len() == 36
    &&& forall|i: int|
        0 <= i < 36 ==> if i == 8 || i == 13 || i == 18 || i == 23 {
            s[i] == '-'
        } else {
            is_lower_hex(#[trigger] s[i])
        }
}

/// `uuid::Uuid::new_v4().to_string()`: a random version-4 UUID in its
/// hyphenated lower-case form. Which one comes out is chance; its shape is
/// what the crate's `Display` writes (`fmt.rs`, `format_hyphenated`).
#[verifier::external_body]
pub(crate) fn new_uuid() -> (r: String)
    ensures
        uuid_shaped(r@),
{
    uuid::Uuid::new_v4().to_string()
}

/// The milliseconds since the Unix epoch on the machine's clock, through
/// chrono: `DateTime::<Utc>::from(SystemTime::now()).timestamp_millis()`.
/// Unlike `Utc::now`, chrono's `From<SystemTime>` handles a clock set before
/// 1970 (a negative count) instead of panicking; it unwraps only for a time
/// beyond chrono's range of about ±262,000 years. The time is read, so
/// nothing is promised of the value.
#[verifier::external_body]
pub(crate) fn unix_millis() -> (r: i64) {
    chrono::DateTime::<chrono::Utc>::from(std::time::SystemTime::now()).timestamp_millis()
}

} // verus!
