//! Instants, and their text.

use vstd::prelude::*;

verus! {

/// An instant: whole seconds since 1970-01-01T00:00:00Z, and the nanoseconds
/// into that second. In the last second of a minute the nanoseconds may go on
/// to 1,999,999,999, which stands for a leap second.
#[derive(Clone, Copy, Debug, PartialEq, Eq, Structural)]
pub struct Timestamp {
    pub secs: i64,
    pub nanos: u32,
}

/// The RFC 3339 text of the instant `nanos` nanoseconds after second `secs`,
/// in UTC, with as many sub-second digits (none, 3, 6 or 9) as the
/// nanoseconds need; `None` where `chrono` cannot represent the instant.
pub uninterp spec fn rfc3339_text(secs: i64, nanos: u32) -> Option<Seq<char>>;

/// The characters of a string that may be absent.
pub open spec fn characters(text: Option<String>) -> Option<Seq<char>> {
    match text {
        Some(t) => Some(t@),
        None => None,
    }
}

/// `chrono::DateTime::from_timestamp`, then `to_rfc3339_opts` with
/// `SecondsFormat::AutoSi` and `Z` for UTC: the text of the instant, or
/// `None` where `from_timestamp` gives no instant. The outcome depends on the
/// two numbers alone.
#[verifier::external_body]
pub(crate) fn rfc3339(secs: i64, nanos: u32) -> (r: Option<String>)
    ensures
        characters(r) == rfc3339_text(secs, nanos),
{
    match chrono::DateTime::from_timestamp(secs, nanos) {
        Some(instant) => Some(instant.to_rfc3339_opts(chrono::SecondsFormat::AutoSi, true)),
        None => None,
    }
}

impl Timestamp {
    /// The instant as RFC 3339 text, or `None` where it lies outside the
    /// years that can be written.
    pub fn to_rfc3339(&self) -> (r: Option<String>)
        ensures
            characters(r) == rfc3339_text(self.secs, self.nanos),
    {
        rfc3339(self.secs, self.nanos)
    }
}

/// The instant that a deterministic source supplies:
/// 2000-01-23T01:23:45.678901200Z.
pub fn get_timestamp() -> (t: Timestamp)
    ensures
        t == (Timestamp { secs: 948590625, nanos: 678901200 }),
{
    Timestamp { secs: 948590625, nanos: 678901200 }
}

} // verus!
