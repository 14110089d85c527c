//! UTC instants, as blocks carry them.

use vstd::prelude::*;
use vstd::string::*;

verus! {

/// The RFC 3339 text of the UTC instant that lies `secs` whole seconds after
/// the Unix epoch and `nanos` nanoseconds into that second, with `Z` for the
/// zone and as many fractional digits (none, three, six or nine) as the
/// nanoseconds need; `None` where no calendar date stands for the instant.
pub uninterp spec fn rfc3339_utc(secs: i64, nanos: u32) -> Option<Seq<char>>;

/// Builds the instant with `chrono::DateTime::from_timestamp` and formats it
/// with `DateTime::to_rfc3339_opts(SecondsFormat::AutoSi, true)`, which is the
/// text that chrono writes when it serialises a `DateTime<Utc>`. The contract
/// names the result, and says that there is none exactly where
/// `from_timestamp` refuses the pair.
#[verifier::external_body]
fn format_instant(secs: i64, nanos: u32) -> (text: Option<String>)
    ensures
        text matches Some(t) ==> rfc3339_utc(secs, nanos) == Some(t@),
        text is None ==> rfc3339_utc(secs, nanos) is None,
{
    match chrono::DateTime::from_timestamp(secs, nanos) {
        Some(instant) => Some(instant.to_rfc3339_opts(chrono::SecondsFormat::AutoSi, true)),
        None => None,
    }
}

/// Reads the clock with `chrono::Utc::now` and takes the instant apart with
/// `DateTime::timestamp` and `DateTime::timestamp_subsec_nanos`. Which instant
/// comes back is not stated; chrono documents that `from_timestamp` accepts
/// every pair taken from a `DateTime`, and the contract says only that.
#[verifier::external_body]
fn current_instant() -> (now: (i64, u32))
    ensures
        rfc3339_utc(now.0, now.1) is Some,
{
    let now = chrono::Utc::now();
    (now.timestamp(), now.timestamp_subsec_nanos())
}

/// A UTC instant with nanosecond resolution.
///
/// Every value stands for a calendar date: it has an RFC 3339 text.
#[derive(Clone, Copy, Debug, PartialEq, Eq)]
pub struct Timestamp {
    secs: i64,
    nanos: u32,
}

impl Timestamp {
    #[verifier::type_invariant]
    spec fn representable(self) -> bool {
        rfc3339_utc(self.secs, self.nanos) is Some
    }

    /// Whole seconds since the Unix epoch.
    pub closed spec fn secs(self) -> i64 {
        self.secs
    }

    /// Nanoseconds into the second.
    pub closed spec fn nanos(self) -> u32 {
        self.nanos
    }

    /// The RFC 3339 text of the instant.
    pub open spec fn text(self) -> Seq<char> {
        rfc3339_utc(self.secs(), self.nanos()).unwrap()
    }

    /// The instant `secs` seconds after the Unix epoch and `nanos` nanoseconds
    /// into that second, where a calendar date stands for it.
    pub fn new(secs: i64, nanos: u32) -> (made: Option<Timestamp>)
        ensures
            made is Some <==> rfc3339_utc(secs, nanos) is Some,
            made matches Some(t) ==> t.secs() == secs && t.nanos() == nanos,
    {
        match format_instant(secs, nanos) {
            Some(_) => Some(Timestamp { secs, nanos }),
            None => None,
        }
    }

    /// The current instant, as the clock reads it. Which instant that is
    /// cannot be said beforehand; whatever the clock reads, a calendar date
    /// stands for it, so it has an RFC 3339 text.
    pub fn now() -> (now: Timestamp)
        ensures
            rfc3339_utc(now.secs(), now.nanos()) is Some,
    {
        let (secs, nanos) = current_instant();
        Timestamp { secs, nanos }
    }

    /// Whole seconds since the Unix epoch.
    pub fn seconds(&self) -> (secs: i64)
        ensures
            secs == self.secs(),
    {
        self.secs
    }

    /// Nanoseconds into the second.
    pub fn subsec_nanos(&self) -> (nanos: u32)
        ensures
            nanos == self.nanos(),
    {
        self.nanos
    }

    /// Appends the RFC 3339 text of the instant to `out`.
    pub fn push_text(&self, out: &mut String)
        ensures
            final(out)@ == old(out)@ + self.text(),
    {
        proof {
            use_type_invariant(self);
        }
        match format_instant(self.secs, self.nanos) {
            Some(text) => out.append(text.as_str()),
            None => {},
        }
    }
}

} // verus!
