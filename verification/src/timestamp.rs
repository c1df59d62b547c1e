//! Instants of runs: whole seconds since 1970-01-01T00:00:00Z and the
//! nanoseconds past them, as the `chrono` crate counts them in UTC.
use vstd::prelude::*;
use chrono::DateTime;

verus! {

/// Whether `chrono` represents the instant `secs` seconds and `nanos`
/// nanoseconds after the Unix epoch.
pub uninterp spec fn chrono_instant(secs: int, nanos: int) -> bool;

/// The instant, as seconds and nanoseconds, that RFC 3339 parsing reads
/// from `text`; `None` when it rejects the text.
pub uninterp spec fn rfc3339_parsed(text: Seq<char>) -> Option<(int, int)>;

/// The RFC 3339 text of the instant in UTC.
pub uninterp spec fn rfc3339_format(secs: int, nanos: int) -> Seq<char>;

/// `DateTime::from_timestamp(secs, nanos)`: whether it gives an instant.
#[verifier::external_body]
fn instant_exists(secs: i64, nanos: u32) -> (r: bool)
    ensures
        r == chrono_instant(secs as int, nanos as int),
{
    DateTime::from_timestamp(secs, nanos).is_some()
}

/// `DateTime::parse_from_rfc3339`, read as the UTC seconds (`timestamp`)
/// and nanoseconds (`timestamp_subsec_nanos`) of the parsed instant.  By
/// the round trip that `from_timestamp` documents, `chrono` represents
/// that pair.
#[verifier::external_body]
fn parse_rfc3339_parts(text: &str) -> (r: Option<(i64, u32)>)
    ensures
        match r {
            Some(p) => rfc3339_parsed(text@) == Some((p.0 as int, p.1 as int)) && chrono_instant(
                p.0 as int,
                p.1 as int,
            ),
            None => rfc3339_parsed(text@) is None,
        },
{
    match DateTime::parse_from_rfc3339(text) {
        Ok(t) => Some((t.timestamp(), t.timestamp_subsec_nanos())),
        Err(_) => None,
    }
}

/// Instants from 0000-01-01T00:00:00Z to 9999-12-31T23:59:59Z (and its
/// leap second): those whose year RFC 3339 writes with four digits.
pub open spec fn four_digit_year(secs: int) -> bool {
    -62167219200 <= secs <= 253402300799
}

/// `DateTime::from_timestamp(secs, nanos)`, then `to_rfc3339`.  For an
/// instant with a four-digit year, `parse_from_rfc3339` reads the text it
/// writes back as the same instant (the year, date, time, a leap second as
/// second 60, every nanosecond digit, and the `+00:00` offset are written
/// in the form the parser reads).
#[verifier::external_body]
fn format_rfc3339(secs: i64, nanos: u32) -> (r: String)
    requires
        chrono_instant(secs as int, nanos as int),
    ensures
        r@ == rfc3339_format(secs as int, nanos as int),
        four_digit_year(secs as int) ==> rfc3339_parsed(r@) == Some((secs as int, nanos as int)),
{
    match DateTime::from_timestamp(secs, nanos) {
        Some(t) => t.to_rfc3339(),
        None => String::new(),
    }
}

/// A UTC instant: seconds since the Unix epoch and nanoseconds past them
/// (1,000,000,000 and above only within a leap second).
#[derive(Debug, Clone, Copy, PartialEq, Eq, Structural)]
pub struct Timestamp {
    secs: i64,
    nanos: u32,
}

impl Timestamp {
    #[verifier::type_invariant]
    spec fn representable(self) -> bool {
        chrono_instant(self.secs as int, self.nanos as int)
    }

    /// Seconds since the Unix epoch.
    pub closed spec fn seconds(self) -> int {
        self.secs as int
    }

    /// Nanoseconds past the second.
    pub closed spec fn nanoseconds(self) -> int {
        self.nanos as int
    }

    /// The RFC 3339 text of the instant.
    pub open spec fn rfc3339(self) -> Seq<char> {
        rfc3339_format(self.seconds(), self.nanoseconds())
    }

    /// The instant `secs` seconds and `nanos` nanoseconds after the epoch,
    /// when `chrono` represents it.
    pub fn new(secs: i64, nanos: u32) -> (r: Option<Timestamp>)
        ensures
            r is Some <==> chrono_instant(secs as int, nanos as int),
            r matches Some(t) ==> t.seconds() == secs && t.nanoseconds() == nanos,
    {
        if instant_exists(secs, nanos) {
            Some(Timestamp { secs, nanos })
        } else {
            None
        }
    }

    /// Seconds since the Unix epoch.
    pub fn secs(&self) -> (r: i64)
        ensures
            r == self.seconds(),
    {
        self.secs
    }

    /// Nanoseconds past the second.
    pub fn nanos(&self) -> (r: u32)
        ensures
            r == self.nanoseconds(),
    {
        self.nanos
    }

    /// Reads an RFC 3339 timestamp as the UTC instant it denotes.
    pub fn parse_rfc3339(text: &str) -> (r: Option<Timestamp>)
        ensures
            match r {
                Some(t) => rfc3339_parsed(text@) == Some((t.seconds(), t.nanoseconds())),
                None => rfc3339_parsed(text@) is None,
            },
    {
        match parse_rfc3339_parts(text) {
            Some((secs, nanos)) => Some(Timestamp { secs, nanos }),
            None => None,
        }
    }

    /// The RFC 3339 text of the instant, in UTC; for an instant with a
    /// four-digit year, reading the text back gives the same instant.
    pub fn to_rfc3339(&self) -> (r: String)
        ensures
            r@ == self.rfc3339(),
            four_digit_year(self.seconds()) ==> rfc3339_parsed(r@) == Some((self.seconds(), self.nanoseconds())),
    {
        proof {
            use_type_invariant(self);
        }
        format_rfc3339(self.secs, self.nanos)
    }
}

/// A timestamp is its seconds and nanoseconds: two with the same ones are
/// the same instant.
pub proof fn lemma_timestamp_parts(a: Timestamp, b: Timestamp)
    requires
        a.seconds() == b.seconds(),
        a.nanoseconds() == b.nanoseconds(),
    ensures
        a == b,
{
}

} // verus!
