//! Points in time, as whole seconds since the Unix epoch and a fraction in
//! nanoseconds, and the calls into `chrono` that read the clock and write or
//! read RFC 3339 text.
use vstd::prelude::*;

verus! {

/// A UTC instant: seconds since the Unix epoch and the nanoseconds past
/// that second (above a billion only within a leap second).
#[derive(Debug, Clone, Copy, PartialEq, Eq, Structural)]
pub struct Timestamp {
    pub secs: i64,
    pub nanos: u32,
}

/// Whether `a` comes strictly before `b`.
pub open spec fn before(a: Timestamp, b: Timestamp) -> bool {
    a.secs < b.secs || (a.secs == b.secs && a.nanos < b.nanos)
}

/// Whether `a` comes no later than `b`.
pub open spec fn not_after(a: Timestamp, b: Timestamp) -> bool {
    !before(b, a)
}

/// The current time.
/// Trusted: `chrono::Utc::now`, read as its whole seconds
/// (`DateTime::timestamp`) and nanoseconds (`DateTime::timestamp_subsec_nanos`).
/// Its value depends on the clock and is left unsaid; what is stated is
/// that it is an instant `chrono` can represent, as the documented round
/// trip of `DateTime::from_timestamp` through those two readings shows.
#[verifier::external_body]
pub(crate) fn utc_now() -> (t: Timestamp)
    ensures
        rfc3339_text(t.secs, t.nanos) is Some,
{
    let now = chrono::Utc::now();
    Timestamp { secs: now.timestamp(), nanos: now.timestamp_subsec_nanos() }
}

/// What `chrono` writes for an instant in RFC 3339 form, or `None` for an
/// instant outside its range.
pub uninterp spec fn rfc3339_text(secs: i64, nanos: u32) -> Option<Seq<char>>;

/// Whether an instant falls in the years 0 to 9999, which RFC 3339 text
/// writes with four digits.
pub open spec fn in_four_digit_years(t: Timestamp) -> bool {
    -62167219200 <= t.secs <= 253402300799
}

/// The RFC 3339 text of an instant.
/// Trusted: `chrono::DateTime::<Utc>::from_timestamp` followed by
/// `DateTime::to_rfc3339`; the text is a function of the instant alone, and
/// `from_timestamp` gives `None` outside chrono's range. `to_rfc3339` writes
/// every nonzero fraction of a second (`SecondsFormat::AutoSi`) and the
/// offset, so for a year of four digits the text parses back, with
/// `str::parse::<DateTime<Utc>>`, to the same instant.
#[verifier::external_body]
pub(crate) fn format_rfc3339(t: Timestamp) -> (r: Option<String>)
    ensures
        r is None ==> rfc3339_text(t.secs, t.nanos) is None,
        r is Some ==> rfc3339_text(t.secs, t.nanos) == Some(r->Some_0@),
        in_four_digit_years(t) ==> (r is Some ==> rfc3339_parse_result(r->Some_0@) == Ok::<Timestamp, Seq<char>>(t)),
{
    chrono::DateTime::<chrono::Utc>::from_timestamp(t.secs, t.nanos).map(|d| d.to_rfc3339())
}

/// What `chrono` reads from a text as a UTC instant, or the message of its
/// error.
pub uninterp spec fn rfc3339_parse_result(s: Seq<char>) -> Result<Timestamp, Seq<char>>;

/// Reads an instant written in RFC 3339 form.
/// Trusted: `str::parse::<chrono::DateTime<chrono::Utc>>`; the instant (or the
/// error's message) is a function of the text alone.
#[verifier::external_body]
pub(crate) fn parse_rfc3339(s: &str) -> (r: Result<Timestamp, String>)
    ensures
        r is Ok ==> rfc3339_parse_result(s@) == Ok::<Timestamp, Seq<char>>(r->Ok_0),
        r is Err ==> rfc3339_parse_result(s@) == Err::<Timestamp, Seq<char>>(r->Err_0@),
{
    match s.parse::<chrono::DateTime<chrono::Utc>>() {
        Ok(d) => Ok(Timestamp { secs: d.timestamp(), nanos: d.timestamp_subsec_nanos() }),
        Err(e) => Err(e.to_string()),
    }
}

} // verus!
