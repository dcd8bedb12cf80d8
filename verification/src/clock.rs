//! The current time, through chrono.

use vstd::prelude::*;

verus! {

/// An instant as chrono's `DateTime<Utc>` holds it: seconds since the Unix epoch
/// and the nanoseconds since the last whole second (a leap second counts past 10^9).
#[derive(Clone, Copy, Debug, PartialEq, Eq)]
pub struct UtcTime {
    pub secs: i64,
    pub nanos: u32,
}

/// The instants that `DateTime<Utc>` can hold: years -262143 to 262142, and
/// nanoseconds past a whole second only for a leap second (`secs % 60 == 59`).
pub open spec fn in_chrono_range(t: UtcTime) -> bool {
    &&& -8334601315200 <= t.secs <= 8210266876799
    &&& t.nanos < 2_000_000_000
    &&& t.nanos >= 1_000_000_000 ==> t.secs % 60 == 59
}

/// The pattern that names snapshots: `20260905T120000.123Z`.
pub open spec fn snapshot_pattern() -> Seq<char> {
    "%Y%m%dT%H%M%S%.3fZ"@
}

/// What chrono's `format(pattern)` renders the instant `(secs, nanos)` as.
pub uninterp spec fn utc_format_text(secs: int, nanos: int, pattern: Seq<char>) -> Seq<char>;

/// chrono's `Utc::now()`, as seconds and nanoseconds (`timestamp`,
/// `timestamp_subsec_nanos`). Stated: only that chrono can hold the instant, which
/// is true of every `DateTime<Utc>`; the value itself is the clock's.
#[verifier::external_body]
pub(crate) fn utc_now() -> (t: UtcTime)
    ensures
        in_chrono_range(t),
{
    let now = chrono::Utc::now();
    UtcTime { secs: now.timestamp(), nanos: now.timestamp_subsec_nanos() }
}

/// chrono's `DateTime::from_timestamp(secs, nanos)` followed by `format(pattern)`
/// and `to_string()`. Stated: the text is named by `utc_format_text` of the instant
/// and the pattern; the calendar arithmetic behind it is left unsaid.
#[verifier::external_body]
pub(crate) fn format_utc(t: UtcTime, pattern: &str) -> (s: String)
    requires
        in_chrono_range(t),
        pattern@ == snapshot_pattern(),
    ensures
        s@ == utc_format_text(t.secs as int, t.nanos as int, pattern@),
{
    chrono::DateTime::from_timestamp(t.secs, t.nanos)
        .expect("an instant in chrono's range")
        .format(pattern)
        .to_string()
}

} // verus!
