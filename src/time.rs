use vstd::prelude::*;

verus! {

/// First second of year 1 (0001-01-01T00:00:00Z), seconds since the Unix epoch.
pub const MIN_SECS: i64 = -62135596800;

/// Last second of year 9999 (9999-12-31T23:59:59Z), seconds since the Unix epoch.
pub const MAX_SECS: i64 = 253402300799;

/// An instant in UTC: whole seconds since the Unix epoch and the nanoseconds
/// past that second.
#[derive(Clone, Copy, Debug, PartialEq, Eq, Structural)]
pub struct Timestamp {
    pub secs: i64,
    pub nanos: u32,
}

impl Timestamp {
    /// A well-formed instant has a four-digit year and less than a second of
    /// nanoseconds.
    pub open spec fn wf(self) -> bool {
        MIN_SECS <= self.secs <= MAX_SECS && self.nanos < 1_000_000_000
    }

    /// The instant truncated to whole microseconds since the epoch.
    pub open spec fn micros(self) -> int {
        self.secs * 1_000_000 + self.nanos / 1000
    }

    /// The first whole second strictly after this instant, in microseconds.
    pub open spec fn next_boundary_micros(self) -> int {
        (self.secs + 1) * 1_000_000
    }

    /// Chronological order: by seconds, then nanoseconds.
    pub open spec fn spec_le(self, other: Timestamp) -> bool {
        self.secs < other.secs || (self.secs == other.secs && self.nanos <= other.nanos)
    }

    pub open spec fn spec_lt(self, other: Timestamp) -> bool {
        self.secs < other.secs || (self.secs == other.secs && self.nanos < other.nanos)
    }

    /// The instant `secs` seconds and `nanos` nanoseconds past the epoch, when
    /// it is well formed.
    pub fn new(secs: i64, nanos: u32) -> (r: Option<Timestamp>)
        ensures
            r is Some <==> (Timestamp { secs, nanos }).wf(),
            r matches Some(t) ==> t == (Timestamp { secs, nanos }),
    {
        if MIN_SECS <= secs && secs <= MAX_SECS && nanos < 1_000_000_000 {
            Some(Timestamp { secs, nanos })
        } else {
            None
        }
    }

    pub fn is_before(&self, other: &Timestamp) -> (r: bool)
        ensures
            r == self.spec_lt(*other),
    {
        self.secs < other.secs || (self.secs == other.secs && self.nanos < other.nanos)
    }

    /// The RFC 3339 text of the instant, in UTC with a `Z` suffix and as many
    /// fractional digits as the nanoseconds need (none, 3, 6 or 9).
    pub fn to_rfc3339(&self) -> (r: String)
        requires
            self.wf(),
        ensures
            r@ == rfc3339_of(self.secs, self.nanos),
    {
        match rfc3339_text(*self) {
            Some(s) => s,
            None => String::new(),
        }
    }
}

/// The RFC 3339 text that chrono writes for an instant in UTC.
pub uninterp spec fn rfc3339_of(secs: i64, nanos: u32) -> Seq<char>;

/// Relies on chrono's `DateTime::from_timestamp`, which gives a value for every
/// second of years 1 to 9999 with nanoseconds under one second, and on
/// `DateTime::to_rfc3339_opts` with `SecondsFormat::AutoSi` and `use_z`, whose
/// text depends on the instant alone.
#[verifier::external_body]
fn rfc3339_text(t: Timestamp) -> (r: Option<String>)
    ensures
        t.wf() ==> r is Some,
        r matches Some(s) ==> s@ == rfc3339_of(t.secs, t.nanos),
{
    chrono::DateTime::from_timestamp(t.secs, t.nanos).map(
        |d| d.to_rfc3339_opts(chrono::SecondsFormat::AutoSi, true),
    )
}

} // verus!
