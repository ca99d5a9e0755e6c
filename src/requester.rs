use vstd::prelude::*;
use crate::time::{Timestamp, MAX_SECS};

verus! {

/// Why a probe yielded no sample.
#[derive(Clone, Copy, Debug, PartialEq, Eq, Structural)]
pub enum ProbeError {
    /// The request did not complete: connection, TLS or timeout failure.
    Transport,
    /// The response carried no date header.
    MissingDateHeader,
    /// The date header was not an HTTP date.
    MalformedDateHeader,
}

/// A failed probe: the offset it was scheduled at and the cause.
#[derive(Clone, Copy, Debug, PartialEq, Eq, Structural)]
pub struct ProbeFailure {
    pub offset_micros: i64,
    pub error: ProbeError,
}

/// One probe's result: its scheduled offset from the second boundary, the
/// time the server reported, and the local time the request was sent.
#[derive(Clone, Copy, Debug, PartialEq, Eq, Structural)]
pub struct Sample {
    pub offset_micros: i64,
    pub server_time: Timestamp,
    pub sent_at: Timestamp,
}

impl Sample {
    pub open spec fn wf(self) -> bool {
        self.server_time.wf() && self.sent_at.wf()
    }
}

/// Microseconds to wait from `now` until `offset` microseconds after the next
/// whole second; zero when that instant is already past.
pub open spec fn wait_spec(now: Timestamp, offset: int) -> int {
    let w = now.next_boundary_micros() + offset - now.micros();
    if w < 0 { 0 } else { w }
}

/// How long to sleep, from the local time `now`, so that the probe goes out
/// `offset_micros` after the next second boundary. An instant in the past
/// gives no wait rather than a negative one.
pub fn wait_micros(now: Timestamp, offset_micros: i64) -> (r: u64)
    requires
        now.wf(),
    ensures
        r == wait_spec(now, offset_micros as int),
{
    let until_boundary: i128 = 1_000_000 - (now.nanos / 1000) as i128;
    let total: i128 = until_boundary + offset_micros as i128;
    if total < 0 {
        0
    } else {
        total as u64
    }
}

/// The wait lands the probe on its target instant whenever that instant is
/// not yet past, and means an immediate probe otherwise.
pub proof fn lemma_wait_reaches_target(now: Timestamp, offset: i64)
    requires
        now.wf(),
    ensures
        now.next_boundary_micros() + offset >= now.micros() ==> now.micros() + wait_spec(
            now,
            offset as int,
        ) == now.next_boundary_micros() + offset,
        now.next_boundary_micros() + offset < now.micros() ==> wait_spec(now, offset as int)
            == 0,
        wait_spec(now, offset as int) >= 0,
{
}

/// Seconds since the epoch of the instant that httpdate reads in a header.
pub uninterp spec fn http_date_secs(s: Seq<char>) -> Option<u64>;

/// Relies on `httpdate::parse_http_date`: `Ok` with a `SystemTime` for an
/// IMF-fixdate, RFC 850 or asctime date, an error otherwise. The instant
/// depends on the text alone; it is converted to whole seconds since the epoch,
/// which it never precedes.
#[verifier::external_body]
fn parse_http_date(s: &str) -> (r: Option<u64>)
    ensures
        r == http_date_secs(s@),
{
    httpdate::parse_http_date(s).ok().and_then(
        |t| t.duration_since(std::time::UNIX_EPOCH).ok(),
    ).map(|d| d.as_secs())
}

/// The server time for a parsed header value: whole seconds, or a malformed
/// header when there was no date or it lies past year 9999.
pub fn server_time_from_secs(parsed: Option<u64>) -> (r: Result<Timestamp, ProbeError>)
    ensures
        r == server_time_from_secs_spec(parsed),
        r matches Ok(t) ==> t.wf(),
{
    match parsed {
        Some(v) => {
            if v <= MAX_SECS as u64 {
                Ok(Timestamp { secs: v as i64, nanos: 0 })
            } else {
                Err(ProbeError::MalformedDateHeader)
            }
        },
        None => Err(ProbeError::MalformedDateHeader),
    }
}

/// The server time reported by a response's date header, if it has one.
pub fn server_time_from_header(header: Option<&str>) -> (r: Result<Timestamp, ProbeError>)
    ensures
        header is None ==> r == Err::<Timestamp, ProbeError>(ProbeError::MissingDateHeader),
        header matches Some(h) ==> r == server_time_from_secs_spec(http_date_secs(h@)),
        r matches Ok(t) ==> t.wf(),
{
    match header {
        None => Err(ProbeError::MissingDateHeader),
        Some(h) => server_time_from_secs(parse_http_date(h)),
    }
}

/// What `server_time_from_secs` returns.
pub open spec fn server_time_from_secs_spec(parsed: Option<u64>) -> Result<Timestamp, ProbeError> {
    match parsed {
        Some(v) => if v <= MAX_SECS {
            Ok(Timestamp { secs: v as i64, nanos: 0 })
        } else {
            Err(ProbeError::MalformedDateHeader)
        },
        None => Err(ProbeError::MalformedDateHeader),
    }
}

/// What `complete_probe` returns.
pub open spec fn probe_outcome(
    offset_micros: i64,
    sent_at: Timestamp,
    server: Result<Timestamp, ProbeError>,
) -> Result<Sample, ProbeFailure> {
    match server {
        Ok(t) => Ok(Sample { offset_micros, server_time: t, sent_at }),
        Err(e) => Err(ProbeFailure { offset_micros, error: e }),
    }
}

/// The outcome of a probe scheduled at `offset_micros`, sent at `sent_at`,
/// whose response carried `date_header`.
pub fn complete_probe(offset_micros: i64, sent_at: Timestamp, date_header: Option<&str>) -> (r:
    Result<Sample, ProbeFailure>)
    ensures
        date_header is None ==> r == Err::<Sample, ProbeFailure>(
            ProbeFailure { offset_micros, error: ProbeError::MissingDateHeader },
        ),
        date_header matches Some(h) ==> r == probe_outcome(
            offset_micros,
            sent_at,
            server_time_from_secs_spec(http_date_secs(h@)),
        ),
        sent_at.wf() ==> (r matches Ok(s) ==> s.wf()),
{
    match server_time_from_header(date_header) {
        Ok(t) => Ok(Sample { offset_micros, server_time: t, sent_at }),
        Err(e) => Err(ProbeFailure { offset_micros, error: e }),
    }
}

} // verus!
