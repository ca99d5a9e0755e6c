//! Boundary-aligned sampling of a remote HTTP server's reported time.
//!
//! The library holds the decisions of the sampler: the mean round-trip time,
//! the plan of offsets around the next local second boundary, the wait before
//! each probe, the reading of the server's date header, and the ordering and
//! text encoding of the collected samples. Network requests, sleeping and
//! clock reads are left to the caller.

pub mod plan;
pub mod prober;
pub mod report;
pub mod requester;
pub mod target;
pub mod time;

pub use plan::{plan, LEAD_MICROS, STRIDE_MICROS, TAIL_MICROS};
pub use prober::{estimate_rtt, ROUND_TRIPS};
pub use report::{finalize, format_row, split_outcomes, HEADER_ROW};
pub use requester::{
    complete_probe, server_time_from_header, server_time_from_secs, wait_micros, ProbeError,
    ProbeFailure, Sample,
};
pub use target::normalize_target;
pub use time::{Timestamp, MAX_SECS, MIN_SECS};
