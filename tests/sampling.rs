use http_syncing::{
    complete_probe, estimate_rtt, finalize, format_row, normalize_target, plan,
    server_time_from_header, server_time_from_secs, split_outcomes, wait_micros, ProbeError,
    ProbeFailure, Sample, Timestamp, HEADER_ROW, MAX_SECS, ROUND_TRIPS, STRIDE_MICROS,
};

fn ts(secs: i64, nanos: u32) -> Timestamp {
    Timestamp::new(secs, nanos).unwrap()
}

const NEW_YEAR_2024: i64 = 1_704_067_200;

#[test]
fn bare_host_gets_secure_scheme() {
    assert_eq!(normalize_target("example.com"), "https://example.com");
}

#[test]
fn explicit_schemes_are_kept() {
    assert_eq!(normalize_target("http://example.com"), "http://example.com");
    assert_eq!(normalize_target("https://example.com/x"), "https://example.com/x");
    assert_eq!(normalize_target("httpx://a"), "https://httpx://a");
    assert_eq!(normalize_target(""), "https://");
}

#[test]
fn steady_latency_is_estimated_exactly() {
    let trips = vec![20_000u64; ROUND_TRIPS];
    assert_eq!(estimate_rtt(&trips), 20_000);
}

#[test]
fn rtt_is_the_truncated_mean() {
    assert_eq!(estimate_rtt(&vec![10, 20, 30, 40, 51]), 30);
    assert_eq!(estimate_rtt(&vec![0, 0, 0, 0, 4]), 0);
    assert_eq!(estimate_rtt(&vec![u64::MAX; 5]), u64::MAX);
}

#[test]
fn plan_for_zero_rtt_spans_the_fixed_margins() {
    let p = plan(0);
    assert_eq!(p.len(), 61);
    assert_eq!(p[0], -500_000);
    assert_eq!(*p.last().unwrap(), 100_000);
    assert!(p.contains(&0));
}

#[test]
fn plan_is_strictly_increasing_multiples_of_the_stride() {
    for rtt in [0u64, 1, 3, 19_999, 20_000, 50_000, 1_234_567] {
        let p = plan(rtt);
        let lower = -((rtt / 2) as i64 + 500_000);
        for w in p.windows(2) {
            assert_eq!(w[1] - w[0], STRIDE_MICROS);
        }
        for o in &p {
            assert_eq!(o % STRIDE_MICROS, 0);
            assert!(*o >= lower && *o <= 100_000);
        }
        assert!(p[0] - STRIDE_MICROS < lower);
        assert!(*p.last().unwrap() >= 0);
    }
}

#[test]
fn plan_widens_with_rtt() {
    let p = plan(50_000);
    assert_eq!(p[0], -520_000);
    assert_eq!(p.len(), 63);
    let q = plan(40_000);
    assert_eq!(q[0], -520_000);
    let r = plan(3);
    assert_eq!(r[0], -500_000);
}

#[test]
fn wait_reaches_boundary_plus_offset() {
    let now = ts(10, 250_000_000);
    assert_eq!(wait_micros(now, 0), 750_000);
    assert_eq!(wait_micros(now, -10_000), 740_000);
    assert_eq!(wait_micros(now, 10_000), 760_000);
    assert_eq!(wait_micros(ts(10, 250_000_999), 0), 750_000);
}

#[test]
fn wait_on_an_exact_boundary_is_a_whole_second() {
    assert_eq!(wait_micros(ts(10, 0), 0), 1_000_000);
    assert_eq!(wait_micros(ts(10, 0), -1_000_000), 0);
}

#[test]
fn negative_offset_past_the_boundary_is_clamped_to_zero() {
    let now = ts(10, 900_000_000);
    assert_eq!(wait_micros(now, -100_000), 0);
    assert_eq!(wait_micros(now, -500_000), 0);
    assert_eq!(wait_micros(now, i64::MIN), 0);
    assert_eq!(wait_micros(now, -99_999), 1);
}

#[test]
fn huge_offset_does_not_overflow() {
    assert_eq!(wait_micros(ts(0, 0), i64::MAX), 1_000_000 + i64::MAX as u64);
}

#[test]
fn imf_fixdate_header_parses() {
    let t = server_time_from_header(Some("Mon, 01 Jan 2024 00:00:00 GMT")).unwrap();
    assert_eq!(t, ts(NEW_YEAR_2024, 0));
}

#[test]
fn legacy_header_formats_parse() {
    let rfc850 = server_time_from_header(Some("Monday, 01-Jan-24 00:00:00 GMT"));
    assert_eq!(rfc850, Ok(ts(NEW_YEAR_2024, 0)));
    let asctime = server_time_from_header(Some("Mon Jan  1 00:00:00 2024"));
    assert_eq!(asctime, Ok(ts(NEW_YEAR_2024, 0)));
}

#[test]
fn missing_header_is_its_own_error() {
    let r = server_time_from_header(None);
    assert_eq!(r, Err(ProbeError::MissingDateHeader));
    assert_ne!(r, Err(ProbeError::Transport));
}

#[test]
fn malformed_header_is_rejected() {
    assert_eq!(server_time_from_header(Some("yesterday")), Err(ProbeError::MalformedDateHeader));
    assert_eq!(server_time_from_header(Some("")), Err(ProbeError::MalformedDateHeader));
    // 1 January 2024 was a Monday: httpdate refuses a wrong weekday.
    assert_eq!(
        server_time_from_header(Some("Thu, 01 Jan 2024 00:00:00 GMT")),
        Err(ProbeError::MalformedDateHeader)
    );
}

#[test]
fn parsed_seconds_map_to_server_time() {
    assert_eq!(server_time_from_secs(Some(0)), Ok(ts(0, 0)));
    assert_eq!(server_time_from_secs(Some(MAX_SECS as u64)), Ok(ts(MAX_SECS, 0)));
    assert_eq!(server_time_from_secs(Some(MAX_SECS as u64 + 1)), Err(ProbeError::MalformedDateHeader));
    assert_eq!(server_time_from_secs(None), Err(ProbeError::MalformedDateHeader));
}

#[test]
fn completed_probe_carries_offset_and_times() {
    let sent = ts(NEW_YEAR_2024 - 1, 990_000_000);
    let r = complete_probe(-10_000, sent, Some("Mon, 01 Jan 2024 00:00:00 GMT"));
    assert_eq!(
        r,
        Ok(Sample { offset_micros: -10_000, server_time: ts(NEW_YEAR_2024, 0), sent_at: sent })
    );
    let missing = complete_probe(20_000, sent, None);
    assert_eq!(
        missing,
        Err(ProbeFailure { offset_micros: 20_000, error: ProbeError::MissingDateHeader })
    );
}

#[test]
fn timestamps_render_as_rfc3339() {
    assert_eq!(ts(NEW_YEAR_2024, 0).to_rfc3339(), "2024-01-01T00:00:00Z");
    assert_eq!(ts(NEW_YEAR_2024, 5_000_000).to_rfc3339(), "2024-01-01T00:00:00.005Z");
    assert_eq!(ts(NEW_YEAR_2024, 123_456_789).to_rfc3339(), "2024-01-01T00:00:00.123456789Z");
    assert_eq!(ts(0, 0).to_rfc3339(), "1970-01-01T00:00:00Z");
}

#[test]
fn timestamp_rejects_out_of_range_values() {
    assert!(Timestamp::new(0, 1_000_000_000).is_none());
    assert!(Timestamp::new(MAX_SECS + 1, 0).is_none());
    assert!(Timestamp::new(MAX_SECS, 999_999_999).is_some());
}

#[test]
fn server_time_survives_the_text_round_trip() {
    for secs in [0i64, NEW_YEAR_2024, MAX_SECS] {
        let t = server_time_from_secs(Some(secs as u64)).unwrap();
        let back = chrono::DateTime::parse_from_rfc3339(&t.to_rfc3339()).unwrap();
        assert_eq!(back.timestamp(), t.secs);
        assert_eq!(back.timestamp_subsec_nanos(), t.nanos);
    }
    let sent = ts(NEW_YEAR_2024, 123_456_789);
    let back = chrono::DateTime::parse_from_rfc3339(&sent.to_rfc3339()).unwrap();
    assert_eq!((back.timestamp(), back.timestamp_subsec_nanos()), (sent.secs, sent.nanos));
}

#[test]
fn row_text_has_offset_and_both_times() {
    let s = Sample {
        offset_micros: -10_000,
        server_time: ts(NEW_YEAR_2024, 0),
        sent_at: ts(NEW_YEAR_2024 - 1, 990_000_000),
    };
    assert_eq!(format_row(&s), "-10000,2024-01-01T00:00:00Z,2023-12-31T23:59:59.990Z");
    let z = Sample { offset_micros: 0, ..s };
    assert_eq!(format_row(&z), "0,2024-01-01T00:00:00Z,2023-12-31T23:59:59.990Z");
    let m = Sample { offset_micros: i64::MIN, ..s };
    assert!(format_row(&m).starts_with("-9223372036854775808,"));
    assert_eq!(HEADER_ROW, "offset_micros,server,sent_at");
}

fn sample(offset: i64, server: i64, sent: (i64, u32)) -> Sample {
    Sample { offset_micros: offset, server_time: ts(server, 0), sent_at: ts(sent.0, sent.1) }
}

#[test]
fn finalize_orders_by_server_then_sent_time() {
    let rows = vec![
        sample(3, 101, (100, 500)),
        sample(1, 100, (100, 900)),
        sample(2, 100, (100, 100)),
        sample(4, 101, (99, 0)),
    ];
    let out = finalize(rows);
    let offsets: Vec<i64> = out.iter().map(|s| s.offset_micros).collect();
    assert_eq!(offsets, vec![2, 1, 4, 3]);
    for w in out.windows(2) {
        let a = (w[0].server_time.secs, w[0].server_time.nanos, w[0].sent_at.secs, w[0].sent_at.nanos);
        let b = (w[1].server_time.secs, w[1].server_time.nanos, w[1].sent_at.secs, w[1].sent_at.nanos);
        assert!(a <= b);
    }
}

#[test]
fn finalize_keeps_equal_rows() {
    let rows = vec![sample(1, 5, (5, 0)), sample(2, 5, (5, 0)), sample(1, 5, (5, 0))];
    let out = finalize(rows);
    assert_eq!(out.len(), 3);
    assert_eq!(out.iter().filter(|s| s.offset_micros == 1).count(), 2);
    assert!(finalize(Vec::new()).is_empty());
}

#[test]
fn failed_probes_do_not_drop_other_samples() {
    let ok1 = sample(-10_000, 100, (99, 990_000_000));
    let ok2 = sample(0, 100, (100, 0));
    let outcomes = vec![
        Ok(ok2),
        Err(ProbeFailure { offset_micros: 10_000, error: ProbeError::MissingDateHeader }),
        Ok(ok1),
        Err(ProbeFailure { offset_micros: 20_000, error: ProbeError::Transport }),
    ];
    let (samples, failures) = split_outcomes(outcomes);
    assert_eq!(samples, vec![ok2, ok1]);
    assert_eq!(failures.len(), 2);
    assert_eq!(failures[0].error, ProbeError::MissingDateHeader);
    assert_eq!(failures[1].error, ProbeError::Transport);
}

#[test]
fn steady_server_scenario_yields_ordered_rows() {
    // Local clock half a second before the new year; the server always
    // answers with the new year, whatever its 20 ms latency.
    let start = ts(NEW_YEAR_2024 - 1, 500_000_000);
    let mut outcomes = Vec::new();
    for offset in [10_000i64, -10_000, 0] {
        let wait = wait_micros(start, offset) as i64;
        let sent_micros = (start.secs * 1_000_000 + (start.nanos / 1000) as i64) + wait;
        let sent = ts(sent_micros.div_euclid(1_000_000), (sent_micros.rem_euclid(1_000_000) * 1000) as u32);
        outcomes.push(complete_probe(offset, sent, Some("Mon, 01 Jan 2024 00:00:00 GMT")));
    }
    let (samples, failures) = split_outcomes(outcomes);
    assert!(failures.is_empty());
    let rows = finalize(samples);
    let text: Vec<String> = rows.iter().map(format_row).collect();
    assert_eq!(
        text,
        vec![
            "-10000,2024-01-01T00:00:00Z,2023-12-31T23:59:59.990Z",
            "0,2024-01-01T00:00:00Z,2024-01-01T00:00:00Z",
            "10000,2024-01-01T00:00:00Z,2024-01-01T00:00:00.010Z",
        ]
    );
}
