use faster_cli::endpoint::Endpoint;
use faster_cli::error::Error;
use faster_cli::probe::transfer::{
    check_status, has_converged, next_upload_piece, transfer_url, FailureStreak, Kind, Phase,
    Plan, Stage, Supervisor, Timeline, SAMPLE_INTERVAL_MILLIS, STABILITY_TOLERANCE,
    STABILITY_WINDOW, UPLOAD_PIECE_BYTES,
};
use faster_cli::units::{Bitrate, Bytes, Download, Duration, Throughput, Upload};

/// Builds a timeline from `(second, cumulative megabyte)` pairs.
fn timeline(points: &[(u64, u64)]) -> Timeline {
    let mut timeline = Timeline::default();
    for (second, megabytes) in points {
        timeline.record(
            Duration::from_secs(*second),
            Bytes::new(megabytes * 1_000_000),
        );
    }
    timeline
}

/// A rate of `bits_per_second / 4` bytes over 32 seconds, which is exact
/// for any multiple of a quarter bit per second.
fn rate(quarter_bits_per_second: u64) -> Bitrate {
    Bitrate::from_transfer(Bytes::new(quarter_bits_per_second), Duration::from_secs(32))
}

fn megabits_per_second(rate: Bitrate) -> f64 {
    let (numerator, denominator) = rate.bits_per_second_ratio();
    numerator as f64 / denominator as f64 / 1e6
}

#[test]
fn the_default_plan_warms_up_inside_its_own_bounds() {
    let plan = Plan::default();
    assert!(plan.warmup() < plan.min_duration());
    assert!(plan.min_duration() <= plan.max_duration());
}

#[test]
fn the_connection_ramp_finishes_before_the_measurement_window_opens() {
    let plan = Plan::default();
    let ramp = Duration::from_millis(SAMPLE_INTERVAL_MILLIS * (plan.connections() as u64 - 1));
    assert!(
        ramp < plan.warmup(),
        "opening {} connections takes {ramp:?}, which spills past the {:?} warmup and would \
         leave the connection count changing inside the measured window",
        plan.connections(),
        plan.warmup()
    );
}

#[test]
fn each_direction_tag_selects_its_own_request() {
    assert_eq!(Download::KIND, Kind::Download);
    assert_eq!(Upload::KIND, Kind::Upload);
}

#[test]
fn the_measured_span_excludes_the_warmup() {
    // A link that crawls for 2s while slow start opens up, then settles
    // at 10 MB/s. Counting from zero would report 8.3 MB/s.
    let recorded = timeline(&[(0, 0), (1, 1), (2, 2), (3, 12), (4, 22), (5, 32)]);
    let (moved, over) = recorded
        .measured(Duration::from_secs(2))
        .expect("the span is well defined");
    assert_eq!(moved, Bytes::new(30_000_000));
    assert_eq!(over, Duration::from_secs(3));
    assert_eq!(megabits_per_second(Bitrate::from_transfer(moved, over)), 80.0);
}

#[test]
fn a_span_shorter_than_the_warmup_falls_back_to_the_whole_run() {
    let recorded = timeline(&[(0, 0), (1, 5)]);
    let (moved, over) = recorded
        .measured(Duration::from_secs(30))
        .expect("the total is still known");
    assert_eq!(moved, Bytes::new(5_000_000));
    assert_eq!(over, Duration::from_secs(1));
}

#[test]
fn an_empty_timeline_measures_nothing() {
    assert!(Timeline::default().measured(Duration::zero()).is_none());
}

#[test]
fn convergence_needs_a_full_settled_window() {
    // 100 bits per second, eight times.
    let settled = vec![rate(400); STABILITY_WINDOW];
    assert!(has_converged(&settled, STABILITY_TOLERANCE));

    assert!(!has_converged(&settled[1..], STABILITY_TOLERANCE));

    let mut climbing = settled.clone();
    climbing.push(rate(560));
    assert!(!has_converged(&climbing, STABILITY_TOLERANCE));
}

#[test]
fn convergence_is_judged_relative_to_the_link_speed() {
    // The same 2 bit per second spread settles a fast link but not a slow one:
    // 1000 + i/4 against 10 + i/4 bits per second.
    let fast: Vec<Bitrate> = (0..STABILITY_WINDOW as u64).map(|index| rate(4_000 + index)).collect();
    assert!(has_converged(&fast, STABILITY_TOLERANCE));

    let slow: Vec<Bitrate> = (0..STABILITY_WINDOW as u64).map(|index| rate(40 + index)).collect();
    assert!(!has_converged(&slow, STABILITY_TOLERANCE));
}

#[test]
fn a_window_with_a_stalled_reading_never_counts_as_settled() {
    let mut rates = vec![rate(400); STABILITY_WINDOW];
    rates[3] = Bitrate::zero();
    assert!(!has_converged(&rates, STABILITY_TOLERANCE));
}

#[test]
fn the_tolerance_is_a_bound_on_the_spread() {
    // 100 and 105 bits per second: exactly five percent apart.
    let mut rates = vec![rate(400); STABILITY_WINDOW];
    rates[0] = rate(420);
    assert!(has_converged(&rates, 5));
    assert!(!has_converged(&rates, 4));
}

#[test]
fn each_phase_requests_its_own_route() {
    let endpoint = Endpoint::cloudflare();
    let plan = Plan::default();
    assert_eq!(
        transfer_url(Kind::Download, &endpoint, &plan),
        "https://speed.cloudflare.com/__down?bytes=25000000"
    );
    assert_eq!(
        transfer_url(Kind::Upload, &endpoint, &plan),
        "https://speed.cloudflare.com/__up"
    );
}

#[test]
fn a_refusal_to_serve_is_told_apart_from_other_statuses() {
    assert!(check_status(200).is_ok());
    assert!(check_status(204).is_ok());
    assert!(matches!(check_status(429), Err(Error::RateLimited)));
    assert!(matches!(
        check_status(503),
        Err(Error::UnexpectedStatus { status: 503 })
    ));
}

#[test]
fn three_failures_in_a_row_end_a_connection() {
    let mut streak = FailureStreak::new();
    assert!(streak.record(Err(Error::UnexpectedStatus { status: 500 })).is_none());
    assert!(streak.record(Err(Error::UnexpectedStatus { status: 502 })).is_none());
    assert!(matches!(
        streak.record(Err(Error::UnexpectedStatus { status: 503 })),
        Some(Error::UnexpectedStatus { status: 503 })
    ));
}

#[test]
fn a_success_resets_the_failure_count() {
    let mut streak = FailureStreak::new();
    assert!(streak.record(Err(Error::Transport("reset".to_owned()))).is_none());
    assert!(streak.record(Err(Error::Transport("reset".to_owned()))).is_none());
    assert!(streak.record(Ok(())).is_none());
    assert!(streak.record(Err(Error::Transport("reset".to_owned()))).is_none());
    assert!(streak.record(Err(Error::Transport("reset".to_owned()))).is_none());
}

#[test]
fn a_rate_limit_ends_a_connection_at_once() {
    let mut streak = FailureStreak::new();
    assert!(matches!(streak.record(Err(Error::RateLimited)), Some(Error::RateLimited)));
}

#[test]
fn upload_bodies_are_sent_in_bounded_pieces() {
    assert_eq!(next_upload_piece(25_000_000, false), Some(UPLOAD_PIECE_BYTES));
    assert_eq!(next_upload_piece(1_000, false), Some(1_000));
    assert_eq!(next_upload_piece(0, false), None);
    assert_eq!(next_upload_piece(1_000, true), None);
    let mut remaining = 200_000;
    let mut sent = 0;
    while let Some(piece) = next_upload_piece(remaining, false) {
        sent += piece;
        remaining -= piece;
    }
    assert_eq!(sent, 200_000);
}

#[test]
fn connections_are_only_opened_during_the_warmup_and_up_to_the_plan() {
    let plan = Plan::default();
    let mut supervisor = Supervisor::new(plan, "Download");
    let mut opened = 1;
    for tick in 1..=40u64 {
        let at = Duration::from_millis(200 * tick);
        let outcome = supervisor.tick(at, Bytes::new(tick * 1_000_000));
        if outcome.open_connection {
            opened += 1;
            assert!(at < plan.warmup());
        }
        assert_eq!(outcome.progress.direction, "Download");
    }
    assert_eq!(opened, plan.connections());
    assert_eq!(supervisor.opened(), plan.connections());
}

#[test]
fn a_sample_is_a_reading_once_it_covers_a_second_of_the_window() {
    let mut supervisor = Supervisor::new(Plan::default(), "Upload");
    let mut stages = Vec::new();
    for tick in 1..=25u64 {
        let outcome = supervisor.tick(Duration::from_millis(200 * tick), Bytes::new(tick * 500_000));
        stages.push(outcome.progress.stage);
    }
    // The window opens at 3.0s (tick 15) and covers a second at 4.0s (tick 20).
    assert!(stages[..19].iter().all(|stage| *stage == Stage::Warmup));
    assert!(stages[19..].iter().all(|stage| *stage == Stage::Measuring));
}

#[test]
fn a_phase_stops_when_settled_but_not_before_its_minimum() {
    let plan = Plan::default();
    let mut supervisor = Supervisor::new(plan, "Download");
    let mut stopped_at = None;
    for tick in 1..=100u64 {
        let at = Duration::from_millis(200 * tick);
        supervisor.tick(at, Bytes::new(tick * 2_000_000));
        if supervisor.should_stop(at, true) {
            stopped_at = Some(at);
            break;
        }
    }
    assert_eq!(stopped_at, Some(Duration::from_secs(8)));
    assert!(supervisor.should_stop(Duration::from_secs(1), false));
}

#[test]
fn a_phase_without_bytes_reports_why() {
    let supervisor = Supervisor::new(Plan::default(), "Upload");
    let outcome = supervisor.conclude::<Upload>(Bytes::new(0), Duration::from_secs(20));
    assert!(matches!(outcome, Err(Error::NoData { direction: "Upload" })));

    let mut failing = Supervisor::new(Plan::default(), "Upload");
    failing.record_failure(Error::RateLimited);
    failing.record_failure(Error::UnexpectedStatus { status: 500 });
    let outcome = failing.conclude::<Upload>(Bytes::new(0), Duration::from_secs(20));
    assert!(matches!(outcome, Err(Error::RateLimited)));
}

#[test]
fn a_phase_reports_its_measured_window() {
    let mut supervisor = Supervisor::new(Plan::default(), "Download");
    for tick in 1..=50u64 {
        supervisor.tick(Duration::from_millis(200 * tick), Bytes::new(tick * 1_000_000));
    }
    let throughput: Throughput<Download> = supervisor
        .conclude(Bytes::new(50_000_000), Duration::from_secs(10))
        .expect("bytes moved");
    // From 3.0s (15 MB) to 10.0s (50 MB).
    assert_eq!(throughput.bytes(), Bytes::new(35_000_000));
    assert_eq!(throughput.elapsed(), Duration::from_secs(7));
}

#[test]
fn the_live_reading_is_the_rate_that_is_reported() {
    let mut supervisor = Supervisor::new(Plan::default(), "Download");
    let mut last = None;
    for tick in 1..=40u64 {
        // A link that crawls until the warmup ends, then moves 2 MB a tick.
        let moved = if tick <= 15 { tick * 100_000 } else { 1_500_000 + (tick - 15) * 2_000_000 };
        last = Some(supervisor.tick(Duration::from_millis(200 * tick), Bytes::new(moved)));
    }
    let shown = last.expect("ticked").progress.rate;
    let throughput: Throughput<Download> = supervisor
        .conclude(Bytes::new(0), Duration::from_secs(8))
        .expect("bytes moved");
    assert_eq!(shown, throughput.bitrate());
    // 50 MB over 5 s is 80 Mbps.
    assert_eq!(megabits_per_second(shown), 80.0);
}

#[test]
fn a_phase_without_bytes_is_named_by_its_own_label() {
    let supervisor = Supervisor::new(Plan::default(), "sending");
    let outcome = supervisor.conclude::<Upload>(Bytes::new(0), Duration::zero());
    assert!(matches!(outcome, Err(Error::NoData { direction: "Upload" })));
}
