use faster_cli::endpoint::{ClientInfo, Endpoint};
use faster_cli::probe::latency::Latency;
use faster_cli::render::summary::{annotate, milliseconds, row, seconds, summary, Detail};
use faster_cli::report::Report;
use faster_cli::units::{Bytes, Duration, Throughput};

fn report(upload: bool, client: ClientInfo) -> Report {
    Report::new(
        Endpoint::cloudflare(),
        client,
        Latency::from_samples(vec![
            Duration::from_millis(12),
            Duration::from_millis(14),
            Duration::from_millis(13),
        ])
        .expect("samples were provided"),
        Throughput::new(Bytes::new(125_000_000), Duration::from_secs(5)),
        upload.then(|| Throughput::new(Bytes::new(25_000_000), Duration::from_secs(5))),
        Duration::from_millis(24_500),
    )
}

fn located() -> ClientInfo {
    ClientInfo {
        ip: Some("203.0.113.7".to_owned()),
        colo: Some("YYZ".to_owned()),
        country: Some("CA".to_owned()),
    }
}

#[test]
fn a_plain_summary_is_only_the_measurements() {
    assert_eq!(
        summary(&report(true, located()), Detail::Plain),
        [
            "Latency    13.0 ms (±1.5 ms jitter)",
            "Download   200.0 Mbps",
            "Upload     40.0 Mbps",
        ]
    );
}

#[test]
fn a_verbose_summary_says_where_it_was_measured() {
    assert_eq!(
        summary(&report(true, located()), Detail::Verbose)[3..],
        [
            "Server     speed.cloudflare.com (YYZ)",
            "Client     203.0.113.7 (CA)",
            "Duration   24.5s",
        ]
    );
}

#[test]
fn a_skipped_upload_leaves_no_row() {
    let lines = summary(&report(false, located()), Detail::Plain);
    assert!(!lines.iter().any(|line| line.starts_with("Upload")));
}

#[test]
fn missing_metadata_degrades_instead_of_printing_empty_brackets() {
    assert_eq!(
        summary(&report(false, ClientInfo::default()), Detail::Verbose)[2..],
        [
            "Server     speed.cloudflare.com",
            "Client     unknown",
            "Duration   24.5s",
        ]
    );
}

#[test]
fn labels_longer_than_the_column_push_the_value_right() {
    assert_eq!(row("Throughputs", "1"), "Throughputs 1");
    assert_eq!(row("", "x"), "           x");
}

#[test]
fn notes_are_bracketed_only_when_present() {
    assert_eq!(annotate("host", Some("AMS")), "host (AMS)");
    assert_eq!(annotate("host", None), "host");
}

#[test]
fn spans_are_shown_to_one_decimal() {
    assert_eq!(milliseconds(Duration::from_micros(12_345)), "12.3 ms");
    assert_eq!(milliseconds(Duration::from_micros(12_350)), "12.4 ms");
    assert_eq!(milliseconds(Duration::zero()), "0.0 ms");
    assert_eq!(seconds(Duration::from_millis(21_499)), "21.5s");
    assert_eq!(seconds(Duration::from_millis(1_250)), "1.2s");
}
