use faster_cli::endpoint::{ClientInfo, Endpoint};
use faster_cli::probe::latency::Latency;
use faster_cli::report::Report;
use faster_cli::units::{Bytes, Duration, Throughput, Upload};

fn report(upload: Option<Throughput<Upload>>) -> Report {
    Report::new(
        Endpoint::cloudflare(),
        ClientInfo {
            ip: Some("203.0.113.7".to_owned()),
            colo: Some("YYZ".to_owned()),
            country: Some("CA".to_owned()),
        },
        Latency::from_samples(vec![
            Duration::from_millis(12),
            Duration::from_millis(14),
            Duration::from_millis(13),
        ])
        .expect("samples were provided"),
        Throughput::new(Bytes::new(125_000_000), Duration::from_secs(5)),
        upload,
        Duration::from_secs(24),
    )
}

#[test]
fn json_carries_every_measurement() {
    let measured = report(Some(Throughput::new(
        Bytes::new(25_000_000),
        Duration::from_secs(5),
    )));
    let readings = measured.readings();
    assert_eq!(readings.host, "speed.cloudflare.com");
    assert_eq!(readings.colo.as_deref(), Some("YYZ"));
    assert_eq!(readings.ip.as_deref(), Some("203.0.113.7"));
    assert_eq!(readings.country.as_deref(), Some("CA"));
    assert_eq!(readings.latency_ms_hundredths, 1_300);
    assert_eq!(readings.jitter_ms_hundredths, 150);
    assert_eq!(readings.download_mbps_hundredths, 20_000);
    assert_eq!(readings.downloaded_bytes, 125_000_000);
    assert_eq!(readings.upload_mbps_hundredths, Some(4_000));
    assert_eq!(readings.uploaded_bytes, Some(25_000_000));
    assert_eq!(readings.duration_s_hundredths, 2_400);
}

#[test]
fn a_skipped_upload_is_null_rather_than_missing() {
    let readings = report(None).readings();
    assert_eq!(readings.upload_mbps_hundredths, None);
    assert_eq!(readings.uploaded_bytes, None);
}

#[test]
fn readings_are_rounded_but_byte_counts_stay_exact() {
    let measured = Report::new(
        Endpoint::cloudflare(),
        ClientInfo::default(),
        Latency::from_samples(vec![Duration::from_micros(12_345)]).expect("one sample"),
        Throughput::new(Bytes::new(123_456_789), Duration::from_secs(7)),
        None,
        Duration::from_millis(21_499),
    );
    let readings = measured.readings();
    assert_eq!(readings.latency_ms_hundredths, 1_235);
    assert_eq!(readings.download_mbps_hundredths, 14_109);
    assert_eq!(readings.downloaded_bytes, 123_456_789);
    assert_eq!(readings.duration_s_hundredths, 2_150);
}

#[test]
fn a_report_gives_back_what_it_was_built_from() {
    let upload = Throughput::new(Bytes::new(25_000_000), Duration::from_secs(5));
    let measured = report(Some(upload));
    assert_eq!(measured.endpoint().host(), "speed.cloudflare.com");
    assert_eq!(measured.client().colo.as_deref(), Some("YYZ"));
    assert_eq!(measured.latency().median(), Duration::from_millis(13));
    assert_eq!(measured.latency().samples(), 3);
    assert_eq!(measured.download().bytes(), Bytes::new(125_000_000));
    assert_eq!(measured.upload().map(|u| u.bytes()), Some(upload.bytes()));
    assert_eq!(measured.duration(), Duration::from_secs(24));
}
