use faster_cli::error::Error;
use faster_cli::probe::latency::{summarize_probes, Latency};
use faster_cli::units::Duration;

fn millis(values: &[u64]) -> Vec<Duration> {
    values.iter().copied().map(Duration::from_millis).collect()
}

#[test]
fn median_ignores_a_single_stalled_probe() {
    let latency =
        Latency::from_samples(millis(&[20, 21, 19, 22, 400])).expect("samples were provided");
    assert_eq!(latency.median(), Duration::from_millis(21));
    assert_eq!(latency.samples(), 5);
}

#[test]
fn median_of_an_even_count_averages_the_middle_pair() {
    let latency = Latency::from_samples(millis(&[10, 20, 30, 40])).expect("samples exist");
    assert_eq!(latency.median(), Duration::from_millis(25));
}

#[test]
fn jitter_measures_variation_between_consecutive_probes() {
    let steady = Latency::from_samples(millis(&[20, 20, 20])).expect("samples exist");
    assert_eq!(steady.jitter(), Duration::zero());

    let erratic = Latency::from_samples(millis(&[20, 30, 20])).expect("samples exist");
    assert_eq!(erratic.jitter(), Duration::from_millis(10));
}

#[test]
fn a_lone_probe_has_no_jitter_to_report() {
    let latency = Latency::from_samples(millis(&[42])).expect("one sample is enough");
    assert_eq!(latency.median(), Duration::from_millis(42));
    assert_eq!(latency.jitter(), Duration::zero());
}

#[test]
fn no_successful_probe_yields_no_summary() {
    assert!(Latency::from_samples(Vec::new()).is_none());
}

#[test]
fn jitter_follows_the_order_the_probes_ran_in() {
    // Sorted these would vary by 10 ms per step; as measured they jump.
    let latency = Latency::from_samples(millis(&[10, 30, 20])).expect("samples exist");
    assert_eq!(latency.jitter(), Duration::from_millis(15));
    assert_eq!(latency.median(), Duration::from_millis(20));
}

#[test]
fn failed_probes_are_left_out_of_the_summary() {
    let outcomes = vec![
        Ok(Duration::from_millis(12)),
        Err("connection refused".to_owned()),
        Ok(Duration::from_millis(14)),
    ];
    let latency = summarize_probes("speed.cloudflare.com", &outcomes).expect("two probes landed");
    assert_eq!(latency.samples(), 2);
    assert_eq!(latency.median(), Duration::from_millis(13));
}

#[test]
fn when_every_probe_fails_the_last_reason_is_reported() {
    let outcomes: Vec<Result<Duration, String>> =
        vec![Err("timed out".to_owned()), Err("connection reset".to_owned())];
    match summarize_probes("speed.cloudflare.com", &outcomes) {
        Err(Error::Connect { host, source }) => {
            assert_eq!(host, "speed.cloudflare.com");
            assert_eq!(source, "connection reset");
        }
        other => panic!("expected a connection failure, got {other:?}"),
    }
    match summarize_probes("example.net", &Vec::new()) {
        Err(Error::Connect { source, .. }) => {
            assert_eq!(source, "connection failed for an unknown reason")
        }
        other => panic!("expected a connection failure, got {other:?}"),
    }
}

#[test]
fn reading_the_probes_backwards_keeps_the_jitter() {
    let forward = Latency::from_samples(millis(&[20, 35, 10, 18])).expect("samples exist");
    let backward = Latency::from_samples(millis(&[18, 10, 35, 20])).expect("samples exist");
    // Gaps of 15, 25 and 8 ms: 48 ms over three gaps.
    assert_eq!(forward.jitter(), Duration::from_millis(16));
    assert_eq!(backward.jitter(), forward.jitter());
}
