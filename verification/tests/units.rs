use faster_cli::units::{Bitrate, Bytes, Direction, Download, Duration, Magnitude, Throughput};

fn bits_per_second(rate: Bitrate) -> f64 {
    let (numerator, denominator) = rate.bits_per_second_ratio();
    numerator as f64 / denominator as f64
}

fn megabits_per_second(rate: Bitrate) -> f64 {
    bits_per_second(rate) / 1e6
}

#[test]
fn bitrate_converts_bytes_per_second_to_bits_per_second() {
    let rate = Bitrate::from_transfer(Bytes::new(1_000_000), Duration::from_secs(1));
    assert_eq!(bits_per_second(rate), 8_000_000.0);
    assert_eq!(megabits_per_second(rate), 8.0);
}

#[test]
fn bitrate_is_zero_when_no_time_elapsed() {
    let rate = Bitrate::from_transfer(Bytes::new(1_000), Duration::zero());
    assert_eq!(rate, Bitrate::zero());
}

#[test]
fn bitrate_picks_the_magnitude_that_reads_best() {
    let cases = [
        (12_500u64, Magnitude::Kilobits, "100 Kbps"),
        (1_250_000, Magnitude::Megabits, "10.0 Mbps"),
        (1_250_000_000, Magnitude::Gigabits, "10.00 Gbps"),
    ];
    for (bytes, magnitude, rendered) in cases {
        let rate = Bitrate::from_transfer(Bytes::new(bytes), Duration::from_secs(1));
        assert_eq!(rate.scaled().1, magnitude);
        assert_eq!(rate.to_text(), rendered);
    }
}

#[test]
fn throughput_carries_its_direction_in_the_type() {
    let download = Throughput::<Download>::new(Bytes::new(2_000_000), Duration::from_secs(2));
    assert_eq!(megabits_per_second(download.bitrate()), 8.0);
    assert_eq!(Download::LABEL, "Download");
}

#[test]
fn throughput_stays_copy_despite_its_uninhabited_tag() {
    fn assert_copy<T: Copy>(_: T) {}
    let download = Throughput::<Download>::new(Bytes::new(1), Duration::from_secs(1));
    assert_copy(download);
    assert_eq!(download.bytes(), Bytes::new(1));
    assert_eq!(download.elapsed(), Duration::from_secs(1));
}

#[test]
fn bytes_accumulate() {
    let total: Bytes = Bytes::sum(&[Bytes::new(10), Bytes::new(32)]);
    assert_eq!(total, Bytes::new(42));
    assert!(Bytes::default().is_zero());
}

#[test]
fn a_zero_rate_reads_as_zero_kilobits() {
    assert_eq!(Bitrate::zero().to_text(), "0 Kbps");
    assert_eq!(Bitrate::zero().scaled(), (0, Magnitude::Kilobits));
}

#[test]
fn readings_round_half_to_even() {
    // 1.25 Mbps at one decimal is a tie between 1.2 and 1.3.
    let tie = Bitrate::from_transfer(Bytes::new(156_250), Duration::from_secs(1));
    assert_eq!(tie.to_text(), "1.2 Mbps");
    // 1.35 Mbps rounds up to the even 1.4.
    let up = Bitrate::from_transfer(Bytes::new(168_750), Duration::from_secs(1));
    assert_eq!(up.to_text(), "1.4 Mbps");
}

#[test]
fn the_magnitude_switches_at_a_whole_unit() {
    let just_below = Bitrate::from_transfer(Bytes::new(124_999), Duration::from_secs(1));
    assert_eq!(just_below.scaled().1, Magnitude::Kilobits);
    assert_eq!(just_below.to_text(), "1000 Kbps");
    let one_megabit = Bitrate::from_transfer(Bytes::new(125_000), Duration::from_secs(1));
    assert_eq!(one_megabit.scaled(), (10, Magnitude::Megabits));
    assert_eq!(one_megabit.to_text(), "1.0 Mbps");
}

#[test]
fn equal_ratios_are_equal_rates() {
    let a = Bitrate::from_transfer(Bytes::new(1_000), Duration::from_secs(1));
    let b = Bitrate::from_transfer(Bytes::new(2_000), Duration::from_secs(2));
    let c = Bitrate::from_transfer(Bytes::new(2_001), Duration::from_secs(2));
    assert_eq!(a, b);
    assert_ne!(a, c);
}

#[test]
fn megabits_are_rounded_to_hundredths_half_away_from_zero() {
    let rate = Bitrate::from_transfer(Bytes::new(123_456_789), Duration::from_secs(7));
    assert_eq!(rate.megabits_per_second_hundredths(), 14_109);
    // 0.125 Mbps is a tie at two decimals and rounds away from zero.
    let tie = Bitrate::from_transfer(Bytes::new(15_625), Duration::from_secs(1));
    assert_eq!(tie.megabits_per_second_hundredths(), 13);
}

#[test]
fn durations_convert_between_units() {
    assert_eq!(Duration::from_millis(12).as_nanos(), 12_000_000);
    assert_eq!(Duration::from_micros(12_345).as_nanos(), 12_345_000);
    assert_eq!(Duration::from_secs(3).checked_sub(Duration::from_secs(5)), None);
    assert_eq!(
        Duration::from_secs(5).checked_sub(Duration::from_secs(3)),
        Some(Duration::from_secs(2))
    );
    assert_eq!(
        Duration::from_millis(20).abs_diff(Duration::from_millis(30)),
        Duration::from_millis(10)
    );
}

#[test]
fn faster_rates_compare_greater() {
    let slow = Bitrate::from_transfer(Bytes::new(1_000), Duration::from_secs(1));
    let fast = Bitrate::from_transfer(Bytes::new(3_000), Duration::from_secs(2));
    assert!(slow < fast);
    assert!(fast > slow);
    assert!(Bitrate::default() < slow);
    assert_eq!(Bitrate::default(), Bitrate::zero());
    let same = Bitrate::from_transfer(Bytes::new(2_000), Duration::from_secs(2));
    assert!(slow <= same && slow >= same);
}

#[test]
fn throughputs_are_equal_when_they_moved_the_same_bytes_in_the_same_time() {
    let a = Throughput::<Download>::new(Bytes::new(10), Duration::from_secs(1));
    let b = Throughput::<Download>::new(Bytes::new(10), Duration::from_secs(1));
    let c = Throughput::<Download>::new(Bytes::new(20), Duration::from_secs(2));
    assert_eq!(a, b);
    assert_ne!(a, c);
}

#[test]
fn adding_two_counts_and_summing_them_agree() {
    assert_eq!(Bytes::new(10) + Bytes::new(32), Bytes::new(42));
    assert_eq!(Bytes::sum(&[]), Bytes::new(0));
}
