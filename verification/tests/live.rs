use faster_cli::probe::transfer::{Progress, Stage};
use faster_cli::render::live::{frame, reading};
use faster_cli::units::{Bitrate, Bytes, Duration};

fn progress(stage: Stage) -> Progress {
    Progress {
        direction: "Download",
        stage,
        transferred: Bytes::new(125_000_000),
        elapsed: Duration::from_secs(5),
        rate: Bitrate::from_transfer(Bytes::new(125_000_000), Duration::from_secs(5)),
    }
}

#[test]
fn a_settled_sample_is_drawn_large() {
    let drawn = frame(progress(Stage::Measuring), 80);
    assert_eq!(drawn[0], "DOWNLOAD");
    assert!(
        drawn.iter().any(|line| line.contains('█')),
        "a settled reading is shown as block digits"
    );
}

#[test]
fn a_warming_sample_shows_no_number_at_all() {
    let drawn = frame(progress(Stage::Warmup), 80);
    assert!(drawn.contains(&"warming up".to_owned()));
    assert!(
        !drawn.iter().any(|line| line.contains('█')),
        "an unsettled rate must not be shown as a reading"
    );
}

#[test]
fn the_unit_drops_below_the_number_when_it_will_not_fit_beside_it() {
    let drawn = frame(progress(Stage::Measuring), 80);
    assert!(
        drawn.contains(&"Mbps".to_owned()),
        "a unit that cannot be set beside the number is still named"
    );
    assert!(drawn.iter().any(|line| line.contains('█')));
}

#[test]
fn a_window_too_narrow_for_the_art_still_shows_the_reading() {
    let drawn = frame(progress(Stage::Measuring), 20);
    assert!(
        drawn.iter().any(|line| line.contains("200.0 Mbps")),
        "giving up the block digits must not mean giving up the number"
    );
}

#[test]
fn no_frame_is_wider_than_the_screen_it_was_built_for() {
    for width in [20u16, 40, 80, 200] {
        let drawn = frame(progress(Stage::Measuring), width);
        let widest = drawn.iter().map(|line| line.chars().count()).max().unwrap();
        assert!(
            widest <= width as usize,
            "a {width} column screen was given a {widest} column frame, which wraps"
        );
    }
}

#[test]
fn a_frame_ends_with_the_elapsed_seconds() {
    let drawn = frame(progress(Stage::Warmup), 80);
    assert_eq!(drawn.last().map(String::as_str), Some("5s"));
    assert_eq!(drawn.len(), 5);
}

#[test]
fn a_reading_that_fits_is_the_art_plus_the_unit() {
    let drawn = reading(progress(Stage::Measuring), 49);
    assert_eq!(drawn.len(), 11);
    assert_eq!(drawn[9], "");
    assert_eq!(drawn[10], "Mbps");
    let narrow = reading(progress(Stage::Measuring), 48);
    assert_eq!(narrow, vec!["200.0 Mbps".to_owned()]);
}

#[test]
fn the_direction_heads_the_frame_in_capitals() {
    let mut sample = progress(Stage::Warmup);
    sample.direction = "Upload";
    assert_eq!(frame(sample, 80)[0], "UPLOAD");
}
