use faster_cli::render::text::{can_draw, center, enlarge, enlarged_width, GLYPH_HEIGHT};

#[test]
fn enlarged_text_is_nine_rows_tall() {
    let drawn = enlarge("1.5");
    assert_eq!(drawn.len(), GLYPH_HEIGHT);
    for row in &drawn {
        assert_eq!(row.chars().count(), 9 * 3 + 2);
    }
}

#[test]
fn a_character_without_a_glyph_leaves_a_gap() {
    let drawn = enlarge("?");
    assert!(
        drawn.iter().all(|row| row.trim().is_empty()),
        "an unknown character must not render as some other digit"
    );
}

#[test]
fn a_frame_always_fills_its_height() {
    let lines = vec!["one".to_owned(), "two".to_owned()];
    let frame = center(&lines, 20, 10);
    assert_eq!(frame.len(), 10);
    assert_eq!(frame[4], format!("{}one", " ".repeat(8)));
    assert_eq!(frame[5], format!("{}two", " ".repeat(8)));
}

#[test]
fn content_taller_than_the_frame_is_cut_to_fit() {
    let lines: Vec<String> = (0..40).map(|index| index.to_string()).collect();
    assert_eq!(center(&lines, 20, 5).len(), 5);
}

#[test]
fn centring_counts_characters_not_bytes() {
    // Each block is three bytes; measuring in bytes would push this left.
    let frame = center(&["███".to_owned()], 11, 1);
    assert_eq!(frame[0], "    ███");
}

#[test]
fn a_blank_line_stays_blank_rather_than_becoming_padding() {
    let frame = center(&[String::new()], 60, 1);
    assert_eq!(frame[0], "");
}

#[test]
fn a_line_wider_than_the_frame_is_left_alone() {
    let frame = center(&["a very long line".to_owned()], 4, 1);
    assert_eq!(frame[0], "a very long line");
}

#[test]
fn the_digits_are_drawn_as_designed() {
    let one = enlarge("1");
    assert_eq!(one[0], "    ██   ");
    assert_eq!(one[8], " ███████ ");
    let point = enlarge(".");
    assert_eq!(point[7], "   ██    ");
    assert_eq!(point[0], "         ");
}

#[test]
fn only_digits_and_the_point_can_be_drawn() {
    assert!(can_draw("0123456789."));
    assert!(!can_draw("1 Mbps"));
    assert!(can_draw(""));
}

#[test]
fn drawn_width_counts_a_column_between_glyphs() {
    assert_eq!(enlarged_width(""), 0);
    assert_eq!(enlarged_width("7"), 9);
    assert_eq!(enlarged_width("200.0"), 49);
    assert_eq!(enlarge("").iter().filter(|row| !row.is_empty()).count(), 0);
}

#[test]
fn cut_content_keeps_its_first_lines() {
    let lines: Vec<String> = (0..40).map(|index| index.to_string()).collect();
    let frame = center(&lines, 4, 3);
    assert_eq!(frame, vec![" 0".to_owned(), " 1".to_owned(), " 2".to_owned()]);
}
