use image_tool::layout::{
    horizontal_align_of, layout_in_range, vertical_align_of, watermark_positions, Align,
};

#[test]
fn south_east_corner_keeps_the_margin() {
    assert!(layout_in_range(200, 150, 100, 30, 10, 0, "se", false));
    assert_eq!(
        watermark_positions(200, 150, 100, 30, 10, 0, "se", false),
        vec![(90, 110)]
    );
}

#[test]
fn north_west_corner_is_the_margin() {
    assert_eq!(
        watermark_positions(200, 150, 100, 30, 10, 0, "nw", false),
        vec![(10, 10)]
    );
}

#[test]
fn unknown_code_centres_the_text() {
    assert_eq!(
        watermark_positions(200, 150, 100, 30, 10, 0, "c", false),
        vec![(50, 60)]
    );
    assert_eq!(
        watermark_positions(200, 150, 100, 30, 10, 0, "n", false),
        vec![(50, 10)]
    );
    assert_eq!(
        watermark_positions(200, 150, 100, 30, 10, 0, "e", false),
        vec![(90, 60)]
    );
}

#[test]
fn wide_text_centres_toward_zero() {
    assert_eq!(
        watermark_positions(10, 10, 15, 15, 0, 0, "center", false),
        vec![(-2, -2)]
    );
}

#[test]
fn empty_text_draws_nothing() {
    assert!(watermark_positions(200, 150, 0, 30, 10, 0, "se", false).is_empty());
    assert!(watermark_positions(200, 150, 30, 0, 10, 0, "se", true).is_empty());
}

#[test]
fn tiles_fill_rows_then_columns() {
    let ps = watermark_positions(200, 150, 40, 20, 0, 30, "c", true);
    assert_eq!(
        ps,
        vec![
            (0, 0),
            (70, 0),
            (140, 0),
            (0, 50),
            (70, 50),
            (140, 50),
            (0, 100),
            (70, 100),
            (140, 100)
        ]
    );
}

#[test]
fn tiles_start_at_the_margin() {
    let ps = watermark_positions(100, 60, 30, 20, 10, 0, "se", true);
    // columns at 10, 40, 70 (70 + 30 <= 110), rows at 10, 30, 50 (50 + 20 <= 70)
    assert_eq!(ps.len(), 9);
    assert_eq!(ps[0], (10, 10));
    assert_eq!(ps[8], (70, 50));
}

#[test]
fn text_larger_than_canvas_gives_no_tiles() {
    assert!(watermark_positions(50, 50, 60, 10, 0, 0, "c", true).is_empty());
}

#[test]
fn position_codes() {
    assert!(matches!(horizontal_align_of("sw"), Align::Start));
    assert!(matches!(horizontal_align_of("ne"), Align::End));
    assert!(matches!(horizontal_align_of("n"), Align::Center));
    assert!(matches!(vertical_align_of("ne"), Align::Start));
    assert!(matches!(vertical_align_of("s"), Align::End));
    assert!(matches!(vertical_align_of("w"), Align::Center));
}

#[test]
fn out_of_range_inputs_are_detected() {
    assert!(!layout_in_range(200, 150, 400, 30, u32::MAX / 2, 0, "se", false));
    assert!(layout_in_range(200, 150, 100, 30, u32::MAX / 2, 0, "se", false));
    assert!(!layout_in_range(200, 150, 40, 20, 0, 0x7fff_fff0, "c", true));
    assert!(layout_in_range(200, 150, 40, 20, 0, 30, "c", true));
}
