use dd_siteforge::text::input_lines_preserve;
use dd_siteforge::textarea::{
    cursor_from_row_col, render_textarea_display, textarea_cursor_col, textarea_cursor_row,
    textarea_display_rows, textarea_max_rows_for_window, textarea_move_cursor_vertical,
    textarea_visual_line_count, TEXTAREA_MAX_DISPLAY_ROWS,
};

#[test]
fn textarea_display_rows_grows_with_content_and_caps() {
    assert_eq!(textarea_display_rows("one line", 3, None, 35), 3);
    assert_eq!(
        textarea_display_rows("one\ntwo\nthree\nfour", 3, None, 35),
        4
    );

    let many_lines = (0..80).map(|_| "line").collect::<Vec<_>>().join("\n");
    assert_eq!(
        textarea_display_rows(&many_lines, 3, None, TEXTAREA_MAX_DISPLAY_ROWS),
        TEXTAREA_MAX_DISPLAY_ROWS
    );

    assert_eq!(textarea_display_rows(&many_lines, 3, None, 10), 10);
    assert_eq!(textarea_display_rows("abcdef", 1, Some(2), 35), 3);
}

#[test]
fn textarea_display_scrolls_to_cursor_without_truncating_value() {
    let value = "one\ntwo\nthree\nfour\nfive";
    let rendered = render_textarea_display(value, value.chars().count(), true, 3);

    assert_eq!(rendered, "three\nfour\nfive▋");
}

#[test]
fn textarea_vertical_cursor_movement_keeps_column_when_possible() {
    let value = "abc\ndefgh\nij";
    let cursor = cursor_from_row_col(&input_lines_preserve(value), 1, 4);

    assert_eq!(
        textarea_move_cursor_vertical(value, cursor, -1),
        cursor_from_row_col(&input_lines_preserve(value), 0, 3)
    );
    assert_eq!(
        textarea_move_cursor_vertical(value, cursor, 1),
        cursor_from_row_col(&input_lines_preserve(value), 2, 2)
    );
}

#[test]
fn cursor_row_and_col_count_newlines_before_the_cursor() {
    let value = "ab\ncde\nf";
    assert_eq!(textarea_cursor_row(value, 0), 0);
    assert_eq!(textarea_cursor_col(value, 0), 0);
    assert_eq!(textarea_cursor_row(value, 4), 1);
    assert_eq!(textarea_cursor_col(value, 4), 1);
    assert_eq!(textarea_cursor_row(value, 100), 2);
    assert_eq!(textarea_cursor_col(value, 100), 1);
}

#[test]
fn cursor_from_row_col_round_trips_row_and_col() {
    let value = "abc\ndefgh\nij";
    let lines = input_lines_preserve(value);
    let cursor = cursor_from_row_col(&lines, 1, 2);
    assert_eq!(cursor, 6);
    assert_eq!(textarea_cursor_row(value, cursor), 1);
    assert_eq!(textarea_cursor_col(value, cursor), 2);
    // Rows and columns past the end clamp.
    assert_eq!(cursor_from_row_col(&lines, 9, 9), 12);
}

#[test]
fn vertical_move_clamps_at_first_and_last_row() {
    let value = "abc\ndefgh\nij";
    assert_eq!(textarea_move_cursor_vertical(value, 1, -1), 1);
    assert_eq!(textarea_move_cursor_vertical(value, 11, 1), 11);
}

#[test]
fn display_pads_to_the_visible_rows_and_marks_the_cursor_only_when_focused() {
    let rendered = render_textarea_display("one\ntwo", 0, false, 5);
    assert_eq!(rendered, "one\ntwo\n\n\n");
    let focused = render_textarea_display("one\ntwo", 1, true, 5);
    assert_eq!(focused, "o▋ne\ntwo\n\n\n");
}

#[test]
fn visual_line_count_wraps_long_lines() {
    assert_eq!(textarea_visual_line_count("abcdef", None), 1);
    assert_eq!(textarea_visual_line_count("abcdef", Some(2)), 3);
    assert_eq!(textarea_visual_line_count("abcde\n", Some(2)), 4);
    assert_eq!(textarea_visual_line_count("", Some(4)), 1);
}

#[test]
fn max_rows_for_window_leaves_room_for_chrome() {
    assert_eq!(textarea_max_rows_for_window(10), 7);
    assert_eq!(textarea_max_rows_for_window(200), TEXTAREA_MAX_DISPLAY_ROWS);
    assert_eq!(textarea_max_rows_for_window(4), 1);
    assert_eq!(textarea_max_rows_for_window(0), 1);
}

#[test]
fn cursor_round_trips_through_row_and_column() {
    let v = "ab\n\ncde\nf";
    let lines = input_lines_preserve(v);
    for c in 0..12usize {
        let row = textarea_cursor_row(v, c);
        let col = textarea_cursor_col(v, c);
        assert_eq!(cursor_from_row_col(&lines, row, col), c.min(9));
    }
}
