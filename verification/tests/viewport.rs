use term_editor::viewport::{
    clamp_top_for_downward_move, clamp_top_for_upward_move, resolve_vertical_target, Cursor,
    ScreenSize,
};

#[test]
fn moving_up_from_row_zero_scrolls_up() {
    assert_eq!(clamp_top_for_upward_move(5, 0), 4);
    assert_eq!(clamp_top_for_upward_move(1, 0), 0);
}

#[test]
fn moving_up_does_not_scroll_past_the_first_line() {
    assert_eq!(clamp_top_for_upward_move(0, 0), 0);
}

#[test]
fn moving_up_inside_the_window_does_not_scroll() {
    assert_eq!(clamp_top_for_upward_move(5, 1), 5);
    assert_eq!(clamp_top_for_upward_move(5, 23), 5);
}

#[test]
fn moving_down_from_the_last_row_scrolls_down() {
    assert_eq!(clamp_top_for_downward_move(0, 2, 3), 1);
    assert_eq!(clamp_top_for_downward_move(7, 23, 24), 8);
    assert_eq!(clamp_top_for_downward_move(7, 0, 1), 8);
}

#[test]
fn moving_down_inside_the_window_does_not_scroll() {
    assert_eq!(clamp_top_for_downward_move(0, 1, 3), 0);
    assert_eq!(clamp_top_for_downward_move(7, 0, 24), 7);
    assert_eq!(clamp_top_for_downward_move(7, 0, 0), 7);
    assert_eq!(clamp_top_for_downward_move(7, 65535, 0), 7);
}

#[test]
fn vertical_target_is_the_remembered_column_on_a_long_line() {
    assert_eq!(resolve_vertical_target(4, 10), 4);
    assert_eq!(resolve_vertical_target(4, 4), 4);
    assert_eq!(resolve_vertical_target(0, 0), 0);
}

#[test]
fn vertical_target_is_the_line_end_on_a_short_line() {
    assert_eq!(resolve_vertical_target(4, 3), 3);
    assert_eq!(resolve_vertical_target(4, 0), 0);
    assert_eq!(resolve_vertical_target(65535, 70000), 65535);
    assert_eq!(resolve_vertical_target(65535, 65534), 65534);
}

#[test]
fn confine_keeps_a_position_inside_the_window() {
    let size = ScreenSize { width: 80, height: 24 };
    assert_eq!(size.confine(3, 4), Cursor { screen_col: 3, screen_row: 4 });
    assert_eq!(size.confine(79, 23), Cursor { screen_col: 79, screen_row: 23 });
}

#[test]
fn confine_stops_at_the_last_column_and_row() {
    let size = ScreenSize { width: 80, height: 24 };
    assert_eq!(size.confine(80, 24), Cursor { screen_col: 79, screen_row: 23 });
    assert_eq!(size.confine(100_000, 0), Cursor { screen_col: 79, screen_row: 0 });
    assert_eq!(size.confine(0, 100_000), Cursor { screen_col: 0, screen_row: 23 });
    let cell = ScreenSize { width: 1, height: 1 };
    assert_eq!(cell.confine(1, 1), Cursor { screen_col: 0, screen_row: 0 });
}
