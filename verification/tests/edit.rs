use term_editor::buffer::{movement, BufferContext, BufferMode, Direction};
use term_editor::render::ScreenOp;
use term_editor::viewport::{Cursor, ScreenSize};

fn text(lines: &[&str]) -> Vec<Vec<char>> {
    lines.iter().map(|l| l.chars().collect()).collect()
}

fn state(lines: &[&str], top: usize, col: u16, row: u16, last_x: u16) -> BufferContext {
    BufferContext {
        buffer: text(lines),
        cursor: Cursor { screen_col: col, screen_row: row },
        last_x,
        top,
        mode: BufferMode::Normal,
        path: String::from("p"),
    }
}

fn at(col: u16, row: u16) -> Cursor {
    Cursor { screen_col: col, screen_row: row }
}

fn fill(n: usize) -> Vec<u8> {
    vec![b' '; n]
}

fn line_ops(row: u16, width: usize, line: &str) -> Vec<ScreenOp> {
    vec![
        ScreenOp::MoveTo { col: 0, row },
        ScreenOp::Write { bytes: fill(width) },
        ScreenOp::MoveTo { col: 0, row },
        ScreenOp::Write { bytes: line.as_bytes().to_vec() },
    ]
}

fn blank_ops(row: u16, width: usize) -> Vec<ScreenOp> {
    vec![ScreenOp::MoveTo { col: 0, row }, ScreenOp::Write { bytes: fill(width) }]
}

const SIZE: ScreenSize = ScreenSize { width: 10, height: 4 };

#[test]
fn fits_in_accepts_a_cursor_on_the_text_and_the_screen() {
    assert!(state(&["ab", "c"], 0, 2, 0, 0).fits_in(SIZE));
    assert!(state(&["ab", "c"], 0, 1, 1, 0).fits_in(SIZE));
    assert!(state(&["ab", "c"], 1, 1, 0, 0).fits_in(SIZE));
}

#[test]
fn fits_in_rejects_a_cursor_off_the_text() {
    assert!(!state(&["ab", "c"], 0, 3, 0, 0).fits_in(SIZE));
    assert!(!state(&["ab", "c"], 0, 0, 2, 0).fits_in(SIZE));
    assert!(!state(&["ab", "c"], 1, 0, 1, 0).fits_in(SIZE));
    assert!(!state(&["ab", "c"], 2, 0, 0, 0).fits_in(SIZE));
    assert!(!state(&["ab", "c"], usize::MAX, 0, 1, 0).fits_in(SIZE));
    assert!(!state(&[], 0, 0, 0, 0).fits_in(SIZE));
}

#[test]
fn is_well_formed_looks_at_the_text_only() {
    assert!(state(&["ab", "c"], 0, 2, 0, 0).is_well_formed());
    assert!(state(&["abcdefghijkl"], 0, 12, 0, 0).is_well_formed());
    assert!(!state(&["ab", "c"], 0, 3, 0, 0).is_well_formed());
    assert!(!state(&["ab", "c"], 1, 0, 1, 0).is_well_formed());
    assert!(!state(&[], 0, 0, 0, 0).is_well_formed());
}

#[test]
fn fits_in_rejects_a_cursor_off_the_screen() {
    let editor = state(&["abcdefghijkl", "", "", "", ""], 0, 10, 0, 0);
    assert!(!editor.fits_in(SIZE));
    let editor = state(&["", "", "", "", ""], 0, 0, 4, 0);
    assert!(!editor.fits_in(SIZE));
    assert!(!state(&[""], 0, 0, 0, 0).fits_in(ScreenSize { width: 0, height: 4 }));
    assert!(!state(&[""], 0, 0, 0, 0).fits_in(ScreenSize { width: 4, height: 0 }));
}

#[test]
fn typing_in_a_scrolled_window_edits_the_line_under_the_cursor() {
    let mut editor = state(&["a", "b", "cd", "e"], 1, 1, 1, 0);
    let ops = editor.write_char('x', SIZE);
    assert_eq!(editor.buffer, text(&["a", "b", "cxd", "e"]));
    assert_eq!(editor.cursor, at(2, 1));
    assert_eq!(editor.last_x, 2);
    assert_eq!(editor.top, 1);
    assert_eq!(editor.mode, BufferMode::Normal);
    let mut expected = line_ops(1, 10, "cxd");
    expected.push(ScreenOp::MoveTo { col: 2, row: 1 });
    assert_eq!(ops, expected);
}

#[test]
fn typing_a_wide_character_writes_its_utf8_bytes() {
    let mut editor = state(&[""], 0, 0, 0, 0);
    let ops = editor.write_char('\u{20ac}', SIZE);
    let mut expected = line_ops(0, 10, "\u{20ac}");
    expected.push(ScreenOp::MoveTo { col: 1, row: 0 });
    assert_eq!(ops, expected);
}

#[test]
fn typing_in_the_last_column_of_the_last_line_starts_a_new_line() {
    let size = ScreenSize { width: 3, height: 4 };
    let mut editor = state(&["ab"], 0, 2, 0, 2);
    let ops = editor.write_char('c', size);
    assert_eq!(editor.buffer, text(&["ab", "c"]));
    assert_eq!(editor.cursor, at(1, 1));
    assert_eq!(editor.last_x, 1);
    assert_eq!(editor.top, 0);
    let mut expected = line_ops(0, 3, "ab");
    expected.extend(line_ops(1, 3, "c"));
    expected.extend(blank_ops(2, 3));
    expected.extend(blank_ops(3, 3));
    expected.push(ScreenOp::MoveTo { col: 1, row: 1 });
    assert_eq!(ops, expected);
    assert!(editor.fits_in(size));
}

#[test]
fn typing_in_the_last_column_above_other_lines_starts_a_new_line_between() {
    let size = ScreenSize { width: 3, height: 4 };
    let mut editor = state(&["ab", "xy", "z"], 0, 2, 0, 2);
    let ops = editor.write_char('c', size);
    assert_eq!(editor.buffer, text(&["ab", "c", "xy", "z"]));
    assert_eq!(editor.buffer.len(), 4);
    assert_eq!(editor.cursor, at(1, 1));
    assert_eq!(editor.top, 0);
    let mut expected = line_ops(0, 3, "ab");
    expected.extend(line_ops(1, 3, "c"));
    expected.extend(line_ops(2, 3, "xy"));
    expected.extend(line_ops(3, 3, "z"));
    expected.push(ScreenOp::MoveTo { col: 1, row: 1 });
    assert_eq!(ops, expected);
    assert!(editor.fits_in(size));
}

#[test]
fn typing_in_the_last_column_of_the_last_row_scrolls_down() {
    let size = ScreenSize { width: 3, height: 2 };
    let mut editor = state(&["a", "bcd", "x"], 0, 2, 1, 2);
    let ops = editor.write_char('e', size);
    assert_eq!(editor.buffer, text(&["a", "bcd", "e", "x"]));
    assert_eq!(editor.top, 1);
    assert_eq!(editor.cursor, at(1, 1));
    assert_eq!(editor.last_x, 1);
    let mut expected = line_ops(0, 3, "bcd");
    expected.extend(line_ops(1, 3, "e"));
    expected.push(ScreenOp::MoveTo { col: 1, row: 1 });
    assert_eq!(ops, expected);
    assert!(editor.fits_in(size));
}

#[test]
fn typing_in_a_one_column_window_keeps_the_cursor_in_column_zero() {
    let size = ScreenSize { width: 1, height: 3 };
    let mut editor = state(&[""], 0, 0, 0, 0);
    editor.write_char('a', size);
    assert_eq!(editor.buffer, text(&["", "a"]));
    assert_eq!(editor.cursor, at(0, 1));
    assert_eq!(editor.last_x, 0);
    assert!(editor.fits_in(size));
}

#[test]
fn backspace_removes_the_character_left_of_the_cursor() {
    let mut editor = state(&["abcd"], 0, 2, 0, 2);
    let ops = editor.delete_char(SIZE);
    assert_eq!(editor.buffer, text(&["acd"]));
    assert_eq!(editor.cursor, at(1, 0));
    assert_eq!(editor.last_x, 1);
    assert_eq!(
        ops,
        vec![
            ScreenOp::MoveTo { col: 1, row: 0 },
            ScreenOp::Write { bytes: fill(9) },
            ScreenOp::MoveTo { col: 1, row: 0 },
            ScreenOp::Write { bytes: b"cd".to_vec() },
            ScreenOp::MoveTo { col: 1, row: 0 },
        ]
    );
}

#[test]
fn backspace_at_the_line_end_blanks_the_removed_cell() {
    let mut editor = state(&["abc"], 0, 3, 0, 3);
    let ops = editor.delete_char(SIZE);
    assert_eq!(editor.buffer, text(&["ab"]));
    assert_eq!(
        ops,
        vec![
            ScreenOp::MoveTo { col: 2, row: 0 },
            ScreenOp::Write { bytes: fill(8) },
            ScreenOp::MoveTo { col: 2, row: 0 },
            ScreenOp::Write { bytes: Vec::new() },
            ScreenOp::MoveTo { col: 2, row: 0 },
        ]
    );
}

#[test]
fn backspace_at_the_start_of_the_text_does_nothing() {
    let mut editor = state(&["ab", "cd"], 0, 0, 0, 5);
    let ops = editor.delete_char(SIZE);
    assert_eq!(editor.buffer, text(&["ab", "cd"]));
    assert_eq!(editor.cursor, at(0, 0));
    assert_eq!(editor.top, 0);
    assert_eq!(editor.last_x, 0);
    assert_eq!(ops, Vec::new());
}

#[test]
fn backspace_join_repaints_the_window() {
    let size = ScreenSize { width: 5, height: 3 };
    let mut editor = state(&["ab", "cd", "e"], 0, 0, 1, 0);
    let ops = editor.delete_char(size);
    assert_eq!(editor.buffer, text(&["abcd", "e"]));
    let mut expected = line_ops(0, 5, "abcd");
    expected.extend(line_ops(1, 5, "e"));
    expected.extend(blank_ops(2, 5));
    expected.push(ScreenOp::MoveTo { col: 2, row: 0 });
    assert_eq!(ops, expected);
}

#[test]
fn backspace_join_on_row_zero_of_a_scrolled_window_scrolls_up() {
    let size = ScreenSize { width: 5, height: 2 };
    let mut editor = state(&["ab", "cd", "e"], 1, 0, 0, 0);
    let ops = editor.delete_char(size);
    assert_eq!(editor.buffer, text(&["abcd", "e"]));
    assert_eq!(editor.top, 0);
    assert_eq!(editor.cursor, at(2, 0));
    let mut expected = line_ops(0, 5, "abcd");
    expected.extend(line_ops(1, 5, "e"));
    expected.push(ScreenOp::MoveTo { col: 2, row: 0 });
    assert_eq!(ops, expected);
    assert!(editor.fits_in(size));
}

#[test]
fn backspace_join_onto_a_line_wider_than_the_window_stops_at_the_edge() {
    let size = ScreenSize { width: 3, height: 2 };
    let mut editor = state(&["abcdef", "g"], 0, 0, 1, 0);
    editor.delete_char(size);
    assert_eq!(editor.buffer, text(&["abcdefg"]));
    assert_eq!(editor.cursor, at(2, 0));
    assert_eq!(editor.last_x, 2);
}

#[test]
fn line_break_at_the_line_end_opens_an_empty_line() {
    let mut editor = state(&["ab", "cd"], 0, 2, 0, 2);
    editor.insert_line_break(SIZE);
    assert_eq!(editor.buffer, text(&["ab", "", "cd"]));
    assert_eq!(editor.cursor, at(0, 1));
    assert_eq!(editor.last_x, 2);
}

#[test]
fn line_break_repaints_the_window_from_the_scroll_offset() {
    let size = ScreenSize { width: 4, height: 3 };
    let mut editor = state(&["x", "abcd", "y"], 1, 2, 0, 2);
    let ops = editor.insert_line_break(size);
    assert_eq!(editor.buffer, text(&["x", "ab", "cd", "y"]));
    assert_eq!(editor.top, 1);
    let mut expected = line_ops(0, 4, "ab");
    expected.extend(line_ops(1, 4, "cd"));
    expected.extend(line_ops(2, 4, "y"));
    expected.push(ScreenOp::MoveTo { col: 0, row: 1 });
    assert_eq!(ops, expected);
}

#[test]
fn line_break_on_the_last_row_scrolls_down() {
    let size = ScreenSize { width: 4, height: 2 };
    let mut editor = state(&["x", "abcd"], 0, 2, 1, 2);
    let ops = editor.insert_line_break(size);
    assert_eq!(editor.buffer, text(&["x", "ab", "cd"]));
    assert_eq!(editor.top, 1);
    assert_eq!(editor.cursor, at(0, 1));
    let mut expected = line_ops(0, 4, "ab");
    expected.extend(line_ops(1, 4, "cd"));
    expected.push(ScreenOp::MoveTo { col: 0, row: 1 });
    assert_eq!(ops, expected);
    assert!(editor.fits_in(size));
}

#[test]
fn line_break_in_a_one_row_window_lands_on_the_new_line() {
    let size = ScreenSize { width: 80, height: 1 };
    let mut editor = state(&["abcd"], 0, 2, 0, 2);
    editor.insert_line_break(size);
    assert_eq!(editor.buffer, text(&["ab", "cd"]));
    assert_eq!(editor.top, 1);
    assert_eq!(editor.cursor, at(0, 0));
    assert!(editor.fits_in(size));
}

#[test]
fn left_moves_one_column_and_remembers_it() {
    let mut editor = state(&["abc"], 0, 2, 0, 9);
    let ops = movement(Direction::Left, &mut editor, SIZE);
    assert_eq!(editor.cursor, at(1, 0));
    assert_eq!(editor.last_x, 1);
    assert_eq!(ops, vec![ScreenOp::MoveTo { col: 1, row: 0 }]);
}

#[test]
fn left_in_column_zero_does_nothing() {
    let mut editor = state(&["abc"], 0, 0, 0, 9);
    let ops = movement(Direction::Left, &mut editor, SIZE);
    assert_eq!(editor.cursor, at(0, 0));
    assert_eq!(editor.last_x, 9);
    assert_eq!(ops, Vec::new());
}

#[test]
fn right_moves_up_to_the_line_end() {
    let mut editor = state(&["ab"], 0, 1, 0, 0);
    let ops = movement(Direction::Right, &mut editor, SIZE);
    assert_eq!(editor.cursor, at(2, 0));
    assert_eq!(editor.last_x, 2);
    assert_eq!(ops, vec![ScreenOp::MoveTo { col: 2, row: 0 }]);
    let ops = movement(Direction::Right, &mut editor, SIZE);
    assert_eq!(editor.cursor, at(2, 0));
    assert_eq!(editor.last_x, 2);
    assert_eq!(ops, Vec::new());
}

#[test]
fn right_in_the_last_column_stays_but_remembers_the_next_column() {
    let size = ScreenSize { width: 3, height: 2 };
    let mut editor = state(&["abcdef"], 0, 2, 0, 2);
    let ops = movement(Direction::Right, &mut editor, size);
    assert_eq!(editor.cursor, at(2, 0));
    assert_eq!(editor.last_x, 3);
    assert_eq!(ops, vec![ScreenOp::MoveTo { col: 2, row: 0 }]);
}

#[test]
fn up_and_down_return_to_the_remembered_column() {
    let mut editor = state(&["abcdef", "ab", "abcdef"], 0, 5, 0, 5);
    let ops = movement(Direction::Down, &mut editor, SIZE);
    assert_eq!(editor.cursor, at(2, 1));
    assert_eq!(editor.last_x, 5);
    assert_eq!(ops, vec![ScreenOp::MoveTo { col: 2, row: 1 }]);
    movement(Direction::Down, &mut editor, SIZE);
    assert_eq!(editor.cursor, at(5, 2));
    movement(Direction::Up, &mut editor, SIZE);
    assert_eq!(editor.cursor, at(2, 1));
    let ops = movement(Direction::Up, &mut editor, SIZE);
    assert_eq!(editor.cursor, at(5, 0));
    assert_eq!(editor.last_x, 5);
    assert_eq!(ops, vec![ScreenOp::MoveTo { col: 5, row: 0 }]);
}

#[test]
fn up_on_the_first_line_does_nothing() {
    let mut editor = state(&["ab", "cd"], 0, 1, 0, 1);
    let ops = movement(Direction::Up, &mut editor, SIZE);
    assert_eq!(editor.cursor, at(1, 0));
    assert_eq!(editor.top, 0);
    assert_eq!(ops, Vec::new());
}

#[test]
fn down_on_the_last_line_does_nothing() {
    let mut editor = state(&["ab", "cd"], 0, 1, 1, 1);
    let ops = movement(Direction::Down, &mut editor, SIZE);
    assert_eq!(editor.cursor, at(1, 1));
    assert_eq!(editor.top, 0);
    assert_eq!(ops, Vec::new());
}

#[test]
fn up_from_row_zero_scrolls_up_and_repaints() {
    let size = ScreenSize { width: 4, height: 2 };
    let mut editor = state(&["a", "bcd", "e"], 1, 3, 0, 3);
    let ops = movement(Direction::Up, &mut editor, size);
    assert_eq!(editor.top, 0);
    assert_eq!(editor.cursor, at(1, 0));
    assert_eq!(editor.last_x, 3);
    let mut expected = line_ops(0, 4, "a");
    expected.extend(line_ops(1, 4, "bcd"));
    expected.push(ScreenOp::MoveTo { col: 1, row: 0 });
    assert_eq!(ops, expected);
    assert!(editor.fits_in(size));
}

#[test]
fn down_from_the_last_row_lands_on_the_end_of_a_short_line() {
    let size = ScreenSize { width: 6, height: 2 };
    let mut editor = state(&["a", "bcdef", "g"], 0, 4, 1, 4);
    let ops = movement(Direction::Down, &mut editor, size);
    assert_eq!(editor.top, 1);
    assert_eq!(editor.cursor, at(1, 1));
    let mut expected = line_ops(0, 6, "bcdef");
    expected.extend(line_ops(1, 6, "g"));
    expected.push(ScreenOp::MoveTo { col: 1, row: 1 });
    assert_eq!(ops, expected);
    assert!(editor.fits_in(size));
}

#[test]
fn movement_leaves_text_mode_and_path_alone() {
    let mut editor = state(&["ab", "cd"], 0, 1, 0, 1);
    editor.mode = BufferMode::Highlight;
    for direction in [Direction::Down, Direction::Right, Direction::Up, Direction::Left] {
        movement(direction, &mut editor, SIZE);
        assert_eq!(editor.buffer, text(&["ab", "cd"]));
        assert_eq!(editor.mode, BufferMode::Highlight);
        assert_eq!(editor.path, "p");
        assert!(editor.fits_in(SIZE));
    }
}

#[test]
fn every_operation_keeps_the_state_well_formed() {
    let size = ScreenSize { width: 4, height: 3 };
    let mut editor = BufferContext::new(String::from("p"));
    editor.read_file(Some("one\ntwo\nthree\nfour\n"));
    let keys = "ab\ncdefgh\nij";
    for round in 0..6 {
        for c in keys.chars() {
            if c == '\n' {
                editor.insert_line_break(size);
            } else {
                editor.write_char(c, size);
            }
            assert!(editor.buffer.len() >= 1);
            assert!(editor.fits_in(size));
        }
        for direction in [Direction::Down, Direction::Down, Direction::Right, Direction::Up,
            Direction::Left, Direction::Down, Direction::Down, Direction::Down]
        {
            movement(direction, &mut editor, size);
            assert!(editor.fits_in(size));
        }
        for _ in 0..(4 + round) {
            editor.delete_char(size);
            assert!(editor.buffer.len() >= 1);
            assert!(editor.fits_in(size));
        }
    }
    for _ in 0..200 {
        editor.delete_char(size);
        movement(Direction::Up, &mut editor, size);
        assert!(editor.buffer.len() >= 1);
        assert!(editor.fits_in(size));
    }
}
