use modal_editor::buffer::{Buffer, Mode};

fn open(text: &str) -> Buffer {
    Buffer::new(&text.to_string(), "notes.txt".to_string())
}

fn lines(b: &Buffer) -> Vec<&str> {
    b.lines.iter().map(|l| l.as_str()).collect()
}

#[test]
fn new_splits_lines_and_starts_in_normal_mode() {
    let b = open("abc\ndef\n");
    assert_eq!(lines(&b), vec!["abc", "def"]);
    assert_eq!((b.x, b.y), (0, 0));
    assert_eq!(b.mode, Mode::Normal);
    assert_eq!(b.filename, "notes.txt");
    assert_eq!((b.width, b.height), (80, 24));
    assert!(!b.cling_to_end);
    assert_eq!(b.command, "");
    assert_eq!(b.normal_prefix, "");
}

#[test]
fn new_on_empty_text_has_one_empty_line() {
    let b = open("");
    assert_eq!(lines(&b), vec![""]);
}

#[test]
fn new_handles_line_endings() {
    assert_eq!(lines(&open("a\r\nb")), vec!["a", "b"]);
    assert_eq!(lines(&open("a\n\nb\n")), vec!["a", "", "b"]);
    assert_eq!(lines(&open("a\r")), vec!["a\r"]);
    assert_eq!(lines(&open("\n")), vec![""]);
}

#[test]
fn stringify_appends_a_newline_to_every_line() {
    assert_eq!(open("abc\ndef").stringify(), "abc\ndef\n");
    assert_eq!(open("").stringify(), "\n");
    assert_eq!(open("a\r\nb\r\n").stringify(), "a\nb\n");
}

#[test]
fn save_then_reopen_is_stable() {
    for text in ["", "x", "abc\ndef", "a\n\n\nb\n", "  indented\n\ttab\n"] {
        let once = open(text).stringify();
        let twice = open(&once).stringify();
        assert_eq!(once, twice);
    }
}

#[test]
fn horizontal_moves_clamp_to_line() {
    let mut b = open("abc");
    b.left();
    assert_eq!(b.x, 0);
    b.right();
    b.right();
    b.right();
    b.right();
    assert_eq!(b.x, 2);
    b.left();
    assert_eq!(b.x, 1);
}

#[test]
fn moves_on_empty_line_stay_at_zero() {
    let mut b = open("");
    b.right();
    assert_eq!(b.x, 0);
    b.jump_line_end_abs();
    assert_eq!(b.x, 0);
}

#[test]
fn vertical_moves_clamp_to_document_and_reclamp_column() {
    let mut b = open("abcdef\nab\nabcd");
    b.up();
    assert_eq!(b.y, 0);
    b.x = 5;
    b.down();
    assert_eq!((b.x, b.y), (1, 1));
    b.down();
    assert_eq!((b.x, b.y), (1, 2));
    b.down();
    assert_eq!(b.y, 2);
}

#[test]
fn row_jumps() {
    let mut b = open("a\nb\nc\nd\ne");
    b.jump_middle();
    assert_eq!(b.y, 2);
    b.jump_bottom();
    assert_eq!(b.y, 4);
    b.jump_top();
    assert_eq!(b.y, 0);
    let mut two = open("a\nb");
    two.jump_middle();
    assert_eq!(two.y, 1);
}

#[test]
fn line_end_jump_clings_across_rows_until_horizontal_move() {
    let mut b = open("abcdef\nab\nabcd");
    b.jump_line_end_abs();
    assert_eq!(b.x, 5);
    assert!(b.cling_to_end);
    b.down();
    assert_eq!(b.x, 1);
    b.down();
    assert_eq!(b.x, 3);
    b.left();
    assert!(!b.cling_to_end);
    assert_eq!(b.x, 2);
    b.up();
    assert_eq!(b.x, 1);
}

#[test]
fn line_start_jumps() {
    let mut b = open("   abc");
    b.x = 5;
    b.jump_line_start();
    assert_eq!(b.x, 3);
    b.jump_line_start_abs();
    assert_eq!(b.x, 0);
    let mut spaces = open("    ");
    spaces.jump_line_start();
    assert_eq!(spaces.x, 4);
    let mut empty = open("");
    empty.jump_line_start();
    assert_eq!(empty.x, 0);
}

#[test]
fn add_x_and_add_y_clamp() {
    let mut b = open("abc\nde");
    b.add_x(10);
    assert_eq!(b.x, 2);
    b.add_x(-10);
    assert_eq!(b.x, 0);
    b.add_y(5);
    assert_eq!(b.y, 1);
    b.add_y(-5);
    assert_eq!(b.y, 0);
    b.cling_to_end = true;
    b.add_x(-1);
    assert_eq!(b.x, 2);
}

#[test]
fn backspace_at_column_seven_of_spaces_goes_to_four() {
    let mut b = open("       x");
    b.x = 7;
    b.backspace();
    assert_eq!(b.x, 4);
    assert_eq!(b.line(), "    x");
}

#[test]
fn backspace_at_column_four_of_spaces_goes_to_zero() {
    let mut b = open("    x");
    b.x = 4;
    b.backspace();
    assert_eq!(b.x, 0);
    assert_eq!(b.line(), "x");
    b.backspace();
    assert_eq!(b.x, 0);
    assert_eq!(b.line(), "x");
}

#[test]
fn backspace_after_text_removes_one_character() {
    let mut b = open("  ab  cd");
    b.x = 6;
    b.backspace();
    assert_eq!(b.x, 5);
    assert_eq!(b.line(), "  ab cd");
}

#[test]
fn del_removes_character_under_cursor() {
    let mut b = open("abc");
    b.x = 1;
    b.del();
    assert_eq!(b.line(), "ac");
    assert_eq!(b.x, 1);
    b.del();
    assert_eq!(b.line(), "a");
    assert_eq!(b.x, 1);
    b.del();
    assert_eq!(b.line(), "a");
}

#[test]
fn del_on_empty_line_does_nothing() {
    let mut b = open("");
    b.del();
    assert_eq!(lines(&b), vec![""]);
    assert_eq!(b.x, 0);
}

#[test]
fn del_after_truncates_and_steps_back() {
    let mut b = open("abcdef");
    b.x = 3;
    b.del_after();
    assert_eq!(b.line(), "abc");
    assert_eq!(b.x, 2);
    b.x = 0;
    b.del_after();
    assert_eq!(b.line(), "");
    assert_eq!(b.x, 0);
}

#[test]
fn insert_line_shifts_following_lines() {
    let mut b = open("a\nb");
    b.insert_line(1);
    assert_eq!(lines(&b), vec!["a", "", "b"]);
    assert_eq!(b.y, 0);
    b.insert_line(3);
    assert_eq!(lines(&b), vec!["a", "", "b", ""]);
    b.insert_line(0);
    assert_eq!(lines(&b), vec!["", "a", "", "b", ""]);
}

#[test]
fn enter_splits_line_at_cursor() {
    let mut b = open("hello\nworld");
    b.x = 2;
    b.enter();
    assert_eq!(lines(&b), vec!["he", "llo", "world"]);
    assert_eq!((b.x, b.y), (0, 1));
}

#[test]
fn insert_string_and_insert_advance_cursor() {
    let mut b = open("ad");
    b.x = 1;
    b.insert_string(&"bc".to_string());
    assert_eq!(b.line(), "abcd");
    assert_eq!(b.x, 3);
    b.insert('X');
    assert_eq!(b.line(), "abcXd");
    assert_eq!(b.x, 4);
}

#[test]
fn dd_on_middle_line_of_three() {
    let mut b = open("one\ntwo\nthree");
    b.y = 1;
    b.mode_normal_prefix();
    b.prefix('d');
    assert_eq!(b.mode, Mode::NormalPrefix);
    assert_eq!(b.normal_prefix, "d");
    b.prefix('d');
    assert_eq!(lines(&b), vec!["one", "three"]);
    assert_eq!(b.y, 1);
    assert_eq!(b.line(), "three");
    assert_eq!(b.mode, Mode::Normal);
    assert_eq!(b.normal_prefix, "");
}

#[test]
fn dd_on_last_line_moves_row_up() {
    let mut b = open("one\ntwo");
    b.y = 1;
    b.prefix('d');
    b.prefix('d');
    assert_eq!(lines(&b), vec!["one"]);
    assert_eq!(b.y, 0);
}

#[test]
fn dd_on_single_line_leaves_one_empty_line() {
    let mut b = open("only");
    b.x = 2;
    b.prefix('d');
    b.prefix('d');
    assert_eq!(lines(&b), vec![""]);
    assert_eq!((b.x, b.y), (0, 0));
}

#[test]
fn unknown_prefix_keeps_waiting() {
    let mut b = open("abc");
    b.mode_normal_prefix();
    b.prefix('d');
    b.prefix('x');
    assert_eq!(b.mode, Mode::NormalPrefix);
    assert_eq!(b.normal_prefix, "dx");
    assert_eq!(lines(&b), vec!["abc"]);
}

#[test]
fn mode_changes() {
    let mut b = open("abc");
    b.x = 2;
    b.mode_insert();
    assert_eq!(b.mode, Mode::Insert);
    b.mode_command();
    assert_eq!(b.mode, Mode::Command);
    b.type_command('w');
    assert_eq!(b.command, "w");
    b.mode_normal();
    assert_eq!(b.mode, Mode::Normal);
    assert_eq!(b.command, "");
    assert_eq!(b.x, 1);
    b.type_command('z');
    b.mode_command();
    assert_eq!(b.mode, Mode::Command);
    assert_eq!(b.command, "");
    assert_eq!(b.x, 1);
}
