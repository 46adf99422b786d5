use modal_editor::buffer::{Buffer, Mode};
use modal_editor::dispatch::{handle_key, Action, BACKSPACE, CTRL_C, ENTER, ESC, TAB};
use modal_editor::screen::Directive;

fn open(text: &str) -> Buffer {
    Buffer::new(&text.to_string(), "notes.txt".to_string())
}

fn lines(b: &Buffer) -> Vec<&str> {
    b.lines.iter().map(|l| l.as_str()).collect()
}

fn keys(b: &mut Buffer, ks: &str) -> Vec<Action> {
    ks.chars().map(|c| handle_key(b, c)).collect()
}

#[test]
fn append_insert_scenario() {
    let mut b = open("abc\ndef");
    keys(&mut b, "ll");
    assert_eq!(b.x, 2);
    keys(&mut b, "A");
    assert_eq!(b.x, 3);
    assert_eq!(b.mode, Mode::Insert);
    keys(&mut b, "X");
    assert_eq!(b.line(), "abcX");
    assert_eq!(b.x, 4);
    handle_key(&mut b, ESC);
    assert_eq!(b.mode, Mode::Normal);
    assert_eq!(lines(&b), vec!["abcX", "def"]);
    assert_eq!(b.x, 3);
}

#[test]
fn enter_in_insert_mode_splits_line() {
    let mut b = open("abc\ndef");
    keys(&mut b, "llAX");
    handle_key(&mut b, ENTER);
    assert_eq!(lines(&b), vec!["abcX", "", "def"]);
    assert_eq!((b.x, b.y), (0, 1));
}

#[test]
fn write_quit_saves_once_then_ends() {
    let mut b = open("abc");
    keys(&mut b, "x");
    let actions = keys(&mut b, ":wq");
    assert!(actions.iter().all(|a| *a == Action::Continue));
    assert_eq!(b.command, "wq");
    assert_eq!(handle_key(&mut b, ENTER), Action::SaveAndQuit);
    assert_eq!(b.stringify(), "bc\n");
}

#[test]
fn write_saves_and_returns_to_normal() {
    let mut b = open("abc");
    keys(&mut b, ":w");
    assert_eq!(handle_key(&mut b, ENTER), Action::Save);
    assert_eq!(b.mode, Mode::Normal);
    assert_eq!(b.command, "");
}

#[test]
fn quit_ends_without_saving() {
    let mut b = open("abc");
    keys(&mut b, ":q");
    assert_eq!(handle_key(&mut b, ENTER), Action::Quit);
}

#[test]
fn unknown_command_is_left_on_command_line() {
    let mut b = open("abc");
    keys(&mut b, ":x");
    assert_eq!(handle_key(&mut b, ENTER), Action::Continue);
    assert_eq!(b.mode, Mode::Command);
    assert_eq!(b.command, "x");
    handle_key(&mut b, CTRL_C);
    assert_eq!(b.mode, Mode::Normal);
    assert_eq!(b.command, "");
}

#[test]
fn dd_through_keys() {
    let mut b = open("one\ntwo\nthree");
    keys(&mut b, "jdd");
    assert_eq!(lines(&b), vec!["one", "three"]);
    assert_eq!(b.y, 1);
    assert_eq!(b.mode, Mode::Normal);
}

#[test]
fn interrupt_cancels_prefix() {
    let mut b = open("one\ntwo");
    keys(&mut b, "d");
    assert_eq!(b.mode, Mode::NormalPrefix);
    handle_key(&mut b, CTRL_C);
    assert_eq!(b.mode, Mode::Normal);
    assert_eq!(b.normal_prefix, "");
    assert_eq!(lines(&b), vec!["one", "two"]);
}

#[test]
fn tab_inserts_four_spaces_and_backspace_removes_them() {
    let mut b = open("x");
    keys(&mut b, "i");
    handle_key(&mut b, TAB);
    assert_eq!(b.line(), "    x");
    assert_eq!(b.x, 4);
    handle_key(&mut b, BACKSPACE);
    assert_eq!(b.line(), "x");
    assert_eq!(b.x, 0);
}

#[test]
fn vertical_keys_keep_row_in_bounds() {
    let mut b = open("a\nbb\nccc");
    keys(&mut b, "kkk");
    assert_eq!(b.y, 0);
    keys(&mut b, "jjjjj");
    assert_eq!(b.y, 2);
    keys(&mut b, "M");
    assert_eq!(b.y, 1);
    keys(&mut b, "L");
    assert_eq!(b.y, 2);
    keys(&mut b, "H");
    assert_eq!(b.y, 0);
    assert_eq!(lines(&b), vec!["a", "bb", "ccc"]);
}

#[test]
fn horizontal_keys_keep_column_in_bounds() {
    let mut b = open("  abc");
    keys(&mut b, "hhh");
    assert_eq!(b.x, 0);
    keys(&mut b, "llllllll");
    assert_eq!(b.x, 4);
    keys(&mut b, "^");
    assert_eq!(b.x, 2);
    keys(&mut b, "0");
    assert_eq!(b.x, 0);
    keys(&mut b, "$");
    assert_eq!(b.x, 4);
}

#[test]
fn open_line_below_and_above() {
    let mut b = open("a\nb");
    keys(&mut b, "o");
    assert_eq!(lines(&b), vec!["a", "", "b"]);
    assert_eq!((b.x, b.y), (0, 1));
    assert_eq!(b.mode, Mode::Insert);
    let mut c = open("a\nb");
    keys(&mut c, "jO");
    assert_eq!(lines(&c), vec!["a", "", "b"]);
    assert_eq!((c.x, c.y), (0, 1));
}

#[test]
fn change_and_substitute_keys() {
    let mut b = open("abcdef");
    keys(&mut b, "lllC");
    assert_eq!(b.line(), "abc");
    assert_eq!(b.x, 3);
    assert_eq!(b.mode, Mode::Insert);
    let mut s = open("abc");
    keys(&mut s, "ls");
    assert_eq!(s.line(), "ac");
    assert_eq!(s.mode, Mode::Insert);
    let mut whole = open("abc");
    keys(&mut whole, "lS");
    assert_eq!(whole.line(), "");
    assert_eq!(whole.x, 0);
}

#[test]
fn delete_keys() {
    let mut b = open("abcd");
    keys(&mut b, "lx");
    assert_eq!(b.line(), "acd");
    keys(&mut b, "X");
    assert_eq!(b.line(), "cd");
    assert_eq!(b.x, 0);
    keys(&mut b, "lD");
    assert_eq!(b.line(), "c");
    assert_eq!(b.x, 0);
}

#[test]
fn append_on_empty_line_stays_at_zero() {
    let mut b = open("");
    keys(&mut b, "AZ");
    assert_eq!(b.line(), "Z");
}

#[test]
fn unbound_normal_key_does_nothing() {
    let mut b = open("abc");
    keys(&mut b, "l");
    keys(&mut b, "zq!");
    assert_eq!(b.mode, Mode::Normal);
    assert_eq!(b.x, 1);
    assert_eq!(lines(&b), vec!["abc"]);
}

fn describe(ds: &[Directive]) -> Vec<String> {
    ds.iter()
        .map(|d| match d {
            Directive::Clear => "clear".to_string(),
            Directive::MoveTo(c, r) => format!("mv {} {}", c, r),
            Directive::Print(s) => format!("print {}", s),
        })
        .collect()
}

#[test]
fn frame_in_normal_mode() {
    let mut b = open("ab\ncd");
    keys(&mut b, "jl");
    assert_eq!(
        describe(&b.frame()),
        vec![
            "clear", "mv 0 0", "print ab", "mv 0 1", "print cd", "mv 1 22", "print NORMAL ",
            "mv 70 22", "print ", "mv 1 1",
        ]
    );
}

#[test]
fn frame_in_command_mode() {
    let mut b = open("ab");
    keys(&mut b, ":wq");
    assert_eq!(
        describe(&b.frame()),
        vec![
            "clear", "mv 0 0", "print ab", "mv 1 22", "print COMMAND", "mv 70 22", "print ",
            "mv 0 23", "print :wq", "mv 0 0",
        ]
    );
    assert_eq!(b.command_cursor(), Some((3, 23)));
}

#[test]
fn command_cursor_only_in_command_mode() {
    let mut b = open("ab");
    assert_eq!(b.command_cursor(), None);
    keys(&mut b, ":");
    assert_eq!(b.command_cursor(), Some((1, 23)));
}

#[test]
fn leftover_command_text_is_cleared_on_entering_command_mode() {
    let mut b = open("abc");
    b.type_command('z');
    assert_eq!(b.mode, Mode::Normal);
    keys(&mut b, ":");
    assert_eq!(b.command, "");
    keys(&mut b, "wq");
    assert_eq!(handle_key(&mut b, ENTER), Action::SaveAndQuit);
    let mut q = open("abc");
    q.type_command('z');
    keys(&mut q, ":q");
    assert_eq!(handle_key(&mut q, ENTER), Action::Quit);
    let mut w = open("abc");
    w.type_command('z');
    keys(&mut w, ":w");
    assert_eq!(handle_key(&mut w, ENTER), Action::Save);
    assert_eq!(w.command, "");
}
