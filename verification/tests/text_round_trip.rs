use modal_edit::action::Mode;
use modal_edit::editor::Editor;
use modal_edit::text::join_lines;
use modal_edit::text::split_lines;

fn chars(s: &str) -> Vec<char> {
    s.chars().collect()
}

fn string(v: &[char]) -> String {
    v.iter().collect()
}

#[test]
fn split_cuts_at_newlines() {
    let lines = split_lines(&chars("ab\ncd\nef"));
    assert_eq!(lines, vec![chars("ab"), chars("cd"), chars("ef")]);
}

#[test]
fn split_of_empty_text_is_empty_buffer() {
    let lines = split_lines(&chars(""));
    assert_eq!(lines, Vec::<Vec<char>>::new());
}

#[test]
fn split_keeps_empty_lines_between_newlines() {
    let lines = split_lines(&chars("a\n\nb"));
    assert_eq!(lines, vec![chars("a"), chars(""), chars("b")]);
}

#[test]
fn split_drops_a_trailing_newline() {
    let lines = split_lines(&chars("ab\n"));
    assert_eq!(lines, vec![chars("ab")]);
    let lines2 = split_lines(&chars("\n"));
    assert_eq!(lines2, vec![chars("")]);
}

#[test]
fn join_puts_single_newlines_between_lines() {
    let text = join_lines(&vec![chars("ab"), chars(""), chars("c")]);
    assert_eq!(string(&text), "ab\n\nc");
}

#[test]
fn join_of_empty_buffer_is_empty_text() {
    let text = join_lines(&Vec::new());
    assert_eq!(string(&text), "");
}

#[test]
fn load_then_save_reproduces_the_text() {
    let original = "first line\nsecond\n\nfourth";
    let ed = Editor::new(chars(original));
    assert_eq!(ed.mode, Mode::Normal);
    assert_eq!(ed.cursor.pos(), (0, 0));
    assert_eq!(string(&ed.to_text()), original);
}

#[test]
fn load_then_save_drops_only_a_trailing_newline() {
    let ed = Editor::new(chars("one\ntwo\n"));
    assert_eq!(string(&ed.to_text()), "one\ntwo");
}

#[test]
fn load_of_empty_text_round_trips() {
    let ed = Editor::new(chars(""));
    assert_eq!(string(&ed.to_text()), "");
}
