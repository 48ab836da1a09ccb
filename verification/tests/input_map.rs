use modal_edit::action::Action;
use modal_edit::action::Mode;
use modal_edit::input::confirms_save;
use modal_edit::input::handle_event;
use modal_edit::input::Key;

#[test]
fn normal_mode_bindings() {
    assert_eq!(handle_event(Key::Char('q'), &Mode::Normal), Some(Action::Quit));
    assert_eq!(handle_event(Key::Char('h'), &Mode::Normal), Some(Action::MoveLeft));
    assert_eq!(handle_event(Key::Char('j'), &Mode::Normal), Some(Action::MoveDown));
    assert_eq!(handle_event(Key::Char('k'), &Mode::Normal), Some(Action::MoveUp));
    assert_eq!(handle_event(Key::Char('l'), &Mode::Normal), Some(Action::MoveRight));
    assert_eq!(
        handle_event(Key::Char('i'), &Mode::Normal),
        Some(Action::ChangeMode(Mode::Insert))
    );
}

#[test]
fn normal_mode_ignores_other_keys() {
    assert_eq!(handle_event(Key::Char('x'), &Mode::Normal), None);
    assert_eq!(handle_event(Key::Char('w'), &Mode::Normal), None);
    assert_eq!(handle_event(Key::Esc, &Mode::Normal), None);
    assert_eq!(handle_event(Key::Backspace, &Mode::Normal), None);
    assert_eq!(handle_event(Key::Enter, &Mode::Normal), None);
    assert_eq!(handle_event(Key::Other, &Mode::Normal), None);
}

#[test]
fn insert_mode_bindings() {
    assert_eq!(
        handle_event(Key::Char('q'), &Mode::Insert),
        Some(Action::InsertChar('q'))
    );
    assert_eq!(
        handle_event(Key::Char(' '), &Mode::Insert),
        Some(Action::InsertChar(' '))
    );
    assert_eq!(
        handle_event(Key::Esc, &Mode::Insert),
        Some(Action::ChangeMode(Mode::Normal))
    );
    assert_eq!(handle_event(Key::Backspace, &Mode::Insert), Some(Action::RemoveChar));
    assert_eq!(handle_event(Key::Enter, &Mode::Insert), Some(Action::NewLine));
}

#[test]
fn insert_mode_ignores_other_keys() {
    assert_eq!(handle_event(Key::Other, &Mode::Insert), None);
}

#[test]
fn only_w_confirms_save() {
    assert!(confirms_save(Key::Char('w')));
    assert!(!confirms_save(Key::Char('q')));
    assert!(!confirms_save(Key::Char('W')));
    assert!(!confirms_save(Key::Esc));
    assert!(!confirms_save(Key::Enter));
    assert!(!confirms_save(Key::Other));
}
