use neko::line::{CommandLine, KeyPress};

#[test]
fn test_editor_typing() {
    let mut l = CommandLine::new();
    l.feed(KeyPress::Char('n'));
    l.feed(KeyPress::Char('e'));
    l.feed(KeyPress::Char('k'));
    l.feed(KeyPress::Char('o'));
    assert_eq!(l.content(), "neko");
    assert_eq!(l.position, 4);
}

#[test]
fn test_editor_backspace() {
    let mut l = CommandLine::new();
    l.feed(KeyPress::Str("nekoo".chars().collect()));
    assert_eq!(l.content(), "nekoo");
    assert_eq!(l.position, 5);
    l.feed(KeyPress::Backspace);
    assert_eq!(l.content(), "neko");
    assert_eq!(l.position, 4);
    // a backspace at the start of the line does nothing
    l.feed(KeyPress::Home);
    l.feed(KeyPress::Backspace);
    assert_eq!(l.content(), "neko");
    assert_eq!(l.position, 0);
}

#[test]
fn test_editor_cursor_moves() {
    let mut l = CommandLine::new();
    l.feed(KeyPress::Str("abc".chars().collect()));
    l.feed(KeyPress::Left);
    assert_eq!(l.position, 2);
    l.feed(KeyPress::Left);
    l.feed(KeyPress::Left);
    l.feed(KeyPress::Left);
    assert_eq!(l.position, 0);
    l.feed(KeyPress::Right);
    assert_eq!(l.position, 1);
    l.feed(KeyPress::End);
    assert_eq!(l.position, 2);
    l.feed(KeyPress::Right);
    assert_eq!(l.position, 2);
    // a character lands only with the cursor at the end of the line
    l.feed(KeyPress::Char('x'));
    assert_eq!(l.content(), "abc");
}

#[test]
fn test_editor_control_clears() {
    let mut l = CommandLine::new();
    l.feed(KeyPress::Str("neko debug".chars().collect()));
    l.feed(KeyPress::Enter);
    assert_eq!(l.content(), "neko debug");
    l.feed(KeyPress::Control);
    assert_eq!(l.content(), "");
    assert_eq!(l.position, 0);
}
