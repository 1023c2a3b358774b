use neko::tooltip::{Relative, Tooltip};

#[test]
fn test_tooltip_eq_message() {
    let mut a = Tooltip::default();
    let b = Tooltip::default();

    assert_eq!(a, b);
    a.set_message("hi".to_string());
    assert_ne!(a, b);
}

#[test]
fn test_tooltip_eq_cardinal() {
    let mut a = Tooltip::default();
    let b = Tooltip::default();

    assert_eq!(a, b);
    a.set_cardinal(Relative::Top);
    assert_ne!(a, b);
}

#[test]
fn test_tooltip_measures() {
    let mut t = Tooltip::default();
    assert_eq!(t.get_height(), 1);
    assert_eq!(t.get_width(), 0);

    t.set_message("hi".to_string());
    assert_eq!(t.get_height(), 1);
    assert_eq!(t.get_width(), 2);

    t.set_message("Bonjour\nCoucou tresor\n".to_string());
    assert_eq!(t.get_height(), 3);
    assert_eq!(t.get_width(), 13);
}

#[test]
fn test_tooltip_set_message_pads() {
    let mut t = Tooltip::default();
    t.set_message("ab".to_string());
    let m = t.get_message();
    assert_eq!(m[0].get_glyph(), 'a');
    assert_eq!(m[1].get_glyph(), 'b');
    assert!(m[2].is_null());
    assert_eq!(m.len(), 1024);
    t.set_message("c".to_string());
    let m = t.get_message();
    assert_eq!(m[0].get_glyph(), 'c');
    assert!(m[1].is_null());
}
