use neko::event::Winszed;
use neko::persona::Cardinal;
use neko::text::{chars_of, parse_i64, split_words, string_of, trim};

fn v(s: &str) -> Vec<char> {
    s.chars().collect()
}

#[test]
fn test_parse_i64_values() {
    assert_eq!(parse_i64(&v("0")), Some(0));
    assert_eq!(parse_i64(&v("-1")), Some(-1));
    assert_eq!(parse_i64(&v("+42")), Some(42));
    assert_eq!(parse_i64(&v("9223372036854775807")), Some(i64::MAX));
    assert_eq!(parse_i64(&v("-9223372036854775808")), Some(i64::MIN));
    assert_eq!(parse_i64(&v("9223372036854775808")), None);
    assert_eq!(parse_i64(&v("-9223372036854775809")), None);
    assert_eq!(parse_i64(&v("")), None);
    assert_eq!(parse_i64(&v("-")), None);
    assert_eq!(parse_i64(&v("12a")), None);
    assert_eq!(parse_i64(&v(" 12")), None);
}

#[test]
fn test_trim_and_words() {
    assert_eq!(string_of(&trim(&v("  neko \t"))), "neko");
    assert_eq!(string_of(&trim(&v("\t \t"))), "");
    let words = split_words(&v("  neko \t mount  arukana@libnya "));
    let words: Vec<String> = words.iter().map(string_of).collect();
    assert_eq!(words, vec!["neko", "mount", "arukana@libnya"]);
    assert!(split_words(&v("   ")).is_empty());
}

#[test]
fn test_chars_roundtrip() {
    let cs = chars_of("arukana@libnya");
    assert_eq!(string_of(&cs), "arukana@libnya");
}

#[test]
fn test_cardinal_coordinates() {
    let size = Winszed { ws_row: 40, ws_col: 100 };
    assert_eq!(Cardinal::UpperLeft.get_coordinate(&size), (0, 0));
    assert_eq!(Cardinal::UpperMiddle.get_coordinate(&size), (45, 0));
    assert_eq!(Cardinal::UpperRight.get_coordinate(&size), (90, 0));
    assert_eq!(Cardinal::MiddleLeft.get_coordinate(&size), (0, 18));
    assert_eq!(Cardinal::LowerRight.get_coordinate(&size), (90, 35));
    // a window too small for the sprite pins everything at the origin
    let tiny = Winszed { ws_row: 4, ws_col: 8 };
    assert_eq!(Cardinal::LowerRight.get_coordinate(&tiny), (0, 0));
}
