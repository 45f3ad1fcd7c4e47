use chorus::Cursor;
use chorus::EOF;

const TEST_STR: &'static str = r#"let test_str =  "this is a test str";"#;

#[test]
fn create_cursor() {
    Cursor::new(TEST_STR);
}

#[test]
fn cursor_prev_eof() {
    let cursor = Cursor::new(TEST_STR);

    assert_eq!(cursor.prev(), EOF);
}

#[test]
fn cursor_prev_char() {
    let mut cursor = Cursor::new(TEST_STR);

    cursor.bump();

    assert_eq!(cursor.prev(), 'l');
}

#[test]
fn cursor_first_char() {
    let cursor = Cursor::new(TEST_STR);

    assert_eq!(cursor.first(), 'l');
}

#[test]
fn cursor_second_char() {
    let cursor = Cursor::new(TEST_STR);

    assert_eq!(cursor.second(), 'e');
}

#[test]
fn cursor_position_tracking() {
    let mut c = Cursor::new("a\nb");
    assert_eq!((c.ln, c.col), (1, 1));
    c.bump();
    assert_eq!(c.prev(), 'a');
    assert_eq!((c.ln, c.col), (1, 2));
    c.bump();
    assert_eq!(c.prev(), '\n');
    assert_eq!((c.ln, c.col), (2, 1));
    c.bump();
    assert_eq!(c.prev(), 'b');
    assert_eq!((c.ln, c.col), (2, 2));
    assert!(c.is_eof());
    assert_eq!(c.len_consumed(), 3);
}

#[test]
fn cursor_lookahead_and_eof() {
    let mut c = Cursor::new("xy");
    assert_eq!(c.first(), 'x');
    assert_eq!(c.second(), 'y');
    assert!(!c.is_eof());
    c.bump();
    assert_eq!(c.first(), 'y');
    assert_eq!(c.second(), EOF);
    c.bump();
    assert_eq!(c.first(), EOF);
    assert!(c.is_eof());
    assert_eq!(c.bump(), None);
    assert_eq!(c.prev(), 'y');
    assert_eq!(c.len_consumed(), 2);
}

#[test]
fn cursor_nth_char() {
    let c = Cursor::new("abc");
    assert_eq!(c.nth_char(0), 'a');
    assert_eq!(c.nth_char(2), 'c');
    assert_eq!(c.nth_char(3), EOF);
}

#[test]
fn cursor_remaining_chars() {
    let mut c = Cursor::new("abc");
    c.bump();
    assert_eq!(c.chars(), "bc");
}
