use lox_lexer::{Column, Line, Span};

#[test]
fn test_new() {
    let s = Span::new(Line(10), Column(100));
    assert_eq!(10, s.start_line.0);
    assert_eq!(100, s.start_col.0);
    assert_eq!(10, s.end_line.0);
    assert_eq!(101, s.end_col.0);
    assert!(s.is_one_char())
}

#[test]
fn test_one_char_incr_col_incr_line() {
    let mut s = Span::new(Line(10), Column(100));

    s.incr_col();
    s.incr_col();
    assert!(s.is_one_line());
    assert_eq!(10, s.start_line.0);
    assert_eq!(100, s.start_col.0);
    assert_eq!(10, s.end_line.0);
    assert_eq!(103, s.end_col.0);

    s.incr_line();
    assert!(s.is_multi_line());
    assert_eq!(10, s.start_line.0);
    assert_eq!(100, s.start_col.0);
    assert_eq!(11, s.end_line.0);
    assert_eq!(0, s.end_col.0);

    s.incr_col();
    s.incr_col();
    assert!(s.is_multi_line());
    assert_eq!(10, s.start_line.0);
    assert_eq!(100, s.start_col.0);
    assert_eq!(11, s.end_line.0);
    assert_eq!(2, s.end_col.0);

    s.incr_line();
    assert!(s.is_multi_line());
    assert_eq!(10, s.start_line.0);
    assert_eq!(100, s.start_col.0);
    assert_eq!(12, s.end_line.0);
    assert_eq!(0, s.end_col.0);
}

#[test]
fn test_one_char_incr_line() {
    let mut s = Span::new(Line(10), Column(100));

    s.incr_line();
    assert!(s.is_multi_line());
    assert_eq!(10, s.start_line.0);
    assert_eq!(100, s.start_col.0);
    assert_eq!(11, s.end_line.0);
    assert_eq!(0, s.end_col.0);
}

#[test]
fn test_complete_one_char() {
    let mut s = Span::new(Line(10), Column(100));
    let s1 = s.complete();

    assert!(s1.is_one_char());
    assert_eq!(10, s1.start_line.0);
    assert_eq!(100, s1.start_col.0);
    assert_eq!(10, s1.end_line.0);
    assert_eq!(101, s1.end_col.0);

    assert_eq!(10, s.start_line.0);
    assert_eq!(101, s.start_col.0);
    assert_eq!(10, s.end_line.0);
    assert_eq!(101, s.end_col.0);
}
