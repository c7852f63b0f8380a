use lox_lexer::{Column, Lexeme, Line, Span, Token};

#[test]
fn test_new_left_paren() {
    let s = Span::new(Line(10), Column(100));
    let t = Token::new_left_paren(s);
    assert_eq!(Lexeme::LeftParen, t.lexeme);
    assert_eq!(s, t.span);
}

#[test]
fn test_new_right_paren() {
    let s = Span::new(Line(10), Column(100));
    let t = Token::new_right_paren(s);
    assert_eq!(Lexeme::RightParen, t.lexeme);
    assert_eq!(s, t.span);
}

#[test]
fn test_new_left_brace() {
    let s = Span::new(Line(10), Column(100));
    let t = Token::new_left_brace(s);
    assert_eq!(Lexeme::LeftBrace, t.lexeme);
    assert_eq!(s, t.span);
}

#[test]
fn test_new_right_brace() {
    let s = Span::new(Line(10), Column(100));
    let t = Token::new_right_brace(s);
    assert_eq!(Lexeme::RightBrace, t.lexeme);
    assert_eq!(s, t.span);
}

#[test]
fn test_new_comma() {
    let s = Span::new(Line(10), Column(100));
    let t = Token::new_comma(s);
    assert_eq!(Lexeme::Comma, t.lexeme);
    assert_eq!(s, t.span);
}

#[test]
fn test_new_dot() {
    let s = Span::new(Line(10), Column(100));
    let t = Token::new_dot(s);
    assert_eq!(Lexeme::Dot, t.lexeme);
    assert_eq!(s, t.span);
}

#[test]
fn test_new_plus() {
    let s = Span::new(Line(10), Column(100));
    let t = Token::new_plus(s);
    assert_eq!(Lexeme::Plus, t.lexeme);
    assert_eq!(s, t.span);
}

#[test]
fn test_new_minus() {
    let s = Span::new(Line(10), Column(100));
    let t = Token::new_minus(s);
    assert_eq!(Lexeme::Minus, t.lexeme);
    assert_eq!(s, t.span);
}

#[test]
fn test_new_semicolon() {
    let s = Span::new(Line(10), Column(100));
    let t = Token::new_semicolon(s);
    assert_eq!(Lexeme::Semicolon, t.lexeme);
    assert_eq!(s, t.span);
}

#[test]
fn test_new_slash() {
    let s = Span::new(Line(10), Column(100));
    let t = Token::new_slash(s);
    assert_eq!(Lexeme::Slash, t.lexeme);
    assert_eq!(s, t.span);
}

#[test]
fn test_new_star() {
    let s = Span::new(Line(10), Column(100));
    let t = Token::new_star(s);
    assert_eq!(Lexeme::Star, t.lexeme);
    assert_eq!(s, t.span);
}

#[test]
fn test_new_bang() {
    let s = Span::new(Line(10), Column(100));
    let t = Token::new_bang(s);
    assert_eq!(Lexeme::Bang, t.lexeme);
    assert_eq!(s, t.span);
}

#[test]
fn test_new_bang_equal() {
    let mut s = Span::new(Line(10), Column(100));
    s.incr_col();
    let t = Token::new_bang_equal(s);
    assert_eq!(Lexeme::BangEqual, t.lexeme);
    assert_eq!(s, t.span);
}

#[test]
fn test_new_equal() {
    let s = Span::new(Line(10), Column(100));
    let t = Token::new_equal(s);
    assert_eq!(Lexeme::Equal, t.lexeme);
    assert_eq!(s, t.span);
}

#[test]
fn test_new_equal_equal() {
    let mut s = Span::new(Line(10), Column(100));
    s.incr_col();
    let t = Token::new_equal_equal(s);
    assert_eq!(Lexeme::EqualEqual, t.lexeme);
    assert_eq!(s, t.span);
}

#[test]
fn test_new_greater() {
    let s = Span::new(Line(10), Column(100));
    let t = Token::new_greater(s);
    assert_eq!(Lexeme::Greater, t.lexeme);
    assert_eq!(s, t.span);
}

#[test]
fn test_new_greater_equal() {
    let mut s = Span::new(Line(10), Column(100));
    s.incr_col();
    let t = Token::new_greater_equal(s);
    assert_eq!(Lexeme::GreaterEqual, t.lexeme);
    assert_eq!(s, t.span);
}

#[test]
fn test_new_less() {
    let s = Span::new(Line(10), Column(100));
    let t = Token::new_less(s);
    assert_eq!(Lexeme::Less, t.lexeme);
    assert_eq!(s, t.span);
}

#[test]
fn test_new_less_equal() {
    let mut s = Span::new(Line(10), Column(100));
    s.incr_col();
    let t = Token::new_less_equal(s);
    assert_eq!(Lexeme::LessEqual, t.lexeme);
    assert_eq!(s, t.span);
}

#[test]
fn test_new_identfier() {
    let mut s = Span::new(Line(10), Column(100));
    let i = "abc";
    s.incr_col_n(i.len());

    let t = Token::new_identifier(i, s);
    assert_eq!(Lexeme::Identifier(i.to_string()), t.lexeme);
    assert_eq!(s, t.span);
}

#[test]
fn test_new_string() {
    let mut s = Span::new(Line(10), Column(100));
    let string = "abc";
    s.incr_col_n(string.len());

    let t = Token::new_string(string, s);
    assert_eq!(Lexeme::String(string.to_string()), t.lexeme);
    assert_eq!(s, t.span);
}

#[test]
fn test_new_comment() {
    let mut s = Span::new(Line(10), Column(100));
    let comment = "abc";
    s.incr_col_n(comment.len());

    let t = Token::new_comment(comment, s);
    assert_eq!(Lexeme::Comment(comment.to_string()), t.lexeme);
    assert_eq!(s, t.span);
}

#[test]
fn test_new_number() {
    let mut s = Span::new(Line(10), Column(100));
    let number = "10";
    s.incr_col_n(2);

    let t = Token::new_number(number, s);
    assert_eq!(Lexeme::Number(number.to_string()), t.lexeme);
    match &t.lexeme {
        Lexeme::Number(text) => assert_eq!(10., text.parse::<f64>().unwrap()),
        other => panic!("not a number: {:?}", other),
    }
    assert_eq!(s, t.span);
}

#[test]
fn test_new_and() {
    let mut s = Span::new(Line(10), Column(100));
    s.incr_col_n(2);
    let t = Token::new_and(s);
    assert_eq!(Lexeme::And, t.lexeme);
    assert_eq!(s, t.span);
}

#[test]
fn test_new_class() {
    let mut s = Span::new(Line(10), Column(100));
    s.incr_col_n(4);
    let t = Token::new_class(s);
    assert_eq!(Lexeme::Class, t.lexeme);
    assert_eq!(s, t.span);
}

#[test]
fn test_new_else() {
    let mut s = Span::new(Line(10), Column(100));
    s.incr_col_n(3);
    let t = Token::new_else(s);
    assert_eq!(Lexeme::Else, t.lexeme);
    assert_eq!(s, t.span);
}

#[test]
fn test_new_false() {
    let mut s = Span::new(Line(10), Column(100));
    s.incr_col_n(4);
    let t = Token::new_false(s);
    assert_eq!(Lexeme::False, t.lexeme);
    assert_eq!(s, t.span);
}

#[test]
fn test_new_fun() {
    let mut s = Span::new(Line(10), Column(100));
    s.incr_col_n(2);
    let t = Token::new_fun(s);
    assert_eq!(Lexeme::Fun, t.lexeme);
    assert_eq!(s, t.span);
}

#[test]
fn test_new_for() {
    let mut s = Span::new(Line(10), Column(100));
    s.incr_col_n(2);
    let t = Token::new_for(s);
    assert_eq!(Lexeme::For, t.lexeme);
    assert_eq!(s, t.span);
}

#[test]
fn test_new_if() {
    let mut s = Span::new(Line(10), Column(100));
    s.incr_col_n(1);
    let t = Token::new_if(s);
    assert_eq!(Lexeme::If, t.lexeme);
    assert_eq!(s, t.span);
}

#[test]
fn test_new_nil() {
    let mut s = Span::new(Line(10), Column(100));
    s.incr_col_n(2);
    let t = Token::new_nil(s);
    assert_eq!(Lexeme::Nil, t.lexeme);
    assert_eq!(s, t.span);
}

#[test]
fn test_new_or() {
    let mut s = Span::new(Line(10), Column(100));
    s.incr_col_n(1);
    let t = Token::new_or(s);
    assert_eq!(Lexeme::Or, t.lexeme);
    assert_eq!(s, t.span);
}

#[test]
fn test_new_print() {
    let mut s = Span::new(Line(10), Column(100));
    s.incr_col_n(4);
    let t = Token::new_print(s);
    assert_eq!(Lexeme::Print, t.lexeme);
    assert_eq!(s, t.span);
}

#[test]
fn test_new_return() {
    let mut s = Span::new(Line(10), Column(100));
    s.incr_col_n(5);
    let t = Token::new_return(s);
    assert_eq!(Lexeme::Return, t.lexeme);
    assert_eq!(s, t.span);
}

#[test]
fn test_new_super() {
    let mut s = Span::new(Line(10), Column(100));
    s.incr_col_n(4);
    let t = Token::new_super(s);
    assert_eq!(Lexeme::Super, t.lexeme);
    assert_eq!(s, t.span);
}

#[test]
fn test_new_this() {
    let mut s = Span::new(Line(10), Column(100));
    s.incr_col_n(3);
    let t = Token::new_this(s);
    assert_eq!(Lexeme::This, t.lexeme);
    assert_eq!(s, t.span);
}

#[test]
fn test_new_true() {
    let mut s = Span::new(Line(10), Column(100));
    s.incr_col_n(3);
    let t = Token::new_true(s);
    assert_eq!(Lexeme::True, t.lexeme);
    assert_eq!(s, t.span);
}

#[test]
fn test_new_var() {
    let mut s = Span::new(Line(10), Column(100));
    s.incr_col_n(2);
    let t = Token::new_var(s);
    assert_eq!(Lexeme::Var, t.lexeme);
    assert_eq!(s, t.span);
}

#[test]
fn test_new_while() {
    let mut s = Span::new(Line(10), Column(100));
    s.incr_col_n(4);
    let t = Token::new_while(s);
    assert_eq!(Lexeme::While, t.lexeme);
    assert_eq!(s, t.span);
}

#[test]
fn test_new_whitespace() {
    let mut s = Span::new(Line(10), Column(100));
    let i = "abc";
    s.incr_col_n(i.len());

    let t = Token::new_whitespace(i, s);
    assert_eq!(Lexeme::Whitespace(i.to_string()), t.lexeme);
    assert_eq!(s, t.span);
}

#[test]
fn test_new_newline() {
    let s = Span::new(Line(10), Column(100));

    let t = Token::new_newline(s);
    assert_eq!(Lexeme::NewLine, t.lexeme);
    assert_eq!(s, t.span);
}

#[test]
fn test_new_eof() {
    let s = Span::new(Line(10), Column(100));

    let t = Token::new_eof(s);
    assert_eq!(Lexeme::Eof, t.lexeme);
    assert_eq!(s, t.span);
}
