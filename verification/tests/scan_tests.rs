use lox_lexer::keywords::{find_keyword, lexeme_of_word};
use lox_lexer::text::{chars_of, decimal_string};
use lox_lexer::{Column, Context, LexError, Lexeme, Lexer, Line, Position, Span, Token};

fn scan(source: &str) -> Vec<Result<Token, LexError>> {
    Lexer::with_source(source).tokens()
}

fn lexemes(source: &str) -> Vec<Lexeme> {
    scan(source).into_iter().map(|item| item.unwrap().lexeme).collect()
}

fn span(start_line: usize, start_col: usize, end_line: usize, end_col: usize) -> Span {
    Span {
        start_line: Line(start_line),
        start_col: Column(start_col),
        end_line: Line(end_line),
        end_col: Column(end_col),
    }
}

fn position(line: usize, column: usize) -> Position {
    Position { line: Line(line), column: Column(column) }
}

fn id(name: &str) -> Lexeme {
    Lexeme::Identifier(name.to_string())
}

fn ws(text: &str) -> Lexeme {
    Lexeme::Whitespace(text.to_string())
}

#[test]
fn empty_input_yields_only_eof() {
    let items = scan("");
    assert_eq!(items, vec![Ok(Token { lexeme: Lexeme::Eof, span: span(1, 0, 1, 0) })]);
}

#[test]
fn eof_is_produced_once_and_then_nothing() {
    let mut lexer = Lexer::with_source("a");
    assert_eq!(lexer.next_token().unwrap().unwrap().lexeme, id("a"));
    let eof = lexer.next_token().unwrap().unwrap();
    assert_eq!(eof.lexeme, Lexeme::Eof);
    assert_eq!(eof.span, span(1, 1, 1, 1));
    assert!(lexer.next_token().is_none());
    assert!(lexer.next_token().is_none());
    assert!(lexer.tokens().is_empty());
}

#[test]
fn item_count_is_bounded_by_input_length() {
    for source in ["", "a", "(){}", "a b c", "\n\n\n", "// x", "1.5+2", "@@@", "\"a\nb\""] {
        let items = scan(source);
        assert!(items.len() <= source.chars().count() + 1);
        let eofs = items
            .iter()
            .filter(|item| matches!(item, Ok(token) if token.lexeme == Lexeme::Eof))
            .count();
        assert_eq!(1, eofs);
        assert_eq!(Lexeme::Eof, items.last().unwrap().as_ref().unwrap().lexeme);
    }
}

#[test]
fn context_read_reports_eof_once() {
    let mut ctx = Context::new("");
    let eof = ctx.read().unwrap().unwrap();
    assert_eq!(Lexeme::Eof, eof.lexeme);
    assert!(ctx.eof_generated);
    assert!(ctx.read().is_none());
}

#[test]
fn operators_take_the_longest_match() {
    assert_eq!(lexemes("!="), vec![Lexeme::BangEqual, Lexeme::Eof]);
    assert_eq!(lexemes("! "), vec![Lexeme::Bang, ws(" "), Lexeme::Eof]);
    assert_eq!(lexemes("=="), vec![Lexeme::EqualEqual, Lexeme::Eof]);
    assert_eq!(lexemes("="), vec![Lexeme::Equal, Lexeme::Eof]);
    assert_eq!(lexemes(">="), vec![Lexeme::GreaterEqual, Lexeme::Eof]);
    assert_eq!(lexemes(">"), vec![Lexeme::Greater, Lexeme::Eof]);
    assert_eq!(lexemes("<="), vec![Lexeme::LessEqual, Lexeme::Eof]);
    assert_eq!(lexemes("<"), vec![Lexeme::Less, Lexeme::Eof]);
    assert_eq!(lexemes("==="), vec![Lexeme::EqualEqual, Lexeme::Equal, Lexeme::Eof]);
    assert_eq!(lexemes("!=="), vec![Lexeme::BangEqual, Lexeme::Equal, Lexeme::Eof]);
}

#[test]
fn bang_equal_is_one_token_two_chars_wide() {
    let items = scan("!=");
    assert_eq!(2, items.len());
    let token = items[0].as_ref().unwrap();
    assert_eq!(Lexeme::BangEqual, token.lexeme);
    assert_eq!(span(1, 0, 1, 2), token.span);
    assert!(token.span.is_two_chars());
}

#[test]
fn punctuators_map_one_to_one() {
    assert_eq!(
        lexemes("(){},.+-;*/"),
        vec![
            Lexeme::LeftParen,
            Lexeme::RightParen,
            Lexeme::LeftBrace,
            Lexeme::RightBrace,
            Lexeme::Comma,
            Lexeme::Dot,
            Lexeme::Plus,
            Lexeme::Minus,
            Lexeme::Semicolon,
            Lexeme::Star,
            Lexeme::Slash,
            Lexeme::Eof,
        ]
    );
}

#[test]
fn keyword_prefix_of_a_longer_word_is_an_identifier() {
    let items = scan("classify");
    assert_eq!(2, items.len());
    let token = items[0].as_ref().unwrap();
    assert_eq!(id("classify"), token.lexeme);
    assert_eq!(span(1, 0, 1, 8), token.span);
}

#[test]
fn every_keyword_is_recognised() {
    assert_eq!(
        lexemes("and class else false for fun if nil or print return super this true var while"),
        vec![
            Lexeme::And,
            ws(" "),
            Lexeme::Class,
            ws(" "),
            Lexeme::Else,
            ws(" "),
            Lexeme::False,
            ws(" "),
            Lexeme::For,
            ws(" "),
            Lexeme::Fun,
            ws(" "),
            Lexeme::If,
            ws(" "),
            Lexeme::Nil,
            ws(" "),
            Lexeme::Or,
            ws(" "),
            Lexeme::Print,
            ws(" "),
            Lexeme::Return,
            ws(" "),
            Lexeme::Super,
            ws(" "),
            Lexeme::This,
            ws(" "),
            Lexeme::True,
            ws(" "),
            Lexeme::Var,
            ws(" "),
            Lexeme::While,
            Lexeme::Eof,
        ]
    );
}

#[test]
fn words_near_keywords_are_identifiers() {
    let words =
        ["an", "andy", "And", "AND", "f", "fo", "forx", "whil", "whiles", "_", "_if", "if_", "x1"];
    for word in words {
        assert_eq!(lexemes(word), vec![id(word), Lexeme::Eof]);
    }
}

#[test]
fn find_keyword_gives_the_index_in_the_sorted_table() {
    let words = [
        "and", "class", "else", "false", "for", "fun", "if", "nil", "or", "print", "return",
        "super", "this", "true", "var", "while",
    ];
    for (index, word) in words.iter().enumerate() {
        assert_eq!(Some(index), find_keyword(word));
    }
    for word in ["", "a", "ann", "zebra", "classy", "whil", "while_", "For"] {
        assert_eq!(None, find_keyword(word));
    }
}

#[test]
fn lexeme_of_word_resolves_keywords_first() {
    assert_eq!(Lexeme::Nil, lexeme_of_word("nil".to_string()));
    assert_eq!(Lexeme::While, lexeme_of_word("while".to_string()));
    assert_eq!(id("nile"), lexeme_of_word("nile".to_string()));
}

#[test]
fn comment_runs_through_the_line_break() {
    let items = scan("// hi\nx");
    assert_eq!(3, items.len());
    let comment = items[0].as_ref().unwrap();
    assert_eq!(Lexeme::Comment(" hi\n".to_string()), comment.lexeme);
    assert!(comment.span.is_multi_line());
    assert_eq!(span(1, 0, 2, 0), comment.span);
    let x = items[1].as_ref().unwrap();
    assert_eq!(id("x"), x.lexeme);
    assert_eq!(span(2, 0, 2, 1), x.span);
    assert_eq!(Lexeme::Eof, items[2].as_ref().unwrap().lexeme);
}

#[test]
fn comment_without_line_break_runs_to_the_end() {
    let items = scan("a//b c");
    let comment = items[1].as_ref().unwrap();
    assert_eq!(Lexeme::Comment("b c".to_string()), comment.lexeme);
    assert_eq!(span(1, 1, 1, 6), comment.span);
    assert_eq!(3, items.len());
}

#[test]
fn slash_alone_is_a_slash() {
    assert_eq!(lexemes("a/b"), vec![id("a"), Lexeme::Slash, id("b"), Lexeme::Eof]);
}

#[test]
fn number_with_fraction() {
    let items = scan("12.3");
    assert_eq!(2, items.len());
    let token = items[0].as_ref().unwrap();
    assert_eq!(Lexeme::Number("12.3".to_string()), token.lexeme);
    assert_eq!(span(1, 0, 1, 4), token.span);
    match &token.lexeme {
        Lexeme::Number(text) => assert_eq!(12.3, text.parse::<f64>().unwrap()),
        other => panic!("not a number: {:?}", other),
    }
}

#[test]
fn number_without_fraction() {
    assert_eq!(lexemes("007"), vec![Lexeme::Number("007".to_string()), Lexeme::Eof]);
    assert_eq!(
        lexemes("1+2"),
        vec![
            Lexeme::Number("1".to_string()),
            Lexeme::Plus,
            Lexeme::Number("2".to_string()),
            Lexeme::Eof
        ]
    );
}

#[test]
fn number_takes_one_fraction_only() {
    assert_eq!(
        lexemes("1.2.3"),
        vec![
            Lexeme::Number("1.2".to_string()),
            Lexeme::Dot,
            Lexeme::Number("3".to_string()),
            Lexeme::Eof
        ]
    );
}

#[test]
fn number_with_trailing_dot_is_malformed() {
    let items = scan("12.");
    assert_eq!(
        items[0],
        Err(LexError::UnexpectedCharacter { character: '.', position: position(1, 2) })
    );
    assert!(!items.iter().any(|item| matches!(item, Ok(token) if token.lexeme == Lexeme::Dot)));
    assert!(!items
        .iter()
        .any(|item| matches!(item, Ok(token) if matches!(token.lexeme, Lexeme::Number(_)))));
}

#[test]
fn malformed_number_is_reported_at_the_dot() {
    let mut lexer = Lexer::with_source("a\n  1234.x");
    assert_eq!(id("a"), lexer.next_token().unwrap().unwrap().lexeme);
    assert_eq!(Lexeme::NewLine, lexer.next_token().unwrap().unwrap().lexeme);
    assert_eq!(ws("  "), lexer.next_token().unwrap().unwrap().lexeme);
    assert_eq!(
        Some(Err(LexError::UnexpectedCharacter { character: '.', position: position(2, 6) })),
        lexer.next_token()
    );
    let x = lexer.next_token().unwrap().unwrap();
    assert_eq!(id("x"), x.lexeme);
    assert_eq!(span(2, 7, 2, 8), x.span);
}

#[test]
fn mk_number_fails_on_trailing_dot() {
    let mut ctx = Context::new("7.");
    let c = ctx.read_char().unwrap();
    assert_eq!(
        Err(LexError::UnexpectedCharacter { character: '.', position: position(1, 1) }),
        ctx.mk_number(c)
    );
    assert!(ctx.span.is_n_chars(0));
    assert!(ctx.read_char().is_none());
}

#[test]
fn unterminated_string_is_a_failure() {
    let items = scan("\"abc");
    assert_eq!(items[0], Err(LexError::UnterminatedString));
    assert!(!items
        .iter()
        .any(|item| matches!(item, Ok(token) if matches!(token.lexeme, Lexeme::String(_)))));
    assert_eq!(2, items.len());
    assert_eq!(Lexeme::Eof, items[1].as_ref().unwrap().lexeme);
}

#[test]
fn mk_string_fails_without_closing_quote() {
    let mut ctx = Context::new("\"never closed\nat all");
    let _ = ctx.read_char().unwrap();
    assert_eq!(Err(LexError::UnterminatedString), ctx.mk_string());
    assert!(ctx.read_char().is_none());
}

#[test]
fn string_contents_leave_the_quotes_out() {
    let items = scan("\"lox\"");
    let token = items[0].as_ref().unwrap();
    assert_eq!(Lexeme::String("lox".to_string()), token.lexeme);
    assert_eq!(span(1, 0, 1, 5), token.span);
    assert_eq!(lexemes("\"\""), vec![Lexeme::String(String::new()), Lexeme::Eof]);
}

#[test]
fn string_may_span_lines() {
    let items = scan("\"a\nbc\";");
    let token = items[0].as_ref().unwrap();
    assert_eq!(Lexeme::String("a\nbc".to_string()), token.lexeme);
    assert_eq!(span(1, 0, 2, 3), token.span);
    let semicolon = items[1].as_ref().unwrap();
    assert_eq!(Lexeme::Semicolon, semicolon.lexeme);
    assert_eq!(span(2, 3, 2, 4), semicolon.span);
}

#[test]
fn unexpected_character_is_a_failure() {
    let items = scan("a @b");
    assert_eq!(
        items[2],
        Err(LexError::UnexpectedCharacter { character: '@', position: position(1, 2) })
    );
    let b = items[3].as_ref().unwrap();
    assert_eq!(id("b"), b.lexeme);
    assert_eq!(span(1, 3, 1, 4), b.span);
}

#[test]
fn non_ascii_letter_is_unexpected() {
    let items = scan("é");
    assert_eq!(
        items[0],
        Err(LexError::UnexpectedCharacter { character: 'é', position: position(1, 0) })
    );
    assert_eq!(span(1, 1, 1, 1), items[1].as_ref().unwrap().span);
}

#[test]
fn read_token_with_char_rejects_what_opens_no_lexeme() {
    let mut ctx = Context::new("#");
    let c = ctx.read_char().unwrap();
    assert_eq!(
        Err(LexError::UnexpectedCharacter { character: '#', position: position(1, 0) }),
        ctx.read_token_with_char(c)
    );
}

#[test]
fn whitespace_is_coalesced() {
    let items = scan("a \t\r b");
    let blank = items[1].as_ref().unwrap();
    assert_eq!(ws(" \t\r "), blank.lexeme);
    assert_eq!(span(1, 1, 1, 5), blank.span);
}

#[test]
fn newline_token_spans_two_lines() {
    let items = scan("a\nb");
    let newline = items[1].as_ref().unwrap();
    assert_eq!(Lexeme::NewLine, newline.lexeme);
    assert_eq!(span(1, 1, 2, 0), newline.span);
    assert!(newline.span.is_multi_line());
    assert_eq!(span(2, 0, 2, 1), items[2].as_ref().unwrap().span);
}

#[test]
fn columns_count_characters_not_bytes() {
    let items = scan("\"äö\"x");
    assert_eq!(span(1, 0, 1, 4), items[0].as_ref().unwrap().span);
    assert_eq!(span(1, 4, 1, 5), items[1].as_ref().unwrap().span);
}

#[test]
fn variable_declaration_over_two_lines() {
    let items = scan("var language=\n\"lox\";");
    let tokens: Vec<Token> = items.into_iter().map(|item| item.unwrap()).collect();
    let expected = vec![
        Token { lexeme: Lexeme::Var, span: span(1, 0, 1, 3) },
        Token { lexeme: ws(" "), span: span(1, 3, 1, 4) },
        Token { lexeme: id("language"), span: span(1, 4, 1, 12) },
        Token { lexeme: Lexeme::Equal, span: span(1, 12, 1, 13) },
        Token { lexeme: Lexeme::NewLine, span: span(1, 13, 2, 0) },
        Token { lexeme: Lexeme::String("lox".to_string()), span: span(2, 0, 2, 5) },
        Token { lexeme: Lexeme::Semicolon, span: span(2, 5, 2, 6) },
        Token { lexeme: Lexeme::Eof, span: span(2, 6, 2, 6) },
    ];
    assert_eq!(expected, tokens);
}

/// The text of `source` between two coordinates.
fn text_between(source: &str, s: &Span) -> String {
    let mut line = 1;
    let mut column = 0;
    let mut text = String::new();
    for c in source.chars() {
        let at_or_after_start =
            line > s.start_line.0 || (line == s.start_line.0 && column >= s.start_col.0);
        let before_end = line < s.end_line.0 || (line == s.end_line.0 && column < s.end_col.0);
        if at_or_after_start && before_end {
            text.push(c);
        }
        if c == '\n' {
            line += 1;
            column = 0;
        } else {
            column += 1;
        }
    }
    text
}

#[test]
fn spans_tile_the_source() {
    let sources = [
        "",
        "var language=\n\"lox\";",
        "// c\n\n  fun f(a, b) { return a >= b; }\n",
        "\"multi\nline\nstring\" != 12.5 // done",
        "a\r\n\tb",
    ];
    for source in sources {
        let tokens: Vec<Token> = scan(source).into_iter().map(|item| item.unwrap()).collect();
        let mut rebuilt = String::new();
        let mut previous = span(1, 0, 1, 0);
        for token in &tokens {
            assert_eq!(previous.end_line, token.span.start_line);
            assert_eq!(previous.end_col, token.span.start_col);
            rebuilt.push_str(&text_between(source, &token.span));
            previous = token.span;
        }
        assert_eq!(source, rebuilt);
    }
}

#[test]
fn scanning_twice_gives_equal_tokens() {
    let source = "fun add(a, b) {\n  return a + b; // sum\n}\nprint add(1.5, 2) <= \"x\";";
    let first = scan(source);
    let second = scan(source);
    assert_eq!(first.len(), second.len());
    for (a, b) in first.iter().zip(second.iter()) {
        let a = a.as_ref().unwrap();
        let b = b.as_ref().unwrap();
        assert_eq!(a.lexeme, b.lexeme);
        assert_eq!(a.span, b.span);
    }
    assert_eq!(scan("1. @ \"x"), scan("1. @ \"x"));
}

#[test]
fn tokens_returns_what_is_left() {
    let mut lexer = Lexer::with_source("a b");
    let _ = lexer.next_token();
    let rest: Vec<Lexeme> = lexer.tokens().into_iter().map(|item| item.unwrap().lexeme).collect();
    assert_eq!(vec![ws(" "), id("b"), Lexeme::Eof], rest);
}

#[test]
fn read_line_takes_the_line_break() {
    let mut ctx = Context::new("ab\ncd");
    assert_eq!("ab\n", ctx.read_line());
    assert_eq!(span(1, 0, 2, 0), ctx.span);
    assert_eq!("cd", ctx.read_line());
    assert_eq!(span(1, 0, 2, 2), ctx.span);
    assert_eq!("", ctx.read_line());
}

#[test]
fn read_char_if_consumes_only_on_match() {
    let mut ctx = Context::new("=x");
    assert!(!ctx.read_char_if('x'));
    assert_eq!(0, ctx.pos);
    assert!(ctx.read_char_if('='));
    assert_eq!(1, ctx.pos);
    assert!(ctx.span.is_one_char());
    assert_eq!(Some('x'), ctx.peek());
    assert!(ctx.read_char_if('x'));
    assert!(!ctx.read_char_if('x'));
    assert_eq!(None, ctx.peek());
}

#[test]
fn read_runs_keep_the_first_character() {
    let mut ctx = Context::new("bc1_ d");
    assert_eq!("abc1_", ctx.read_identifier('a'));
    assert_eq!(4, ctx.pos);
    let mut ctx = Context::new(" \tx");
    assert_eq!("\r \t", ctx.read_ws('\r'));
    let mut ctx = Context::new("23.50;");
    assert_eq!(Some("123.50".to_string()), ctx.read_number('1'));
    let mut ctx = Context::new("23.;");
    assert_eq!(None, ctx.read_number('1'));
    assert_eq!(3, ctx.pos);
    let mut ctx = Context::new("ab\"c");
    assert_eq!(Some("ab".to_string()), ctx.read_string());
    assert_eq!(3, ctx.pos);
    assert_eq!(None, ctx.read_string());
}

#[test]
fn update_span_follows_the_character() {
    let mut ctx = Context::new("");
    ctx.update_span('a');
    assert_eq!(span(1, 0, 1, 1), ctx.span);
    ctx.update_span('\n');
    assert_eq!(span(1, 0, 2, 0), ctx.span);
}

#[test]
fn character_classes() {
    assert!(Context::is_whitespace(' ') && Context::is_whitespace('\t'));
    assert!(Context::is_whitespace('\r') && !Context::is_whitespace('\n'));
    assert!(Context::is_digit('0') && Context::is_digit('9') && !Context::is_digit('a'));
    assert!(Context::is_alpha('a') && Context::is_alpha('Z') && Context::is_alpha('_'));
    assert!(!Context::is_alpha('1') && !Context::is_alpha('-'));
    assert!(Context::is_alphanum('1') && Context::is_alphanum('q') && !Context::is_alphanum(' '));
    assert!(lox_lexer::chars::is_whitespace(' ') && !lox_lexer::chars::is_whitespace('x'));
    assert!(lox_lexer::chars::is_digit('5') && !lox_lexer::chars::is_digit('/'));
    assert!(lox_lexer::chars::is_alpha('m') && !lox_lexer::chars::is_alpha('{'));
    assert!(lox_lexer::chars::is_alphanum('_') && !lox_lexer::chars::is_alphanum('.'));
}

#[test]
fn lexeme_renderings() {
    assert_eq!("!=", Lexeme::BangEqual.to_display_string());
    assert_eq!("BANG_EQUAL", Lexeme::BangEqual.to_debug_string());
    assert_eq!("{", Lexeme::LeftBrace.to_display_string());
    assert_eq!("L_BRACE", Lexeme::LeftBrace.to_debug_string());
    assert_eq!("id(name)", id("name").to_display_string());
    assert_eq!("IDENTITY(name)", id("name").to_debug_string());
    assert_eq!("str(value)", Lexeme::String("value".to_string()).to_display_string());
    assert_eq!("STRING(value", Lexeme::String("value".to_string()).to_debug_string());
    assert_eq!("num(12.3)", Lexeme::Number("12.3".to_string()).to_display_string());
    assert_eq!("NUMBER(12.3)", Lexeme::Number("12.3".to_string()).to_debug_string());
    assert_eq!("cmt( hi)", Lexeme::Comment(" hi".to_string()).to_display_string());
    assert_eq!("COMMENT( hi)", Lexeme::Comment(" hi".to_string()).to_debug_string());
    assert_eq!("ws( )", ws(" ").to_display_string());
    assert_eq!("WHITESPACE( )", ws(" ").to_debug_string());
    assert_eq!("while", Lexeme::While.to_display_string());
    assert_eq!("WHILE", Lexeme::While.to_debug_string());
    assert_eq!("nl", Lexeme::NewLine.to_display_string());
    assert_eq!("NEW_LINE", Lexeme::NewLine.to_debug_string());
    assert_eq!("eof", Lexeme::Eof.to_display_string());
    assert_eq!("EOF", Lexeme::Eof.to_debug_string());
}

#[test]
fn span_and_token_renderings() {
    assert_eq!("10:100-101", Span::new(Line(10), Column(100)).to_debug_string());
    assert_eq!("1:3-2:0", span(1, 3, 2, 0).to_debug_string());
    assert_eq!("1:0-0", Span::default().to_debug_string());
    let token = Token::new_bang_equal(span(3, 4, 3, 6));
    assert_eq!("!= [3:4-6]", token.to_display_string());
    assert_eq!("BANG_EQUAL [3:4-6]", token.to_debug_string());
}

#[test]
fn decimal_numerals() {
    assert_eq!("0", decimal_string(0));
    assert_eq!("9", decimal_string(9));
    assert_eq!("10", decimal_string(10));
    assert_eq!("12345", decimal_string(12345));
    assert_eq!(usize::MAX.to_string(), decimal_string(usize::MAX));
}

#[test]
fn chars_of_keeps_every_character_in_order() {
    assert_eq!(vec!['a', 'é', '\n', '"'], chars_of("aé\n\""));
    assert!(chars_of("").is_empty());
}

#[test]
fn default_span_is_empty_at_the_origin() {
    let s = Span::default();
    assert_eq!(span(1, 0, 1, 0), s);
    assert!(s.is_n_chars(0));
}

#[test]
fn incr_col_n_moves_the_end_only() {
    let mut s = span(2, 5, 2, 5);
    s.incr_col_n(7);
    assert_eq!(span(2, 5, 2, 12), s);
    assert!(s.is_n_chars(7));
    assert!(!s.is_one_char() && !s.is_two_chars());
}
