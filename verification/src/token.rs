use vstd::prelude::*;
use vstd::string::StringExecFns;

use crate::lexeme::{Lexeme, LexemeView};
use crate::span::{Point, Span};

verus! {

/// Represents a token generated by the lexer.
#[derive(Clone, PartialEq, Eq, Debug)]
pub struct Token {
    pub lexeme: Lexeme,
    pub span: Span,
}

/// The mathematical model of a [`Token`]: what it is and where it lies.
pub struct TokenView {
    pub lexeme: LexemeView,
    pub start: Point,
    pub end: Point,
}

impl View for Token {
    type V = TokenView;

    open spec fn view(&self) -> TokenView {
        TokenView { lexeme: self.lexeme@, start: self.span.start(), end: self.span.end() }
    }
}

impl Token {
    /// The display form of a token: the display form of its lexeme, and its
    /// span in square brackets.
    pub open spec fn display_text(&self) -> Seq<char> {
        self.lexeme@.display_text() + " ["@ + self.span.debug_text() + "]"@
    }

    /// The debug form of a token: the debug form of its lexeme, and its span
    /// in square brackets.
    pub open spec fn debug_text(&self) -> Seq<char> {
        self.lexeme@.debug_text() + " ["@ + self.span.debug_text() + "]"@
    }

    /// Renders the display form of the token.
    pub fn to_display_string(&self) -> (s: String)
        ensures
            s@ == self.display_text(),
    {
        let mut s = self.lexeme.to_display_string();
        s.append(" [");
        s.append(self.span.to_debug_string().as_str());
        s.append("]");
        s
    }

    /// Renders the debug form of the token.
    pub fn to_debug_string(&self) -> (s: String)
        ensures
            s@ == self.debug_text(),
    {
        let mut s = self.lexeme.to_debug_string();
        s.append(" [");
        s.append(self.span.to_debug_string().as_str());
        s.append("]");
        s
    }

    /// Pairs a lexeme with the span that it occupies.
    pub fn new(l: Lexeme, s: Span) -> (t: Self)
        ensures
            t.lexeme == l,
            t.span == s,
    {
        Token { lexeme: l, span: s }
    }

    /// Creates a new 'left parenthesis' token, which is 1 character wide.
    #[inline]
    pub fn new_left_paren(s: Span) -> (t: Self)
        requires
            s.spec_is_n_chars(1),
        ensures
            t.lexeme == Lexeme::LeftParen,
            t.span == s,
    {
        Self::new(Lexeme::LeftParen, s)
    }

    /// Creates a new 'right parenthesis' token, which is 1 character wide.
    #[inline]
    pub fn new_right_paren(s: Span) -> (t: Self)
        requires
            s.spec_is_n_chars(1),
        ensures
            t.lexeme == Lexeme::RightParen,
            t.span == s,
    {
        Self::new(Lexeme::RightParen, s)
    }

    /// Creates a new 'left brace' token, which is 1 character wide.
    #[inline]
    pub fn new_left_brace(s: Span) -> (t: Self)
        requires
            s.spec_is_n_chars(1),
        ensures
            t.lexeme == Lexeme::LeftBrace,
            t.span == s,
    {
        Self::new(Lexeme::LeftBrace, s)
    }

    /// Creates a new 'right brace' token, which is 1 character wide.
    #[inline]
    pub fn new_right_brace(s: Span) -> (t: Self)
        requires
            s.spec_is_n_chars(1),
        ensures
            t.lexeme == Lexeme::RightBrace,
            t.span == s,
    {
        Self::new(Lexeme::RightBrace, s)
    }

    /// Creates a new 'comma' token, which is 1 character wide.
    #[inline]
    pub fn new_comma(s: Span) -> (t: Self)
        requires
            s.spec_is_n_chars(1),
        ensures
            t.lexeme == Lexeme::Comma,
            t.span == s,
    {
        Self::new(Lexeme::Comma, s)
    }

    /// Creates a new 'dot' token, which is 1 character wide.
    #[inline]
    pub fn new_dot(s: Span) -> (t: Self)
        requires
            s.spec_is_n_chars(1),
        ensures
            t.lexeme == Lexeme::Dot,
            t.span == s,
    {
        Self::new(Lexeme::Dot, s)
    }

    /// Creates a new 'plus' token, which is 1 character wide.
    #[inline]
    pub fn new_plus(s: Span) -> (t: Self)
        requires
            s.spec_is_n_chars(1),
        ensures
            t.lexeme == Lexeme::Plus,
            t.span == s,
    {
        Self::new(Lexeme::Plus, s)
    }

    /// Creates a new 'minus' token, which is 1 character wide.
    #[inline]
    pub fn new_minus(s: Span) -> (t: Self)
        requires
            s.spec_is_n_chars(1),
        ensures
            t.lexeme == Lexeme::Minus,
            t.span == s,
    {
        Self::new(Lexeme::Minus, s)
    }

    /// Creates a new 'semicolon' token, which is 1 character wide.
    #[inline]
    pub fn new_semicolon(s: Span) -> (t: Self)
        requires
            s.spec_is_n_chars(1),
        ensures
            t.lexeme == Lexeme::Semicolon,
            t.span == s,
    {
        Self::new(Lexeme::Semicolon, s)
    }

    /// Creates a new 'slash' token, which is 1 character wide.
    #[inline]
    pub fn new_slash(s: Span) -> (t: Self)
        requires
            s.spec_is_n_chars(1),
        ensures
            t.lexeme == Lexeme::Slash,
            t.span == s,
    {
        Self::new(Lexeme::Slash, s)
    }

    /// Creates a new 'star' token, which is 1 character wide.
    #[inline]
    pub fn new_star(s: Span) -> (t: Self)
        requires
            s.spec_is_n_chars(1),
        ensures
            t.lexeme == Lexeme::Star,
            t.span == s,
    {
        Self::new(Lexeme::Star, s)
    }

    /// Creates a new 'bang' token, which is 1 character wide.
    #[inline]
    pub fn new_bang(s: Span) -> (t: Self)
        requires
            s.spec_is_n_chars(1),
        ensures
            t.lexeme == Lexeme::Bang,
            t.span == s,
    {
        Self::new(Lexeme::Bang, s)
    }

    /// Creates a new 'bang-equal' token, which is 2 characters wide.
    #[inline]
    pub fn new_bang_equal(s: Span) -> (t: Self)
        requires
            s.spec_is_n_chars(2),
        ensures
            t.lexeme == Lexeme::BangEqual,
            t.span == s,
    {
        Self::new(Lexeme::BangEqual, s)
    }

    /// Creates a new 'equal' token, which is 1 character wide.
    #[inline]
    pub fn new_equal(s: Span) -> (t: Self)
        requires
            s.spec_is_n_chars(1),
        ensures
            t.lexeme == Lexeme::Equal,
            t.span == s,
    {
        Self::new(Lexeme::Equal, s)
    }

    /// Creates a new 'equal-equal' token, which is 2 characters wide.
    #[inline]
    pub fn new_equal_equal(s: Span) -> (t: Self)
        requires
            s.spec_is_n_chars(2),
        ensures
            t.lexeme == Lexeme::EqualEqual,
            t.span == s,
    {
        Self::new(Lexeme::EqualEqual, s)
    }

    /// Creates a new 'greater' token, which is 1 character wide.
    #[inline]
    pub fn new_greater(s: Span) -> (t: Self)
        requires
            s.spec_is_n_chars(1),
        ensures
            t.lexeme == Lexeme::Greater,
            t.span == s,
    {
        Self::new(Lexeme::Greater, s)
    }

    /// Creates a new 'greater-equal' token, which is 2 characters wide.
    #[inline]
    pub fn new_greater_equal(s: Span) -> (t: Self)
        requires
            s.spec_is_n_chars(2),
        ensures
            t.lexeme == Lexeme::GreaterEqual,
            t.span == s,
    {
        Self::new(Lexeme::GreaterEqual, s)
    }

    /// Creates a new 'less' token, which is 1 character wide.
    #[inline]
    pub fn new_less(s: Span) -> (t: Self)
        requires
            s.spec_is_n_chars(1),
        ensures
            t.lexeme == Lexeme::Less,
            t.span == s,
    {
        Self::new(Lexeme::Less, s)
    }

    /// Creates a new 'less-equal' token, which is 2 characters wide.
    #[inline]
    pub fn new_less_equal(s: Span) -> (t: Self)
        requires
            s.spec_is_n_chars(2),
        ensures
            t.lexeme == Lexeme::LessEqual,
            t.span == s,
    {
        Self::new(Lexeme::LessEqual, s)
    }

    /// Creates a new 'identifier' token.
    #[inline]
    pub fn new_identifier(i: &str, s: Span) -> (t: Self)
        ensures
            t.lexeme@ == LexemeView::Identifier(i@),
            t.span == s,
    {
        Self::new(Lexeme::Identifier(i.to_owned()), s)
    }

    /// Creates a new 'string' token.
    #[inline]
    pub fn new_string(str: &str, s: Span) -> (t: Self)
        ensures
            t.lexeme@ == LexemeView::String(str@),
            t.span == s,
    {
        Self::new(Lexeme::String(str.to_owned()), s)
    }

    /// Creates a new 'number' token from the decimal text of the literal.
    #[inline]
    pub fn new_number(number: &str, s: Span) -> (t: Self)
        ensures
            t.lexeme@ == LexemeView::Number(number@),
            t.span == s,
    {
        Self::new(Lexeme::Number(number.to_owned()), s)
    }

    /// Creates a new 'comment' token.
    #[inline]
    pub fn new_comment(c: &str, s: Span) -> (t: Self)
        ensures
            t.lexeme@ == LexemeView::Comment(c@),
            t.span == s,
    {
        Self::new(Lexeme::Comment(c.to_owned()), s)
    }

    /// Creates a new 'and' token, which is 3 characters wide.
    #[inline]
    pub fn new_and(s: Span) -> (t: Self)
        requires
            s.spec_is_n_chars(3),
        ensures
            t.lexeme == Lexeme::And,
            t.span == s,
    {
        Self::new(Lexeme::And, s)
    }

    /// Creates a new 'class' token, which is 5 characters wide.
    #[inline]
    pub fn new_class(s: Span) -> (t: Self)
        requires
            s.spec_is_n_chars(5),
        ensures
            t.lexeme == Lexeme::Class,
            t.span == s,
    {
        Self::new(Lexeme::Class, s)
    }

    /// Creates a new 'else' token, which is 4 characters wide.
    #[inline]
    pub fn new_else(s: Span) -> (t: Self)
        requires
            s.spec_is_n_chars(4),
        ensures
            t.lexeme == Lexeme::Else,
            t.span == s,
    {
        Self::new(Lexeme::Else, s)
    }

    /// Creates a new 'false' token, which is 5 characters wide.
    #[inline]
    pub fn new_false(s: Span) -> (t: Self)
        requires
            s.spec_is_n_chars(5),
        ensures
            t.lexeme == Lexeme::False,
            t.span == s,
    {
        Self::new(Lexeme::False, s)
    }

    /// Creates a new 'fun' token, which is 3 characters wide.
    #[inline]
    pub fn new_fun(s: Span) -> (t: Self)
        requires
            s.spec_is_n_chars(3),
        ensures
            t.lexeme == Lexeme::Fun,
            t.span == s,
    {
        Self::new(Lexeme::Fun, s)
    }

    /// Creates a new 'for' token, which is 3 characters wide.
    #[inline]
    pub fn new_for(s: Span) -> (t: Self)
        requires
            s.spec_is_n_chars(3),
        ensures
            t.lexeme == Lexeme::For,
            t.span == s,
    {
        Self::new(Lexeme::For, s)
    }

    /// Creates a new 'if' token, which is 2 characters wide.
    #[inline]
    pub fn new_if(s: Span) -> (t: Self)
        requires
            s.spec_is_n_chars(2),
        ensures
            t.lexeme == Lexeme::If,
            t.span == s,
    {
        Self::new(Lexeme::If, s)
    }

    /// Creates a new 'nil' token, which is 3 characters wide.
    #[inline]
    pub fn new_nil(s: Span) -> (t: Self)
        requires
            s.spec_is_n_chars(3),
        ensures
            t.lexeme == Lexeme::Nil,
            t.span == s,
    {
        Self::new(Lexeme::Nil, s)
    }

    /// Creates a new 'or' token, which is 2 characters wide.
    #[inline]
    pub fn new_or(s: Span) -> (t: Self)
        requires
            s.spec_is_n_chars(2),
        ensures
            t.lexeme == Lexeme::Or,
            t.span == s,
    {
        Self::new(Lexeme::Or, s)
    }

    /// Creates a new 'print' token, which is 5 characters wide.
    #[inline]
    pub fn new_print(s: Span) -> (t: Self)
        requires
            s.spec_is_n_chars(5),
        ensures
            t.lexeme == Lexeme::Print,
            t.span == s,
    {
        Self::new(Lexeme::Print, s)
    }

    /// Creates a new 'return' token, which is 6 characters wide.
    #[inline]
    pub fn new_return(s: Span) -> (t: Self)
        requires
            s.spec_is_n_chars(6),
        ensures
            t.lexeme == Lexeme::Return,
            t.span == s,
    {
        Self::new(Lexeme::Return, s)
    }

    /// Creates a new 'super' token, which is 5 characters wide.
    #[inline]
    pub fn new_super(s: Span) -> (t: Self)
        requires
            s.spec_is_n_chars(5),
        ensures
            t.lexeme == Lexeme::Super,
            t.span == s,
    {
        Self::new(Lexeme::Super, s)
    }

    /// Creates a new 'this' token, which is 4 characters wide.
    #[inline]
    pub fn new_this(s: Span) -> (t: Self)
        requires
            s.spec_is_n_chars(4),
        ensures
            t.lexeme == Lexeme::This,
            t.span == s,
    {
        Self::new(Lexeme::This, s)
    }

    /// Creates a new 'true' token, which is 4 characters wide.
    #[inline]
    pub fn new_true(s: Span) -> (t: Self)
        requires
            s.spec_is_n_chars(4),
        ensures
            t.lexeme == Lexeme::True,
            t.span == s,
    {
        Self::new(Lexeme::True, s)
    }

    /// Creates a new 'var' token, which is 3 characters wide.
    #[inline]
    pub fn new_var(s: Span) -> (t: Self)
        requires
            s.spec_is_n_chars(3),
        ensures
            t.lexeme == Lexeme::Var,
            t.span == s,
    {
        Self::new(Lexeme::Var, s)
    }

    /// Creates a new 'while' token, which is 5 characters wide.
    #[inline]
    pub fn new_while(s: Span) -> (t: Self)
        requires
            s.spec_is_n_chars(5),
        ensures
            t.lexeme == Lexeme::While,
            t.span == s,
    {
        Self::new(Lexeme::While, s)
    }

    /// Creates a new 'whitespace' token.
    #[inline]
    pub fn new_whitespace(ws: &str, s: Span) -> (t: Self)
        ensures
            t.lexeme@ == LexemeView::Whitespace(ws@),
            t.span == s,
    {
        Self::new(Lexeme::Whitespace(ws.to_owned()), s)
    }

    /// Creates a new 'new line' token.
    #[inline]
    pub fn new_newline(s: Span) -> (t: Self)
        ensures
            t.lexeme == Lexeme::NewLine,
            t.span == s,
    {
        Self::new(Lexeme::NewLine, s)
    }

    /// Creates a new 'end of input' token.
    #[inline]
    pub fn new_eof(s: Span) -> (t: Self)
        ensures
            t.lexeme == Lexeme::Eof,
            t.span == s,
    {
        Self::new(Lexeme::Eof, s)
    }

}

} // verus!
