use vstd::prelude::*;
use vstd::string::StringExecFns;

verus! {

/// Represents the lexemes supported by the language.
#[derive(Clone, PartialEq, Eq, Debug)]
pub enum Lexeme {
    /// Left parenthesis
    LeftParen,
    /// Right parenthesis
    RightParen,
    /// Left brace
    LeftBrace,
    /// Right brace
    RightBrace,
    /// Comma
    Comma,
    /// Dot
    Dot,
    /// Minus
    Minus,
    /// Plus
    Plus,
    /// Semicolon
    Semicolon,
    /// Slash
    Slash,
    /// Star
    Star,
    /// Bang
    Bang,
    /// BangEqual
    BangEqual,
    /// Equal
    Equal,
    /// EqualEqual
    EqualEqual,
    /// Greater
    Greater,
    /// GreaterEqual
    GreaterEqual,
    /// Less
    Less,
    /// LessEqual
    LessEqual,
    /// Identifier, with its name
    Identifier(String),
    /// String literal, with its contents (the quotes left out)
    String(String),
    /// Number literal, with its decimal text
    Number(String),
    /// Line comment, with its text (the two slashes left out)
    Comment(String),
    /// And
    And,
    /// Class
    Class,
    /// Else
    Else,
    /// False
    False,
    /// Fun
    Fun,
    /// For
    For,
    /// If
    If,
    /// Nil
    Nil,
    /// Or
    Or,
    /// Print
    Print,
    /// Return
    Return,
    /// Super
    Super,
    /// This
    This,
    /// True
    True,
    /// Var
    Var,
    /// While
    While,
    /// A run of blanks, with its text
    Whitespace(String),
    /// New line
    NewLine,
    /// End of input
    Eof,
}

/// The mathematical model of a [`Lexeme`]: the same kinds, with texts as
/// sequences of characters.
pub enum LexemeView {
    LeftParen,
    RightParen,
    LeftBrace,
    RightBrace,
    Comma,
    Dot,
    Minus,
    Plus,
    Semicolon,
    Slash,
    Star,
    Bang,
    BangEqual,
    Equal,
    EqualEqual,
    Greater,
    GreaterEqual,
    Less,
    LessEqual,
    Identifier(Seq<char>),
    String(Seq<char>),
    Number(Seq<char>),
    Comment(Seq<char>),
    And,
    Class,
    Else,
    False,
    Fun,
    For,
    If,
    Nil,
    Or,
    Print,
    Return,
    Super,
    This,
    True,
    Var,
    While,
    Whitespace(Seq<char>),
    NewLine,
    Eof,
}

impl View for Lexeme {
    type V = LexemeView;

    open spec fn view(&self) -> LexemeView {
        match self {
            Lexeme::LeftParen => LexemeView::LeftParen,
            Lexeme::RightParen => LexemeView::RightParen,
            Lexeme::LeftBrace => LexemeView::LeftBrace,
            Lexeme::RightBrace => LexemeView::RightBrace,
            Lexeme::Comma => LexemeView::Comma,
            Lexeme::Dot => LexemeView::Dot,
            Lexeme::Minus => LexemeView::Minus,
            Lexeme::Plus => LexemeView::Plus,
            Lexeme::Semicolon => LexemeView::Semicolon,
            Lexeme::Slash => LexemeView::Slash,
            Lexeme::Star => LexemeView::Star,
            Lexeme::Bang => LexemeView::Bang,
            Lexeme::BangEqual => LexemeView::BangEqual,
            Lexeme::Equal => LexemeView::Equal,
            Lexeme::EqualEqual => LexemeView::EqualEqual,
            Lexeme::Greater => LexemeView::Greater,
            Lexeme::GreaterEqual => LexemeView::GreaterEqual,
            Lexeme::Less => LexemeView::Less,
            Lexeme::LessEqual => LexemeView::LessEqual,
            Lexeme::Identifier(t) => LexemeView::Identifier(t@),
            Lexeme::String(t) => LexemeView::String(t@),
            Lexeme::Number(t) => LexemeView::Number(t@),
            Lexeme::Comment(t) => LexemeView::Comment(t@),
            Lexeme::And => LexemeView::And,
            Lexeme::Class => LexemeView::Class,
            Lexeme::Else => LexemeView::Else,
            Lexeme::False => LexemeView::False,
            Lexeme::Fun => LexemeView::Fun,
            Lexeme::For => LexemeView::For,
            Lexeme::If => LexemeView::If,
            Lexeme::Nil => LexemeView::Nil,
            Lexeme::Or => LexemeView::Or,
            Lexeme::Print => LexemeView::Print,
            Lexeme::Return => LexemeView::Return,
            Lexeme::Super => LexemeView::Super,
            Lexeme::This => LexemeView::This,
            Lexeme::True => LexemeView::True,
            Lexeme::Var => LexemeView::Var,
            Lexeme::While => LexemeView::While,
            Lexeme::Whitespace(t) => LexemeView::Whitespace(t@),
            Lexeme::NewLine => LexemeView::NewLine,
            Lexeme::Eof => LexemeView::Eof,
        }
    }
}

impl LexemeView {
    /// The display form: text close to the surface syntax.
    pub open spec fn display_text(self) -> Seq<char> {
        match self {
            LexemeView::LeftParen => "("@,
            LexemeView::RightParen => ")"@,
            LexemeView::LeftBrace => "{"@,
            LexemeView::RightBrace => "}"@,
            LexemeView::Comma => ","@,
            LexemeView::Dot => "."@,
            LexemeView::Minus => "-"@,
            LexemeView::Plus => "+"@,
            LexemeView::Semicolon => ";"@,
            LexemeView::Slash => "/"@,
            LexemeView::Star => "*"@,
            LexemeView::Bang => "!"@,
            LexemeView::BangEqual => "!="@,
            LexemeView::Equal => "="@,
            LexemeView::EqualEqual => "=="@,
            LexemeView::Greater => ">"@,
            LexemeView::GreaterEqual => ">="@,
            LexemeView::Less => "<"@,
            LexemeView::LessEqual => "<="@,
            LexemeView::Identifier(t) => "id("@ + t + ")"@,
            LexemeView::String(t) => "str("@ + t + ")"@,
            LexemeView::Number(t) => "num("@ + t + ")"@,
            LexemeView::Comment(t) => "cmt("@ + t + ")"@,
            LexemeView::And => "and"@,
            LexemeView::Class => "class"@,
            LexemeView::Else => "else"@,
            LexemeView::False => "false"@,
            LexemeView::Fun => "fun"@,
            LexemeView::For => "for"@,
            LexemeView::If => "if"@,
            LexemeView::Nil => "nil"@,
            LexemeView::Or => "or"@,
            LexemeView::Print => "print"@,
            LexemeView::Return => "return"@,
            LexemeView::Super => "super"@,
            LexemeView::This => "this"@,
            LexemeView::True => "true"@,
            LexemeView::Var => "var"@,
            LexemeView::While => "while"@,
            LexemeView::Whitespace(t) => "ws("@ + t + ")"@,
            LexemeView::NewLine => "nl"@,
            LexemeView::Eof => "eof"@,
        }
    }

    /// The debug form: the upper-case symbolic name. The form of a string
    /// literal leaves its parenthesis open.
    pub open spec fn debug_text(self) -> Seq<char> {
        match self {
            LexemeView::LeftParen => "L_PAREN"@,
            LexemeView::RightParen => "R_PAREN"@,
            LexemeView::LeftBrace => "L_BRACE"@,
            LexemeView::RightBrace => "R_BRACE"@,
            LexemeView::Comma => "COMMA"@,
            LexemeView::Dot => "DOT"@,
            LexemeView::Minus => "MINUS"@,
            LexemeView::Plus => "PLUS"@,
            LexemeView::Semicolon => "SEMICOLON"@,
            LexemeView::Slash => "SLASH"@,
            LexemeView::Star => "STAR"@,
            LexemeView::Bang => "BANG"@,
            LexemeView::BangEqual => "BANG_EQUAL"@,
            LexemeView::Equal => "EQUAL"@,
            LexemeView::EqualEqual => "EQUAL_EQUAL"@,
            LexemeView::Greater => "GREATER"@,
            LexemeView::GreaterEqual => "GREATER_EQUAL"@,
            LexemeView::Less => "LESS"@,
            LexemeView::LessEqual => "LESS_EQUAL"@,
            LexemeView::Identifier(t) => "IDENTITY("@ + t + ")"@,
            LexemeView::String(t) => "STRING("@ + t,
            LexemeView::Number(t) => "NUMBER("@ + t + ")"@,
            LexemeView::Comment(t) => "COMMENT("@ + t + ")"@,
            LexemeView::And => "AND"@,
            LexemeView::Class => "CLASS"@,
            LexemeView::Else => "ELSE"@,
            LexemeView::False => "FALSE"@,
            LexemeView::Fun => "FUN"@,
            LexemeView::For => "FOR"@,
            LexemeView::If => "IF"@,
            LexemeView::Nil => "NIL"@,
            LexemeView::Or => "OR"@,
            LexemeView::Print => "PRINT"@,
            LexemeView::Return => "RETURN"@,
            LexemeView::Super => "SUPER"@,
            LexemeView::This => "THIS"@,
            LexemeView::True => "TRUE"@,
            LexemeView::Var => "VAR"@,
            LexemeView::While => "WHILE"@,
            LexemeView::Whitespace(t) => "WHITESPACE("@ + t + ")"@,
            LexemeView::NewLine => "NEW_LINE"@,
            LexemeView::Eof => "EOF"@,
        }
    }
}

/// Joins three pieces of text.
fn enclose(prefix: &str, text: &str, suffix: &str) -> (s: String)
    ensures
        s@ == prefix@ + text@ + suffix@,
{
    let mut s = String::from_str(prefix);
    s.append(text);
    s.append(suffix);
    s
}

/// Joins two pieces of text.
fn prefixed(prefix: &str, text: &str) -> (s: String)
    ensures
        s@ == prefix@ + text@,
{
    let mut s = String::from_str(prefix);
    s.append(text);
    s
}

impl Lexeme {
    /// Renders the display form of the lexeme.
    pub fn to_display_string(&self) -> (s: String)
        ensures
            s@ == self@.display_text(),
            s@.len() > 0,
    {
        proof {
            lemma_display_text_not_empty(self@);
        }
        match self {
            Lexeme::LeftParen => String::from_str("("),
            Lexeme::RightParen => String::from_str(")"),
            Lexeme::LeftBrace => String::from_str("{"),
            Lexeme::RightBrace => String::from_str("}"),
            Lexeme::Comma => String::from_str(","),
            Lexeme::Dot => String::from_str("."),
            Lexeme::Minus => String::from_str("-"),
            Lexeme::Plus => String::from_str("+"),
            Lexeme::Semicolon => String::from_str(";"),
            Lexeme::Slash => String::from_str("/"),
            Lexeme::Star => String::from_str("*"),
            Lexeme::Bang => String::from_str("!"),
            Lexeme::BangEqual => String::from_str("!="),
            Lexeme::Equal => String::from_str("="),
            Lexeme::EqualEqual => String::from_str("=="),
            Lexeme::Greater => String::from_str(">"),
            Lexeme::GreaterEqual => String::from_str(">="),
            Lexeme::Less => String::from_str("<"),
            Lexeme::LessEqual => String::from_str("<="),
            Lexeme::Identifier(t) => enclose("id(", t.as_str(), ")"),
            Lexeme::String(t) => enclose("str(", t.as_str(), ")"),
            Lexeme::Number(t) => enclose("num(", t.as_str(), ")"),
            Lexeme::Comment(t) => enclose("cmt(", t.as_str(), ")"),
            Lexeme::And => String::from_str("and"),
            Lexeme::Class => String::from_str("class"),
            Lexeme::Else => String::from_str("else"),
            Lexeme::False => String::from_str("false"),
            Lexeme::Fun => String::from_str("fun"),
            Lexeme::For => String::from_str("for"),
            Lexeme::If => String::from_str("if"),
            Lexeme::Nil => String::from_str("nil"),
            Lexeme::Or => String::from_str("or"),
            Lexeme::Print => String::from_str("print"),
            Lexeme::Return => String::from_str("return"),
            Lexeme::Super => String::from_str("super"),
            Lexeme::This => String::from_str("this"),
            Lexeme::True => String::from_str("true"),
            Lexeme::Var => String::from_str("var"),
            Lexeme::While => String::from_str("while"),
            Lexeme::Whitespace(t) => enclose("ws(", t.as_str(), ")"),
            Lexeme::NewLine => String::from_str("nl"),
            Lexeme::Eof => String::from_str("eof"),
        }
    }

    /// Renders the debug form of the lexeme.
    pub fn to_debug_string(&self) -> (s: String)
        ensures
            s@ == self@.debug_text(),
            s@.len() > 0,
    {
        proof {
            lemma_debug_text_not_empty(self@);
        }
        match self {
            Lexeme::LeftParen => String::from_str("L_PAREN"),
            Lexeme::RightParen => String::from_str("R_PAREN"),
            Lexeme::LeftBrace => String::from_str("L_BRACE"),
            Lexeme::RightBrace => String::from_str("R_BRACE"),
            Lexeme::Comma => String::from_str("COMMA"),
            Lexeme::Dot => String::from_str("DOT"),
            Lexeme::Minus => String::from_str("MINUS"),
            Lexeme::Plus => String::from_str("PLUS"),
            Lexeme::Semicolon => String::from_str("SEMICOLON"),
            Lexeme::Slash => String::from_str("SLASH"),
            Lexeme::Star => String::from_str("STAR"),
            Lexeme::Bang => String::from_str("BANG"),
            Lexeme::BangEqual => String::from_str("BANG_EQUAL"),
            Lexeme::Equal => String::from_str("EQUAL"),
            Lexeme::EqualEqual => String::from_str("EQUAL_EQUAL"),
            Lexeme::Greater => String::from_str("GREATER"),
            Lexeme::GreaterEqual => String::from_str("GREATER_EQUAL"),
            Lexeme::Less => String::from_str("LESS"),
            Lexeme::LessEqual => String::from_str("LESS_EQUAL"),
            Lexeme::Identifier(t) => enclose("IDENTITY(", t.as_str(), ")"),
            Lexeme::String(t) => prefixed("STRING(", t.as_str()),
            Lexeme::Number(t) => enclose("NUMBER(", t.as_str(), ")"),
            Lexeme::Comment(t) => enclose("COMMENT(", t.as_str(), ")"),
            Lexeme::And => String::from_str("AND"),
            Lexeme::Class => String::from_str("CLASS"),
            Lexeme::Else => String::from_str("ELSE"),
            Lexeme::False => String::from_str("FALSE"),
            Lexeme::Fun => String::from_str("FUN"),
            Lexeme::For => String::from_str("FOR"),
            Lexeme::If => String::from_str("IF"),
            Lexeme::Nil => String::from_str("NIL"),
            Lexeme::Or => String::from_str("OR"),
            Lexeme::Print => String::from_str("PRINT"),
            Lexeme::Return => String::from_str("RETURN"),
            Lexeme::Super => String::from_str("SUPER"),
            Lexeme::This => String::from_str("THIS"),
            Lexeme::True => String::from_str("TRUE"),
            Lexeme::Var => String::from_str("VAR"),
            Lexeme::While => String::from_str("WHILE"),
            Lexeme::Whitespace(t) => enclose("WHITESPACE(", t.as_str(), ")"),
            Lexeme::NewLine => String::from_str("NEW_LINE"),
            Lexeme::Eof => String::from_str("EOF"),
        }
    }
}

/// Every lexeme has a display form of at least one character.
pub proof fn lemma_display_text_not_empty(l: LexemeView)
    ensures
        l.display_text().len() > 0,
{
    reveal_strlit("(");
    reveal_strlit(")");
    reveal_strlit("{");
    reveal_strlit("}");
    reveal_strlit(",");
    reveal_strlit(".");
    reveal_strlit("-");
    reveal_strlit("+");
    reveal_strlit(";");
    reveal_strlit("/");
    reveal_strlit("*");
    reveal_strlit("!");
    reveal_strlit("!=");
    reveal_strlit("=");
    reveal_strlit("==");
    reveal_strlit(">");
    reveal_strlit(">=");
    reveal_strlit("<");
    reveal_strlit("<=");
    reveal_strlit("id(");
    reveal_strlit("str(");
    reveal_strlit("num(");
    reveal_strlit("cmt(");
    reveal_strlit("and");
    reveal_strlit("class");
    reveal_strlit("else");
    reveal_strlit("false");
    reveal_strlit("fun");
    reveal_strlit("for");
    reveal_strlit("if");
    reveal_strlit("nil");
    reveal_strlit("or");
    reveal_strlit("print");
    reveal_strlit("return");
    reveal_strlit("super");
    reveal_strlit("this");
    reveal_strlit("true");
    reveal_strlit("var");
    reveal_strlit("while");
    reveal_strlit("ws(");
    reveal_strlit("nl");
    reveal_strlit("eof");
}

/// Every lexeme has a debug form of at least one character.
pub proof fn lemma_debug_text_not_empty(l: LexemeView)
    ensures
        l.debug_text().len() > 0,
{
    reveal_strlit("L_PAREN");
    reveal_strlit("R_PAREN");
    reveal_strlit("L_BRACE");
    reveal_strlit("R_BRACE");
    reveal_strlit("COMMA");
    reveal_strlit("DOT");
    reveal_strlit("MINUS");
    reveal_strlit("PLUS");
    reveal_strlit("SEMICOLON");
    reveal_strlit("SLASH");
    reveal_strlit("STAR");
    reveal_strlit("BANG");
    reveal_strlit("BANG_EQUAL");
    reveal_strlit("EQUAL");
    reveal_strlit("EQUAL_EQUAL");
    reveal_strlit("GREATER");
    reveal_strlit("GREATER_EQUAL");
    reveal_strlit("LESS");
    reveal_strlit("LESS_EQUAL");
    reveal_strlit("IDENTITY(");
    reveal_strlit("STRING(");
    reveal_strlit("NUMBER(");
    reveal_strlit("COMMENT(");
    reveal_strlit("AND");
    reveal_strlit("CLASS");
    reveal_strlit("ELSE");
    reveal_strlit("FALSE");
    reveal_strlit("FUN");
    reveal_strlit("FOR");
    reveal_strlit("IF");
    reveal_strlit("NIL");
    reveal_strlit("OR");
    reveal_strlit("PRINT");
    reveal_strlit("RETURN");
    reveal_strlit("SUPER");
    reveal_strlit("THIS");
    reveal_strlit("TRUE");
    reveal_strlit("VAR");
    reveal_strlit("WHILE");
    reveal_strlit("WHITESPACE(");
    reveal_strlit("NEW_LINE");
    reveal_strlit("EOF");
}

} // verus!
