use vstd::prelude::*;

verus! {

pub const CHAR_NEWLINE: char = '\n';

pub const CHAR_LEFT_PAREN: char = '(';

pub const CHAR_RIGHT_PAREN: char = ')';

pub const CHAR_LEFT_BRACE: char = '{';

pub const CHAR_RIGHT_BRACE: char = '}';

pub const CHAR_COMMA: char = ',';

pub const CHAR_DOT: char = '.';

pub const CHAR_PLUS: char = '+';

pub const CHAR_MINUS: char = '-';

pub const CHAR_SEMICOLON: char = ';';

pub const CHAR_STAR: char = '*';

pub const CHAR_BANG: char = '!';

pub const CHAR_EQUAL: char = '=';

pub const CHAR_GREATER: char = '>';

pub const CHAR_LESS: char = '<';

pub const CHAR_SLASH: char = '/';

pub const CHAR_WHITESPACE: char = ' ';

pub const CHAR_CARRIAGE_RETURN: char = '\r';

pub const CHAR_TAB: char = '\t';

pub const CHAR_DOUBLE_QUOTE: char = '"';

pub const CHAR_0: char = '0';

pub const CHAR_9: char = '9';

pub const CHAR_LOWERCASE_A: char = 'a';

pub const CHAR_LOWERCASE_Z: char = 'z';

pub const CHAR_UPPERCASE_A: char = 'A';

pub const CHAR_UPPERCASE_Z: char = 'Z';

pub const CHAR_UNDERSCORE: char = '_';

/// A blank that is not a line break: space, tab or carriage return.
pub open spec fn spec_is_whitespace(c: char) -> bool {
    c == ' ' || c == '\t' || c == '\r'
}

/// An ASCII decimal digit.
pub open spec fn spec_is_digit(c: char) -> bool {
    '0' <= c <= '9'
}

/// An ASCII letter or the underscore.
pub open spec fn spec_is_alpha(c: char) -> bool {
    ('a' <= c <= 'z') || ('A' <= c <= 'Z') || c == '_'
}

/// A character that may continue an identifier.
pub open spec fn spec_is_alphanum(c: char) -> bool {
    spec_is_alpha(c) || spec_is_digit(c)
}

#[inline]
#[verifier::when_used_as_spec(spec_is_whitespace)]
pub fn is_whitespace(c: char) -> (r: bool)
    ensures
        r == spec_is_whitespace(c),
{
    c == CHAR_WHITESPACE || c == CHAR_TAB || c == CHAR_CARRIAGE_RETURN
}

#[inline]
#[verifier::when_used_as_spec(spec_is_digit)]
pub fn is_digit(c: char) -> (r: bool)
    ensures
        r == spec_is_digit(c),
{
    c >= CHAR_0 && c <= CHAR_9
}

#[inline]
#[verifier::when_used_as_spec(spec_is_alpha)]
pub fn is_alpha(c: char) -> (r: bool)
    ensures
        r == spec_is_alpha(c),
{
    c >= CHAR_LOWERCASE_A && c <= CHAR_LOWERCASE_Z || c >= CHAR_UPPERCASE_A && c
        <= CHAR_UPPERCASE_Z || c == CHAR_UNDERSCORE
}

#[inline]
#[verifier::when_used_as_spec(spec_is_alphanum)]
pub fn is_alphanum(c: char) -> (r: bool)
    ensures
        r == spec_is_alphanum(c),
{
    is_alpha(c) || is_digit(c)
}

} // verus!
