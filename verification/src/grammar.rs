use vstd::prelude::*;

use crate::chars::{
    is_alphanum, is_digit, is_whitespace, spec_is_alpha, spec_is_alphanum, spec_is_digit,
    spec_is_whitespace, CHAR_DOUBLE_QUOTE, CHAR_NEWLINE,
};
use crate::error::{LexError, LexFailure};
use crate::keywords::word_lexeme;
use crate::lexeme::LexemeView;
use crate::span::Point;
use crate::token::{Token, TokenView};

verus! {

/// The classes of characters that a lexeme is allowed to run over.
pub enum CharClass {
    /// Spaces, tabs and carriage returns.
    Blank,
    /// Decimal digits.
    Digit,
    /// Letters, digits and underscores.
    Word,
    /// Everything but a line break.
    NotNewline,
    /// Everything but a double quote.
    NotQuote,
}

impl CharClass {
    /// The character `c` is of the class.
    pub open spec fn holds(self, c: char) -> bool {
        match self {
            CharClass::Blank => spec_is_whitespace(c),
            CharClass::Digit => spec_is_digit(c),
            CharClass::Word => spec_is_alphanum(c),
            CharClass::NotNewline => c != '\n',
            CharClass::NotQuote => c != '"',
        }
    }

    /// Tells whether `c` is of the class.
    pub fn test(&self, c: char) -> (r: bool)
        ensures
            r == self.holds(c),
    {
        match self {
            CharClass::Blank => is_whitespace(c),
            CharClass::Digit => is_digit(c),
            CharClass::Word => is_alphanum(c),
            CharClass::NotNewline => c != CHAR_NEWLINE,
            CharClass::NotQuote => c != CHAR_DOUBLE_QUOTE,
        }
    }
}

/// Maximal munch: the offset of the first character at or behind `i` that is
/// not of the class, or the length of the text if there is none.
pub open spec fn skip_while(src: Seq<char>, i: int, class: CharClass) -> int
    decreases src.len() - i,
{
    if 0 <= i < src.len() && class.holds(src[i]) {
        skip_while(src, i + 1, class)
    } else {
        i
    }
}

/// The offset behind the line that `i` lies in: behind its line break, or the
/// length of the text where the last line has none.
pub open spec fn line_end(src: Seq<char>, i: int) -> int {
    let j = skip_while(src, i, CharClass::NotNewline);
    if j < src.len() {
        j + 1
    } else {
        j
    }
}

/// One lexical unit: what it is, or why it is none, and the offset behind it.
pub struct Step {
    pub outcome: Result<LexemeView, LexFailure>,
    pub end: int,
}

/// An operator that an equals sign may extend by one character; `next` is
/// the offset behind the operator's first character.
pub open spec fn operator_step(
    src: Seq<char>,
    next: int,
    single: LexemeView,
    double: LexemeView,
) -> Step {
    if next < src.len() && src[next] == '=' {
        Step { outcome: Ok(double), end: next + 1 }
    } else {
        Step { outcome: Ok(single), end: next }
    }
}

/// A slash: alone, or with a second slash the start of a comment that runs to
/// the end of the line, line break included.
pub open spec fn slash_step(src: Seq<char>, next: int) -> Step {
    if next < src.len() && src[next] == '/' {
        let end = line_end(src, next + 1);
        Step { outcome: Ok(LexemeView::Comment(src.subrange(next + 1, end))), end }
    } else {
        Step { outcome: Ok(LexemeView::Slash), end: next }
    }
}

/// A string literal: everything behind the opening quote up to the next
/// double quote, which must come before the text ends.
pub open spec fn string_step(src: Seq<char>, next: int) -> Step {
    let quote = skip_while(src, next, CharClass::NotQuote);
    if quote < src.len() {
        Step { outcome: Ok(LexemeView::String(src.subrange(next, quote))), end: quote + 1 }
    } else {
        Step { outcome: Err(LexFailure::UnterminatedString), end: quote }
    }
}

/// Where a number literal ends whose first digit stands before `next`: behind
/// its digits, and behind a dot and the digits after it where a dot follows
/// them.
pub open spec fn number_end(src: Seq<char>, next: int) -> int {
    let dot = skip_while(src, next, CharClass::Digit);
    if dot < src.len() && src[dot] == '.' {
        skip_while(src, dot + 1, CharClass::Digit)
    } else {
        dot
    }
}

/// The digits of a number literal are followed by a dot, and the dot by no
/// digit.
pub open spec fn number_malformed(src: Seq<char>, next: int) -> bool {
    let dot = skip_while(src, next, CharClass::Digit);
    dot < src.len() && src[dot] == '.' && skip_while(src, dot + 1, CharClass::Digit) == dot + 1
}

/// A number literal that starts with the digit `first`; `at` is the
/// coordinate behind that digit. A dot that no digit follows is taken, and
/// is reported at its own coordinate.
pub open spec fn number_step(first: char, src: Seq<char>, next: int, at: Point) -> Step {
    let end = number_end(src, next);
    if number_malformed(src, next) {
        Step {
            outcome: Err(
                LexFailure::UnexpectedCharacter {
                    character: '.',
                    position: at.right((end - 1 - next) as nat),
                },
            ),
            end,
        }
    } else {
        Step { outcome: Ok(LexemeView::Number(seq![first] + src.subrange(next, end))), end }
    }
}

/// A character with which a lexeme starts.
pub open spec fn opens_lexeme(c: char) -> bool {
    ||| c == '(' || c == ')' || c == '{' || c == '}' || c == ',' || c == '.'
    ||| c == '+' || c == '-' || c == ';' || c == '*'
    ||| c == '!' || c == '=' || c == '>' || c == '<' || c == '/'
    ||| c == '\n' || c == '"'
    ||| spec_is_whitespace(c)
    ||| spec_is_digit(c)
    ||| spec_is_alpha(c)
}

/// The lexical unit that starts with the character `first` and goes on at the
/// offset `next` of `src`. `opened` is the coordinate of `first` and `at` the
/// coordinate behind it.
pub open spec fn lexeme_from(
    first: char,
    src: Seq<char>,
    next: int,
    opened: Point,
    at: Point,
) -> Step {
    if first == '(' {
        Step { outcome: Ok(LexemeView::LeftParen), end: next }
    } else if first == ')' {
        Step { outcome: Ok(LexemeView::RightParen), end: next }
    } else if first == '{' {
        Step { outcome: Ok(LexemeView::LeftBrace), end: next }
    } else if first == '}' {
        Step { outcome: Ok(LexemeView::RightBrace), end: next }
    } else if first == ',' {
        Step { outcome: Ok(LexemeView::Comma), end: next }
    } else if first == '.' {
        Step { outcome: Ok(LexemeView::Dot), end: next }
    } else if first == '+' {
        Step { outcome: Ok(LexemeView::Plus), end: next }
    } else if first == '-' {
        Step { outcome: Ok(LexemeView::Minus), end: next }
    } else if first == ';' {
        Step { outcome: Ok(LexemeView::Semicolon), end: next }
    } else if first == '*' {
        Step { outcome: Ok(LexemeView::Star), end: next }
    } else if first == '!' {
        operator_step(src, next, LexemeView::Bang, LexemeView::BangEqual)
    } else if first == '=' {
        operator_step(src, next, LexemeView::Equal, LexemeView::EqualEqual)
    } else if first == '>' {
        operator_step(src, next, LexemeView::Greater, LexemeView::GreaterEqual)
    } else if first == '<' {
        operator_step(src, next, LexemeView::Less, LexemeView::LessEqual)
    } else if first == '/' {
        slash_step(src, next)
    } else if first == '\n' {
        Step { outcome: Ok(LexemeView::NewLine), end: next }
    } else if first == '"' {
        string_step(src, next)
    } else if spec_is_whitespace(first) {
        let end = skip_while(src, next, CharClass::Blank);
        Step { outcome: Ok(LexemeView::Whitespace(seq![first] + src.subrange(next, end))), end }
    } else if spec_is_digit(first) {
        number_step(first, src, next, at)
    } else if spec_is_alpha(first) {
        let end = skip_while(src, next, CharClass::Word);
        Step { outcome: Ok(word_lexeme(seq![first] + src.subrange(next, end))), end }
    } else {
        Step {
            outcome: Err(LexFailure::UnexpectedCharacter { character: first, position: opened }),
            end: next,
        }
    }
}

/// The lexical unit that starts at the offset `pos` of `src`, for a `pos`
/// inside the text; `at` is the coordinate of that offset.
pub open spec fn step(src: Seq<char>, pos: int, at: Point) -> Step {
    lexeme_from(src[pos], src, pos + 1, at, at.after(src[pos]))
}

/// Places the outcome of a lexical unit between two coordinates.
pub open spec fn placed(
    outcome: Result<LexemeView, LexFailure>,
    start: Point,
    end: Point,
) -> Result<TokenView, LexFailure> {
    match outcome {
        Ok(lexeme) => Ok(TokenView { lexeme, start, end }),
        Err(failure) => Err(failure),
    }
}

/// The mathematical model of what one scanning step hands out.
pub open spec fn result_view(r: Result<Token, LexError>) -> Result<TokenView, LexFailure> {
    match r {
        Ok(token) => Ok(token@),
        Err(error) => Err(error@),
    }
}

/// The text of a well-formed number literal: one digit or more, and then
/// perhaps a dot and one digit or more; `dot` is the length of the first run
/// of digits.
pub open spec fn is_number_text_at(text: Seq<char>, dot: int) -> bool {
    &&& 1 <= dot <= text.len()
    &&& forall|j: int| 0 <= j < dot ==> spec_is_digit(#[trigger] text[j])
    &&& dot < text.len() ==> {
        &&& text[dot] == '.'
        &&& dot + 1 < text.len()
        &&& forall|j: int| dot < j < text.len() ==> spec_is_digit(#[trigger] text[j])
    }
}

/// The text of a well-formed number literal.
pub open spec fn is_number_text(text: Seq<char>) -> bool {
    exists|dot: int| is_number_text_at(text, dot)
}

/// The token that reports the end of the input at the coordinate `at`.
pub open spec fn eof_at(at: Point) -> Result<TokenView, LexFailure> {
    Ok(TokenView { lexeme: LexemeView::Eof, start: at, end: at })
}

/// Everything that scanning hands out from the offset `pos` of `src` on,
/// where `at` is the coordinate of that offset: one item for each lexical
/// unit, a token or a failure, and behind them the token that reports the
/// end of the input.
pub open spec fn scan_from(src: Seq<char>, pos: int, at: Point) -> Seq<
    Result<TokenView, LexFailure>,
>
    decreases src.len() - pos,
{
    if pos < 0 || pos >= src.len() {
        seq![eof_at(at)]
    } else {
        let unit = step(src, pos, at);
        let end = at.after_all(src.subrange(pos, unit.end));
        if pos < unit.end <= src.len() {
            seq![placed(unit.outcome, at, end)] + scan_from(src, unit.end, end)
        } else {
            seq![placed(unit.outcome, at, end)]
        }
    }
}

/// Everything that scanning a whole text hands out.
pub open spec fn scan(src: Seq<char>) -> Seq<Result<TokenView, LexFailure>> {
    scan_from(src, 0, Point::origin())
}

/// The offsets at which the items of [`scan_from`] start, one for each item.
pub open spec fn starts_from(src: Seq<char>, pos: int, at: Point) -> Seq<int>
    decreases src.len() - pos,
{
    if pos < 0 || pos >= src.len() {
        seq![pos]
    } else {
        let unit = step(src, pos, at);
        let end = at.after_all(src.subrange(pos, unit.end));
        if pos < unit.end <= src.len() {
            seq![pos] + starts_from(src, unit.end, end)
        } else {
            seq![pos]
        }
    }
}

/// The coordinate of the offset `i` of `src`.
pub open spec fn point_at(src: Seq<char>, i: int) -> Point {
    Point::origin().after_all(src.subrange(0, i))
}

/// The item is the token that reports the end of the input.
pub open spec fn is_eof(item: Result<TokenView, LexFailure>) -> bool {
    item matches Ok(token) && token.lexeme == LexemeView::Eof
}

/// The models of the items that scanning handed out.
pub open spec fn items_view(items: Seq<Result<Token, LexError>>) -> Seq<
    Result<TokenView, LexFailure>,
> {
    items.map_values(|item: Result<Token, LexError>| result_view(item))
}

/// A run ends inside the text, everything in it is of the class, and what
/// follows it is not.
pub proof fn lemma_skip_while(src: Seq<char>, i: int, class: CharClass)
    requires
        0 <= i <= src.len(),
    ensures
        i <= skip_while(src, i, class) <= src.len(),
        forall|j: int| i <= j < skip_while(src, i, class) ==> class.holds(src[j]),
        skip_while(src, i, class) < src.len() ==> !class.holds(src[skip_while(src, i, class)]),
    decreases src.len() - i,
{
    if i < src.len() && class.holds(src[i]) {
        lemma_skip_while(src, i + 1, class);
    }
}

/// A lexical unit ends at or behind the offset at which it goes on, and
/// inside the text.
pub proof fn lemma_lexeme_from_bounds(
    first: char,
    src: Seq<char>,
    next: int,
    opened: Point,
    at: Point,
)
    requires
        0 <= next <= src.len(),
    ensures
        next <= lexeme_from(first, src, next, opened, at).end <= src.len(),
{
    lemma_skip_while(src, next, CharClass::Blank);
    lemma_skip_while(src, next, CharClass::Digit);
    lemma_skip_while(src, next, CharClass::Word);
    lemma_skip_while(src, next, CharClass::NotQuote);
    if next < src.len() {
        lemma_skip_while(src, next + 1, CharClass::NotNewline);
    }
    let dot = skip_while(src, next, CharClass::Digit);
    if dot < src.len() {
        lemma_skip_while(src, dot + 1, CharClass::Digit);
    }
}

/// Every lexical unit takes at least one character and ends inside the text.
pub proof fn lemma_step_advances(src: Seq<char>, pos: int, at: Point)
    requires
        0 <= pos < src.len(),
    ensures
        pos < step(src, pos, at).end <= src.len(),
{
    lemma_lexeme_from_bounds(src[pos], src, pos + 1, at, at.after(src[pos]));
}

/// The text of a number token is a well-formed number literal.
pub proof fn lemma_number_text(first: char, src: Seq<char>, next: int, at: Point)
    requires
        0 <= next <= src.len(),
        spec_is_digit(first),
    ensures
        number_step(first, src, next, at).outcome matches Ok(lexeme) ==> (lexeme matches
            LexemeView::Number(text) && is_number_text(text)),
{
    let dot = skip_while(src, next, CharClass::Digit);
    let end = number_end(src, next);
    let text = seq![first] + src.subrange(next, end);
    lemma_skip_while(src, next, CharClass::Digit);
    if dot < src.len() {
        lemma_skip_while(src, dot + 1, CharClass::Digit);
    }
    if !number_malformed(src, next) {
        assert forall|j: int| 0 <= j < dot - next + 1 implies spec_is_digit(#[trigger] text[j]) by {
            if j > 0 {
                assert(text[j] == src[next + j - 1]);
                assert(CharClass::Digit.holds(src[next + j - 1]));
            }
        }
        if dot < end {
            assert(text[dot - next + 1] == src[dot]);
            assert forall|j: int| dot - next + 1 < j < text.len() implies spec_is_digit(
                #[trigger] text[j],
            ) by {
                assert(text[j] == src[next + j - 1]);
                assert(CharClass::Digit.holds(src[next + j - 1]));
            }
        }
        assert(is_number_text_at(text, dot - next + 1));
    }
}

/// Consuming one more character moves the coordinate by that character.
pub proof fn lemma_after_all_extend(p: Point, src: Seq<char>, from: int, to: int)
    requires
        0 <= from <= to < src.len(),
    ensures
        p.after_all(src.subrange(from, to + 1)) == p.after_all(src.subrange(from, to)).after(
            src[to],
        ),
{
    let longer = src.subrange(from, to + 1);
    assert(longer.drop_last() =~= src.subrange(from, to));
    assert(longer.last() == src[to]);
}

/// Consuming nothing leaves the coordinate where it is.
pub proof fn lemma_after_all_nothing(p: Point, src: Seq<char>, from: int)
    requires
        0 <= from <= src.len(),
    ensures
        p.after_all(src.subrange(from, from)) == p,
{
}

/// Consuming two texts in turn is consuming their concatenation.
pub proof fn lemma_after_all_concat(p: Point, a: Seq<char>, b: Seq<char>)
    ensures
        p.after_all(a + b) == p.after_all(a).after_all(b),
    decreases b.len(),
{
    if b.len() == 0 {
        assert(a + b =~= a);
    } else {
        lemma_after_all_concat(p, a, b.drop_last());
        assert((a + b).drop_last() =~= a + b.drop_last());
        assert((a + b).last() == b.last());
    }
}

/// A text without a line break moves the coordinate to the right by its
/// length.
pub proof fn lemma_after_all_one_line(p: Point, text: Seq<char>)
    requires
        forall|j: int| 0 <= j < text.len() ==> text[j] != '\n',
    ensures
        p.after_all(text) == p.right(text.len()),
    decreases text.len(),
{
    if text.len() > 0 {
        lemma_after_all_one_line(p, text.drop_last());
    }
}

/// The coordinate never moves backwards.
pub proof fn lemma_after_all_monotonic(p: Point, text: Seq<char>)
    ensures
        p.at_or_before(p.after_all(text)),
    decreases text.len(),
{
    if text.len() > 0 {
        lemma_after_all_monotonic(p, text.drop_last());
    }
}

} // verus!
