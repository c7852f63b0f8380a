use vstd::prelude::*;

use crate::chars::{
    spec_is_digit, CHAR_BANG, CHAR_COMMA, CHAR_DOT, CHAR_DOUBLE_QUOTE, CHAR_EQUAL, CHAR_GREATER,
    CHAR_LEFT_BRACE, CHAR_LEFT_PAREN, CHAR_LESS, CHAR_MINUS, CHAR_NEWLINE, CHAR_PLUS,
    CHAR_RIGHT_BRACE, CHAR_RIGHT_PAREN, CHAR_SEMICOLON, CHAR_SLASH, CHAR_STAR,
};
use crate::error::{LexError, LexFailure};
use crate::grammar::{
    is_eof, items_view, lemma_after_all_concat, lemma_after_all_extend, lemma_after_all_nothing,
    lemma_after_all_one_line, lemma_skip_while, lemma_step_advances, lexeme_from, line_end,
    number_end, number_malformed, number_step, opens_lexeme, operator_step, placed, result_view,
    scan_from, skip_while, slash_step, step, string_step, CharClass, Step,
};
use crate::keywords::{lexeme_of_word, word_lexeme};
use crate::laws::lemma_scan_ends_with_one_eof;
use crate::lexeme::{Lexeme, LexemeView};
use crate::span::{Column, Point, Position, Span};
use crate::text::chars_of;
use crate::token::{Token, TokenView};

verus! {

/// The scanning engine: a cursor over the characters of a source text, the
/// span that accumulates what has been consumed since the last token, and the
/// mark that the end of the input has been reported.
pub struct Context {
    /// The characters of the source text.
    pub source: Vec<char>,
    /// The offset of the next character to consume.
    pub pos: usize,
    /// The active span.
    pub span: Span,
    /// Whether the end-of-input token was generated.
    pub eof_generated: bool,
}

impl Context {
    /// The number of characters that are still to be consumed.
    pub open spec fn remaining(&self) -> int {
        self.source@.len() - self.pos
    }

    /// The cursor lies inside the text or at its end, the active span is well
    /// formed, and its end can move over all that is left of the text
    /// without leaving the range of the machine's integers.
    pub open spec fn wf(&self) -> bool {
        &&& self.pos <= self.source@.len()
        &&& self.span.wf()
        &&& self.span.end_line.0 + self.remaining() <= usize::MAX
        &&& self.span.end_col.0 + self.remaining() <= usize::MAX
    }

    /// Nothing was consumed since the last token: the active span is empty.
    pub open spec fn armed(&self) -> bool {
        self.span.is_empty()
    }

    /// `self` is what `before` becomes by consuming its characters up to the
    /// offset `to`, all of them recorded in the active span.
    pub open spec fn consumed(&self, before: &Context, to: int) -> bool {
        &&& self.source@ == before.source@
        &&& before.pos <= to <= before.source@.len()
        &&& self.pos == to
        &&& self.eof_generated == before.eof_generated
        &&& self.span.start() == before.span.start()
        &&& self.span.end() == before.span.end().after_all(
            before.source@.subrange(before.pos as int, to),
        )
    }

    /// `self` is what `before` becomes by completing its active span.
    pub open spec fn completed(&self, before: &Context) -> bool {
        &&& self.source@ == before.source@
        &&& self.pos == before.pos
        &&& self.eof_generated == before.eof_generated
        &&& self.span.start() == before.span.end()
        &&& self.span.end() == before.span.end()
    }

    /// `self` is what `before` becomes by consuming its next character.
    pub open spec fn took_one(&self, before: &Context) -> bool {
        &&& before.pos < before.source@.len()
        &&& self.source@ == before.source@
        &&& self.pos == before.pos + 1
        &&& self.eof_generated == before.eof_generated
        &&& self.span.start() == before.span.start()
        &&& self.span.end() == before.span.end().after(before.source@[before.pos as int])
    }

    /// `self` is what `before` becomes by consuming its characters up to the
    /// offset `to` and completing the active span behind them.
    pub open spec fn emitted(&self, before: &Context, to: int) -> bool {
        &&& self.source@ == before.source@
        &&& before.pos <= to <= before.source@.len()
        &&& self.pos == to
        &&& self.eof_generated == before.eof_generated
        &&& self.span.start() == self.span.end()
        &&& self.span.end() == before.span.end().after_all(
            before.source@.subrange(before.pos as int, to),
        )
    }

    /// The token of the given lexeme that covers the active span of `self`
    /// and its characters up to the offset `to`.
    pub open spec fn token_to(&self, lexeme: LexemeView, to: int) -> TokenView {
        TokenView {
            lexeme,
            start: self.span.start(),
            end: self.span.end().after_all(self.source@.subrange(self.pos as int, to)),
        }
    }

    /// `self` is what `before` becomes by scanning the lexical unit `unit`,
    /// and `r` is what that unit hands out: the unit's lexeme over the active
    /// span and the characters consumed, or the unit's failure.
    pub open spec fn yields(
        &self,
        before: &Context,
        unit: Step,
        r: Result<Token, LexError>,
    ) -> bool {
        &&& self.emitted(before, unit.end)
        &&& result_view(r) == placed(unit.outcome, before.span.start(), self.span.end())
    }

    /// What the next call of [`Context::read`] hands out.
    pub open spec fn next_item(&self) -> Option<Result<TokenView, LexFailure>> {
        if self.eof_generated {
            None
        } else if self.pos >= self.source@.len() {
            Some(
                Ok(
                    TokenView {
                        lexeme: LexemeView::Eof,
                        start: self.span.start(),
                        end: self.span.end(),
                    },
                ),
            )
        } else {
            let unit = step(self.source@, self.pos as int, self.span.end());
            Some(
                placed(
                    unit.outcome,
                    self.span.start(),
                    self.span.end().after_all(self.source@.subrange(self.pos as int, unit.end)),
                ),
            )
        }
    }

    /// `after` is the state in which the next call of [`Context::read`]
    /// leaves the engine: unchanged once the end of the input was reported;
    /// marked as done when it is reported; and else behind the next lexical
    /// unit, with an empty active span.
    pub open spec fn next_state(&self, after: &Context) -> bool {
        if self.eof_generated {
            *after == *self
        } else if self.pos >= self.source@.len() {
            &&& after.source@ == self.source@
            &&& after.pos == self.pos
            &&& after.eof_generated
            &&& after.span.start() == self.span.end()
            &&& after.span.end() == self.span.end()
        } else {
            &&& after.emitted(self, step(self.source@, self.pos as int, self.span.end()).end)
        }
    }

    /// A context that has consumed nothing of `text` yet.
    pub open spec fn fresh(&self, text: Seq<char>) -> bool {
        &&& self.source@ == text
        &&& self.pos == 0
        &&& !self.eof_generated
        &&& self.span.start() == Point::origin()
        &&& self.span.end() == Point::origin()
    }

    /// Everything that the engine has yet to hand out.
    pub open spec fn rest(&self) -> Seq<Result<TokenView, LexFailure>> {
        if self.eof_generated {
            Seq::empty()
        } else {
            scan_from(self.source@, self.pos as int, self.span.end())
        }
    }

    /// What the engine has yet to hand out is its next item and then what
    /// the state behind that item has yet to hand out.
    pub proof fn lemma_rest_unfolds(&self, after: &Context)
        requires
            self.wf(),
            self.armed(),
            !self.eof_generated,
            self.next_state(after),
        ensures
            self.next_item() is Some,
            self.rest() == seq![self.next_item()->0] + after.rest(),
    {
        if self.pos < self.source@.len() {
            lemma_step_advances(self.source@, self.pos as int, self.span.end());
        } else {
            assert(self.rest() =~= seq![self.next_item()->0] + after.rest());
        }
    }

    /// Consuming nothing is consuming up to the cursor.
    pub proof fn lemma_consumed_nothing(&self)
        requires
            self.pos <= self.source@.len(),
        ensures
            self.consumed(self, self.pos as int),
    {
        lemma_after_all_nothing(self.span.end(), self.source@, self.pos as int);
    }

    /// Consuming up to an offset and then one character more is consuming up
    /// to the offset behind that character.
    pub proof fn lemma_consumed_one_more(&self, before: &Context, middle: &Context)
        requires
            middle.consumed(before, middle.pos as int),
            self.took_one(middle),
        ensures
            self.consumed(before, self.pos as int),
    {
        lemma_after_all_extend(
            before.span.end(),
            before.source@,
            before.pos as int,
            middle.pos as int,
        );
    }

    /// Consuming up to an offset and from there up to another is consuming up
    /// to the latter.
    pub proof fn lemma_consumed_twice(&self, before: &Context, middle: &Context)
        requires
            middle.consumed(before, middle.pos as int),
            self.consumed(middle, self.pos as int),
        ensures
            self.consumed(before, self.pos as int),
    {
        let src = before.source@;
        let a = src.subrange(before.pos as int, middle.pos as int);
        let b = src.subrange(middle.pos as int, self.pos as int);
        lemma_after_all_concat(before.span.end(), a, b);
        assert(a + b =~= src.subrange(before.pos as int, self.pos as int));
    }

    /// Consuming one character is consuming up to the offset behind it.
    pub proof fn lemma_took_one_consumed(&self, before: &Context)
        requires
            self.took_one(before),
        ensures
            self.consumed(before, before.pos + 1),
    {
        before.lemma_consumed_nothing();
        self.lemma_consumed_one_more(before, before);
    }

    /// A unit that is scanned behind one consumed character covers that
    /// character too.
    pub proof fn lemma_emitted_behind_one(&self, before: &Context, middle: &Context, to: int)
        requires
            middle.took_one(before),
            self.emitted(middle, to),
        ensures
            self.emitted(before, to),
    {
        let src = before.source@;
        middle.lemma_took_one_consumed(before);
        let a = src.subrange(before.pos as int, middle.pos as int);
        let b = src.subrange(middle.pos as int, to);
        lemma_after_all_concat(before.span.end(), a, b);
        assert(a + b =~= src.subrange(before.pos as int, to));
    }

    /// Creates a new context from a source string.
    pub fn new(source: &str) -> (ctx: Self)
        requires
            source@.len() < usize::MAX,
        ensures
            ctx.source@ == source@,
            ctx.pos == 0,
            ctx.span.start() == Point::origin(),
            ctx.span.end() == Point::origin(),
            !ctx.eof_generated,
            ctx.wf(),
            ctx.armed(),
    {
        Self { source: chars_of(source), pos: 0, span: Span::default(), eof_generated: false }
    }

    /// Updates the span once the character is read.
    /// If we have a regular character, only the column is incremented.
    /// If the character is a new line, then we increment the line.
    pub fn update_span(&mut self, c: char)
        requires
            old(self).span.end_col.0 < usize::MAX,
            c == '\n' ==> old(self).span.end_line.0 < usize::MAX,
        ensures
            final(self).span.start() == old(self).span.start(),
            final(self).span.end() == old(self).span.end().after(c),
            old(self).span.wf() ==> final(self).span.wf(),
            final(self).source == old(self).source,
            final(self).pos == old(self).pos,
            final(self).eof_generated == old(self).eof_generated,
    {
        self.span.incr_col();
        if c == CHAR_NEWLINE {
            self.span.incr_line();
        }
    }

    #[inline]
    pub fn is_whitespace(c: char) -> (r: bool)
        ensures
            r == crate::chars::spec_is_whitespace(c),
    {
        crate::chars::is_whitespace(c)
    }

    #[inline]
    pub fn is_digit(c: char) -> (r: bool)
        ensures
            r == crate::chars::spec_is_digit(c),
    {
        crate::chars::is_digit(c)
    }

    #[inline]
    pub fn is_alpha(c: char) -> (r: bool)
        ensures
            r == crate::chars::spec_is_alpha(c),
    {
        crate::chars::is_alpha(c)
    }

    #[inline]
    pub fn is_alphanum(c: char) -> (r: bool)
        ensures
            r == crate::chars::spec_is_alphanum(c),
    {
        crate::chars::is_alphanum(c)
    }

    /// The next character, if there is one; it is not consumed.
    pub fn peek(&self) -> (r: Option<char>)
        requires
            self.pos <= self.source@.len(),
        ensures
            r == (if self.pos < self.source@.len() {
                Some(self.source@[self.pos as int])
            } else {
                None
            }),
    {
        if self.pos < self.source.len() {
            Some(self.source[self.pos])
        } else {
            None
        }
    }

    /// Consumes a character from the source stream.
    pub fn read_char(&mut self) -> (r: Option<char>)
        requires
            old(self).wf(),
        ensures
            final(self).wf(),
            old(self).pos < old(self).source@.len() ==> r == Some(
                old(self).source@[old(self).pos as int],
            ) && final(self).took_one(old(self)),
            old(self).pos >= old(self).source@.len() ==> r.is_none() && *final(self) == *old(self),
    {
        if self.pos < self.source.len() {
            let c = self.source[self.pos];
            self.pos = self.pos + 1;
            self.update_span(c);
            Some(c)
        } else {
            None
        }
    }

    /// Consumes a character only if it is equal with a given char.
    pub fn read_char_if(&mut self, c: char) -> (r: bool)
        requires
            old(self).wf(),
        ensures
            final(self).wf(),
            r == (old(self).pos < old(self).source@.len() && old(self).source@[old(
                self,
            ).pos as int] == c),
            r ==> final(self).took_one(old(self)),
            !r ==> *final(self) == *old(self),
    {
        if let Some(c1) = self.peek() {
            if c == c1 {
                let _ = self.read_char();
                true
            } else {
                false
            }
        } else {
            false
        }
    }

    /// Consumes the longest run of characters of the given class and appends
    /// them to `buffer`.
    pub fn read_run(&mut self, class: CharClass, buffer: &mut String)
        requires
            old(self).wf(),
        ensures
            final(self).wf(),
            final(self).consumed(
                old(self),
                skip_while(old(self).source@, old(self).pos as int, class),
            ),
            final(buffer)@ == old(buffer)@ + old(self).source@.subrange(
                old(self).pos as int,
                final(self).pos as int,
            ),
    {
        let ghost first = *self;
        let ghost src = self.source@;
        let ghost taken = buffer@;
        proof {
            self.lemma_consumed_nothing();
            assert(buffer@ =~= taken + src.subrange(first.pos as int, self.pos as int));
        }
        loop
            invariant
                self.wf(),
                src == first.source@,
                self.consumed(&first, self.pos as int),
                buffer@ == taken + src.subrange(first.pos as int, self.pos as int),
                skip_while(src, first.pos as int, class) == skip_while(src, self.pos as int, class),
            ensures
                self.wf(),
                self.consumed(&first, self.pos as int),
                buffer@ == taken + src.subrange(first.pos as int, self.pos as int),
                skip_while(src, first.pos as int, class) == self.pos,
            decreases self.remaining(),
        {
            match self.peek() {
                Some(c) => {
                    if class.test(c) {
                        let ghost middle = *self;
                        buffer.push(c);
                        let _ = self.read_char();
                        proof {
                            self.lemma_consumed_one_more(&first, &middle);
                            assert(buffer@ =~= taken + src.subrange(
                                first.pos as int,
                                self.pos as int,
                            ));
                        }
                    } else {
                        break;
                    }
                },
                None => {
                    break;
                },
            }
        }
    }

    /// Read until the end of the line
    pub fn read_line(&mut self) -> (line: String)
        requires
            old(self).wf(),
        ensures
            final(self).wf(),
            final(self).consumed(old(self), line_end(old(self).source@, old(self).pos as int)),
            line@ == old(self).source@.subrange(old(self).pos as int, final(self).pos as int),
    {
        let mut buffer = String::new();
        self.read_run(CharClass::NotNewline, &mut buffer);
        let ghost middle = *self;
        proof {
            lemma_skip_while(old(self).source@, old(self).pos as int, CharClass::NotNewline);
        }
        if self.read_char_if(CHAR_NEWLINE) {
            buffer.push(CHAR_NEWLINE);
            proof {
                self.lemma_consumed_one_more(old(self), &middle);
                assert(buffer@ =~= old(self).source@.subrange(
                    old(self).pos as int,
                    self.pos as int,
                ));
            }
        }
        buffer
    }

    /// Reads the sequence of whitespaces.
    pub fn read_ws(&mut self, first_ws: char) -> (ws: String)
        requires
            old(self).wf(),
        ensures
            final(self).wf(),
            final(self).consumed(
                old(self),
                skip_while(old(self).source@, old(self).pos as int, CharClass::Blank),
            ),
            ws@ == seq![first_ws] + old(self).source@.subrange(
                old(self).pos as int,
                final(self).pos as int,
            ),
    {
        let mut buffer = String::new();
        buffer.push(first_ws);
        proof {
            assert(buffer@ =~= seq![first_ws]);
        }
        self.read_run(CharClass::Blank, &mut buffer);
        buffer
    }

    /// Reads a string separated by the quotes: its contents, or nothing if the
    /// text ends before the closing quote.
    pub fn read_string(&mut self) -> (r: Option<String>)
        requires
            old(self).wf(),
        ensures
            final(self).wf(),
            final(self).consumed(
                old(self),
                string_step(old(self).source@, old(self).pos as int).end,
            ),
            match r {
                Some(contents) => string_step(old(self).source@, old(self).pos as int).outcome
                    == Ok::<LexemeView, LexFailure>(LexemeView::String(contents@)),
                None => string_step(old(self).source@, old(self).pos as int).outcome is Err,
            },
    {
        let mut buffer = String::new();
        self.read_run(CharClass::NotQuote, &mut buffer);
        let ghost middle = *self;
        proof {
            lemma_skip_while(old(self).source@, old(self).pos as int, CharClass::NotQuote);
        }
        if self.read_char_if(CHAR_DOUBLE_QUOTE) {
            proof {
                self.lemma_consumed_one_more(old(self), &middle);
                assert(buffer@ =~= old(self).source@.subrange(
                    old(self).pos as int,
                    middle.pos as int,
                ));
            }
            Some(buffer)
        } else {
            None
        }
    }

    /// Reads a number, of which `first_digit` was consumed already: its
    /// decimal text, or nothing if it ends in a dot that no digit follows.
    pub fn read_number(&mut self, first_digit: char) -> (r: Option<String>)
        requires
            old(self).wf(),
        ensures
            final(self).wf(),
            final(self).consumed(old(self), number_end(old(self).source@, old(self).pos as int)),
            match r {
                Some(text) => !number_malformed(old(self).source@, old(self).pos as int) && text@
                    == seq![first_digit] + old(self).source@.subrange(
                    old(self).pos as int,
                    final(self).pos as int,
                ),
                None => number_malformed(old(self).source@, old(self).pos as int),
            },
    {
        let ghost src = self.source@;
        let mut buffer = String::new();
        buffer.push(first_digit);
        proof {
            assert(buffer@ =~= seq![first_digit]);
        }
        // Read leading digits
        self.read_run(CharClass::Digit, &mut buffer);
        let ghost at_dot = *self;
        proof {
            lemma_skip_while(src, old(self).pos as int, CharClass::Digit);
        }
        // Try reading "." and the rest of the digits
        if self.read_char_if(CHAR_DOT) {
            buffer.push(CHAR_DOT);
            let ghost behind_dot = *self;
            let fraction_start = self.pos;
            proof {
                self.lemma_consumed_one_more(old(self), &at_dot);
                lemma_skip_while(src, behind_dot.pos as int, CharClass::Digit);
            }
            self.read_run(CharClass::Digit, &mut buffer);
            proof {
                self.lemma_consumed_twice(old(self), &behind_dot);
                assert(buffer@ =~= seq![first_digit] + src.subrange(
                    old(self).pos as int,
                    self.pos as int,
                ));
            }
            // A number literal has no trailing dot: without a digit behind
            // the dot this is no number, and the dot is already consumed.
            if self.pos == fraction_start {
                return None;
            }
        }
        Some(buffer)
    }

    /// Reads an identifier
    pub fn read_identifier(&mut self, first_alpha: char) -> (word: String)
        requires
            old(self).wf(),
        ensures
            final(self).wf(),
            final(self).consumed(
                old(self),
                skip_while(old(self).source@, old(self).pos as int, CharClass::Word),
            ),
            word@ == seq![first_alpha] + old(self).source@.subrange(
                old(self).pos as int,
                final(self).pos as int,
            ),
    {
        let mut buffer = String::new();
        buffer.push(first_alpha);
        proof {
            assert(buffer@ =~= seq![first_alpha]);
        }
        self.read_run(CharClass::Word, &mut buffer);
        buffer
    }

    /// Creates a 'left parenthesis' token.
    pub fn mk_left_parenthesis(&mut self) -> (r: Option<Token>)
        requires
            !old(self).eof_generated,
            old(self).span.spec_is_n_chars(1),
        ensures
            final(self).completed(old(self)),
            old(self).wf() ==> final(self).wf(),
            r == Some((Token { lexeme: Lexeme::LeftParen, span: old(self).span })),
    {
        let s = self.span.complete();
        let t = Token::new_left_paren(s);

        Some(t)
    }

    /// Creates a 'right parenthesis' token.
    pub fn mk_right_parenthesis(&mut self) -> (r: Option<Token>)
        requires
            !old(self).eof_generated,
            old(self).span.spec_is_n_chars(1),
        ensures
            final(self).completed(old(self)),
            old(self).wf() ==> final(self).wf(),
            r == Some((Token { lexeme: Lexeme::RightParen, span: old(self).span })),
    {
        let s = self.span.complete();
        let t = Token::new_right_paren(s);

        Some(t)
    }

    /// Creates a 'left brace' token.
    pub fn mk_left_brace(&mut self) -> (r: Option<Token>)
        requires
            !old(self).eof_generated,
            old(self).span.spec_is_n_chars(1),
        ensures
            final(self).completed(old(self)),
            old(self).wf() ==> final(self).wf(),
            r == Some((Token { lexeme: Lexeme::LeftBrace, span: old(self).span })),
    {
        let s = self.span.complete();
        let t = Token::new_left_brace(s);

        Some(t)
    }

    /// Creates a 'right brace' token.
    pub fn mk_right_brace(&mut self) -> (r: Option<Token>)
        requires
            !old(self).eof_generated,
            old(self).span.spec_is_n_chars(1),
        ensures
            final(self).completed(old(self)),
            old(self).wf() ==> final(self).wf(),
            r == Some((Token { lexeme: Lexeme::RightBrace, span: old(self).span })),
    {
        let s = self.span.complete();
        let t = Token::new_right_brace(s);

        Some(t)
    }

    /// Creates a 'comma' token.
    pub fn mk_comma(&mut self) -> (r: Option<Token>)
        requires
            !old(self).eof_generated,
            old(self).span.spec_is_n_chars(1),
        ensures
            final(self).completed(old(self)),
            old(self).wf() ==> final(self).wf(),
            r == Some((Token { lexeme: Lexeme::Comma, span: old(self).span })),
    {
        let s = self.span.complete();
        let t = Token::new_comma(s);

        Some(t)
    }

    /// Creates a 'dot' token.
    pub fn mk_dot(&mut self) -> (r: Option<Token>)
        requires
            !old(self).eof_generated,
            old(self).span.spec_is_n_chars(1),
        ensures
            final(self).completed(old(self)),
            old(self).wf() ==> final(self).wf(),
            r == Some((Token { lexeme: Lexeme::Dot, span: old(self).span })),
    {
        let s = self.span.complete();
        let t = Token::new_dot(s);

        Some(t)
    }

    /// Creates a 'plus' token.
    pub fn mk_plus(&mut self) -> (r: Option<Token>)
        requires
            !old(self).eof_generated,
            old(self).span.spec_is_n_chars(1),
        ensures
            final(self).completed(old(self)),
            old(self).wf() ==> final(self).wf(),
            r == Some((Token { lexeme: Lexeme::Plus, span: old(self).span })),
    {
        let s = self.span.complete();
        let t = Token::new_plus(s);

        Some(t)
    }

    /// Creates a 'minus' token.
    pub fn mk_minus(&mut self) -> (r: Option<Token>)
        requires
            !old(self).eof_generated,
            old(self).span.spec_is_n_chars(1),
        ensures
            final(self).completed(old(self)),
            old(self).wf() ==> final(self).wf(),
            r == Some((Token { lexeme: Lexeme::Minus, span: old(self).span })),
    {
        let s = self.span.complete();
        let t = Token::new_minus(s);

        Some(t)
    }

    /// Creates a 'semicolon' token.
    pub fn mk_semicolon(&mut self) -> (r: Option<Token>)
        requires
            !old(self).eof_generated,
            old(self).span.spec_is_n_chars(1),
        ensures
            final(self).completed(old(self)),
            old(self).wf() ==> final(self).wf(),
            r == Some((Token { lexeme: Lexeme::Semicolon, span: old(self).span })),
    {
        let s = self.span.complete();
        let t = Token::new_semicolon(s);

        Some(t)
    }

    /// Creates a 'star' token.
    pub fn mk_star(&mut self) -> (r: Option<Token>)
        requires
            !old(self).eof_generated,
            old(self).span.spec_is_n_chars(1),
        ensures
            final(self).completed(old(self)),
            old(self).wf() ==> final(self).wf(),
            r == Some((Token { lexeme: Lexeme::Star, span: old(self).span })),
    {
        let s = self.span.complete();
        let t = Token::new_star(s);

        Some(t)
    }

    /// Creates a 'bang' or 'bang-equal' token.
    pub fn mk_bang_or_bang_equal(&mut self) -> (r: Option<Token>)
        requires
            old(self).wf(),
            !old(self).eof_generated,
            old(self).span.spec_is_n_chars(1),
        ensures
            final(self).wf(),
            r matches Some(t) && final(self).yields(
                old(self),
                operator_step(
                    old(self).source@,
                    old(self).pos as int,
                    LexemeView::Bang,
                    LexemeView::BangEqual,
                ),
                Ok(t),
            ),
    {
        proof {
            self.lemma_consumed_nothing();
        }
        if self.read_char_if(CHAR_EQUAL) {
            proof {
                self.lemma_took_one_consumed(old(self));
            }
            self.mk_bang_equal()
        } else {
            self.mk_bang()
        }
    }

    /// Creates a 'bang' token.
    pub fn mk_bang(&mut self) -> (r: Option<Token>)
        requires
            !old(self).eof_generated,
            old(self).span.spec_is_n_chars(1),
        ensures
            final(self).completed(old(self)),
            old(self).wf() ==> final(self).wf(),
            r == Some((Token { lexeme: Lexeme::Bang, span: old(self).span })),
    {
        let s = self.span.complete();
        let t = Token::new_bang(s);

        Some(t)
    }

    /// Creates a 'bang-equal' token.
    pub fn mk_bang_equal(&mut self) -> (r: Option<Token>)
        requires
            !old(self).eof_generated,
            old(self).span.spec_is_n_chars(2),
        ensures
            final(self).completed(old(self)),
            old(self).wf() ==> final(self).wf(),
            r == Some((Token { lexeme: Lexeme::BangEqual, span: old(self).span })),
    {
        let s = self.span.complete();
        let t = Token::new_bang_equal(s);

        Some(t)
    }

    /// Creates a 'equal' or 'equal-equal' token.
    pub fn mk_equal_or_equal_equal(&mut self) -> (r: Option<Token>)
        requires
            old(self).wf(),
            !old(self).eof_generated,
            old(self).span.spec_is_n_chars(1),
        ensures
            final(self).wf(),
            r matches Some(t) && final(self).yields(
                old(self),
                operator_step(
                    old(self).source@,
                    old(self).pos as int,
                    LexemeView::Equal,
                    LexemeView::EqualEqual,
                ),
                Ok(t),
            ),
    {
        proof {
            self.lemma_consumed_nothing();
        }
        if self.read_char_if(CHAR_EQUAL) {
            proof {
                self.lemma_took_one_consumed(old(self));
            }
            self.mk_equal_equal()
        } else {
            self.mk_equal()
        }
    }

    /// Creates a 'equal' token.
    pub fn mk_equal(&mut self) -> (r: Option<Token>)
        requires
            !old(self).eof_generated,
            old(self).span.spec_is_n_chars(1),
        ensures
            final(self).completed(old(self)),
            old(self).wf() ==> final(self).wf(),
            r == Some((Token { lexeme: Lexeme::Equal, span: old(self).span })),
    {
        let s = self.span.complete();
        let t = Token::new_equal(s);

        Some(t)
    }

    /// Creates a 'equal-equal' token.
    pub fn mk_equal_equal(&mut self) -> (r: Option<Token>)
        requires
            !old(self).eof_generated,
            old(self).span.spec_is_n_chars(2),
        ensures
            final(self).completed(old(self)),
            old(self).wf() ==> final(self).wf(),
            r == Some((Token { lexeme: Lexeme::EqualEqual, span: old(self).span })),
    {
        let s = self.span.complete();
        let t = Token::new_equal_equal(s);

        Some(t)
    }

    /// Creates a 'greater' or 'greater-equal' token.
    pub fn mk_greater_or_greater_equal(&mut self) -> (r: Option<Token>)
        requires
            old(self).wf(),
            !old(self).eof_generated,
            old(self).span.spec_is_n_chars(1),
        ensures
            final(self).wf(),
            r matches Some(t) && final(self).yields(
                old(self),
                operator_step(
                    old(self).source@,
                    old(self).pos as int,
                    LexemeView::Greater,
                    LexemeView::GreaterEqual,
                ),
                Ok(t),
            ),
    {
        proof {
            self.lemma_consumed_nothing();
        }
        if self.read_char_if(CHAR_EQUAL) {
            proof {
                self.lemma_took_one_consumed(old(self));
            }
            self.mk_greater_equal()
        } else {
            self.mk_greater()
        }
    }

    /// Creates a 'greater' token.
    pub fn mk_greater(&mut self) -> (r: Option<Token>)
        requires
            !old(self).eof_generated,
            old(self).span.spec_is_n_chars(1),
        ensures
            final(self).completed(old(self)),
            old(self).wf() ==> final(self).wf(),
            r == Some((Token { lexeme: Lexeme::Greater, span: old(self).span })),
    {
        let s = self.span.complete();
        let t = Token::new_greater(s);

        Some(t)
    }

    /// Creates a 'greater-equal' token.
    pub fn mk_greater_equal(&mut self) -> (r: Option<Token>)
        requires
            !old(self).eof_generated,
            old(self).span.spec_is_n_chars(2),
        ensures
            final(self).completed(old(self)),
            old(self).wf() ==> final(self).wf(),
            r == Some((Token { lexeme: Lexeme::GreaterEqual, span: old(self).span })),
    {
        let s = self.span.complete();
        let t = Token::new_greater_equal(s);

        Some(t)
    }

    /// Creates a 'less' or 'less-equal' token.
    pub fn mk_less_or_less_equal(&mut self) -> (r: Option<Token>)
        requires
            old(self).wf(),
            !old(self).eof_generated,
            old(self).span.spec_is_n_chars(1),
        ensures
            final(self).wf(),
            r matches Some(t) && final(self).yields(
                old(self),
                operator_step(
                    old(self).source@,
                    old(self).pos as int,
                    LexemeView::Less,
                    LexemeView::LessEqual,
                ),
                Ok(t),
            ),
    {
        proof {
            self.lemma_consumed_nothing();
        }
        if self.read_char_if(CHAR_EQUAL) {
            proof {
                self.lemma_took_one_consumed(old(self));
            }
            self.mk_less_equal()
        } else {
            self.mk_less()
        }
    }

    /// Creates a 'less' token.
    pub fn mk_less(&mut self) -> (r: Option<Token>)
        requires
            !old(self).eof_generated,
            old(self).span.spec_is_n_chars(1),
        ensures
            final(self).completed(old(self)),
            old(self).wf() ==> final(self).wf(),
            r == Some((Token { lexeme: Lexeme::Less, span: old(self).span })),
    {
        let s = self.span.complete();
        let t = Token::new_less(s);

        Some(t)
    }

    /// Creates a 'less-equal' token.
    pub fn mk_less_equal(&mut self) -> (r: Option<Token>)
        requires
            !old(self).eof_generated,
            old(self).span.spec_is_n_chars(2),
        ensures
            final(self).completed(old(self)),
            old(self).wf() ==> final(self).wf(),
            r == Some((Token { lexeme: Lexeme::LessEqual, span: old(self).span })),
    {
        let s = self.span.complete();
        let t = Token::new_less_equal(s);

        Some(t)
    }

    /// Creates a 'slash' or 'comment' token.
    pub fn mk_slash_or_comment(&mut self) -> (r: Option<Token>)
        requires
            old(self).wf(),
            !old(self).eof_generated,
            old(self).span.spec_is_n_chars(1),
        ensures
            final(self).wf(),
            r matches Some(t) && final(self).yields(
                old(self),
                slash_step(old(self).source@, old(self).pos as int),
                Ok(t),
            ),
    {
        proof {
            self.lemma_consumed_nothing();
        }
        if self.read_char_if(CHAR_SLASH) {
            let ghost middle = *self;
            let r = self.mk_comment();
            proof {
                self.lemma_emitted_behind_one(
                    old(self),
                    &middle,
                    line_end(old(self).source@, old(self).pos + 1),
                );
            }
            r
        } else {
            self.mk_slash()
        }
    }

    /// Creates a 'slash' token.
    pub fn mk_slash(&mut self) -> (r: Option<Token>)
        requires
            !old(self).eof_generated,
            old(self).span.spec_is_n_chars(1),
        ensures
            final(self).completed(old(self)),
            old(self).wf() ==> final(self).wf(),
            r == Some((Token { lexeme: Lexeme::Slash, span: old(self).span })),
    {
        let s = self.span.complete();
        let t = Token::new_slash(s);

        Some(t)
    }

    /// Creates a 'comment' token from the rest of the line.
    pub fn mk_comment(&mut self) -> (r: Option<Token>)
        requires
            old(self).wf(),
            !old(self).eof_generated,
            old(self).span.spec_is_n_chars(2),
        ensures
            final(self).wf(),
            final(self).emitted(old(self), line_end(old(self).source@, old(self).pos as int)),
            r matches Some(t) && t@ == old(self).token_to(
                LexemeView::Comment(
                    old(self).source@.subrange(old(self).pos as int, final(self).pos as int),
                ),
                final(self).pos as int,
            ),
    {
        let comment = self.read_line();

        let s = self.span.complete();
        let t = Token::new_comment(comment.as_str(), s);

        Some(t)
    }

    /// Creates a 'newline' token.
    pub fn mk_newline(&mut self) -> (r: Option<Token>)
        requires
            !old(self).eof_generated,
            !old(self).span.spec_is_one_line(),
        ensures
            final(self).completed(old(self)),
            old(self).wf() ==> final(self).wf(),
            r == Some((Token { lexeme: Lexeme::NewLine, span: old(self).span })),
    {
        let s = self.span.complete();
        let t = Token::new_newline(s);

        Some(t)
    }

    /// Creates a 'whitespace' token
    pub fn mk_whitespace(&mut self, first_char: char) -> (r: Option<Token>)
        requires
            old(self).wf(),
            !old(self).eof_generated,
            old(self).span.spec_is_n_chars(1),
        ensures
            final(self).wf(),
            final(self).emitted(
                old(self),
                skip_while(old(self).source@, old(self).pos as int, CharClass::Blank),
            ),
            r matches Some(t) && t@ == old(self).token_to(
                LexemeView::Whitespace(
                    seq![first_char] + old(self).source@.subrange(
                        old(self).pos as int,
                        final(self).pos as int,
                    ),
                ),
                final(self).pos as int,
            ),
    {
        let ws = self.read_ws(first_char);

        let s = self.span.complete();
        let t = Token::new_whitespace(ws.as_str(), s);

        Some(t)
    }

    /// Creates a 'string' token, or fails where the text ends inside the
    /// literal.
    pub fn mk_string(&mut self) -> (r: Result<Token, LexError>)
        requires
            old(self).wf(),
            !old(self).eof_generated,
            old(self).span.spec_is_n_chars(1),
        ensures
            final(self).wf(),
            final(self).yields(old(self), string_step(old(self).source@, old(self).pos as int), r),
    {
        match self.read_string() {
            Some(string) => {
                let s = self.span.complete();
                let t = Token::new_string(string.as_str(), s);

                Ok(t)
            },
            None => {
                let _ = self.span.complete();

                Err(LexError::UnterminatedString)
            },
        }
    }

    /// Creates a 'number' token, or fails at a dot that no digit follows.
    pub fn mk_number(&mut self, first_digit: char) -> (r: Result<Token, LexError>)
        requires
            old(self).wf(),
            !old(self).eof_generated,
            old(self).span.spec_is_n_chars(1),
            spec_is_digit(first_digit),
        ensures
            final(self).wf(),
            final(self).yields(
                old(self),
                number_step(
                    first_digit,
                    old(self).source@,
                    old(self).pos as int,
                    old(self).span.end(),
                ),
                r,
            ),
    {
        let ghost src = self.source@;
        let ghost from = self.pos as int;
        match self.read_number(first_digit) {
            Some(number) => {
                let s = self.span.complete();
                let t = Token::new_number(number.as_str(), s);

                Ok(t)
            },
            None => {
                proof {
                    let dot = skip_while(src, from, CharClass::Digit);
                    lemma_skip_while(src, from, CharClass::Digit);
                    let taken = src.subrange(from, dot + 1);
                    assert forall|j: int| 0 <= j < taken.len() implies #[trigger] taken[j]
                        != '\n' by {
                        assert(taken[j] == src[from + j]);
                        if from + j < dot {
                            assert(CharClass::Digit.holds(src[from + j]));
                        }
                    }
                    lemma_after_all_one_line(old(self).span.end(), src.subrange(from, dot + 1));
                }
                let position = Position {
                    line: self.span.end_line,
                    column: Column(self.span.end_col.0 - 1),
                };
                let _ = self.span.complete();

                Err(LexError::UnexpectedCharacter { character: CHAR_DOT, position })
            },
        }
    }

    /// Creates a 'identifier' token, or the token of the keyword that the
    /// word spells.
    pub fn mk_identifier_or_keyword(&mut self, first_char: char) -> (r: Option<Token>)
        requires
            old(self).wf(),
            !old(self).eof_generated,
            old(self).span.spec_is_n_chars(1),
        ensures
            final(self).wf(),
            final(self).emitted(
                old(self),
                skip_while(old(self).source@, old(self).pos as int, CharClass::Word),
            ),
            r matches Some(t) && t@ == old(self).token_to(
                word_lexeme(
                    seq![first_char] + old(self).source@.subrange(
                        old(self).pos as int,
                        final(self).pos as int,
                    ),
                ),
                final(self).pos as int,
            ),
    {
        let i = self.read_identifier(first_char);

        let s = self.span.complete();

        let token = Token::new(lexeme_of_word(i), s);

        Some(token)
    }

    /// Creates a new 'eof' token while updating the context
    pub fn mk_eof_token(&mut self) -> (r: Option<Token>)
        requires
            !old(self).eof_generated,
        ensures
            final(self).eof_generated,
            final(self).source == old(self).source,
            final(self).pos == old(self).pos,
            final(self).span.start() == old(self).span.end(),
            final(self).span.end() == old(self).span.end(),
            old(self).wf() ==> final(self).wf(),
            r == Some((Token { lexeme: Lexeme::Eof, span: old(self).span })),
    {
        self.eof_generated = true;  // mark that we reached the end of stream
        let s = self.span.complete();  // complete the span
        let t = Token::new_eof(s);  // create a new token

        Some(t)
    }

    /// Reads a token which starts with a given character, which was consumed
    /// already; fails where that character opens no lexeme.
    pub fn read_token_with_char(&mut self, c: char) -> (r: Result<Token, LexError>)
        requires
            old(self).wf(),
            !old(self).eof_generated,
            c == '\n' ==> !old(self).span.spec_is_one_line(),
            c != '\n' && opens_lexeme(c) ==> old(self).span.spec_is_n_chars(1),
        ensures
            final(self).wf(),
            final(self).yields(
                old(self),
                lexeme_from(
                    c,
                    old(self).source@,
                    old(self).pos as int,
                    old(self).span.start(),
                    old(self).span.end(),
                ),
                r,
            ),
    {
        proof {
            self.lemma_consumed_nothing();
        }
        if c == CHAR_LEFT_PAREN {
            Ok(self.mk_left_parenthesis().unwrap())
        } else if c == CHAR_RIGHT_PAREN {
            Ok(self.mk_right_parenthesis().unwrap())
        } else if c == CHAR_LEFT_BRACE {
            Ok(self.mk_left_brace().unwrap())
        } else if c == CHAR_RIGHT_BRACE {
            Ok(self.mk_right_brace().unwrap())
        } else if c == CHAR_COMMA {
            Ok(self.mk_comma().unwrap())
        } else if c == CHAR_DOT {
            Ok(self.mk_dot().unwrap())
        } else if c == CHAR_PLUS {
            Ok(self.mk_plus().unwrap())
        } else if c == CHAR_MINUS {
            Ok(self.mk_minus().unwrap())
        } else if c == CHAR_SEMICOLON {
            Ok(self.mk_semicolon().unwrap())
        } else if c == CHAR_STAR {
            Ok(self.mk_star().unwrap())
        } else if c == CHAR_BANG {
            Ok(self.mk_bang_or_bang_equal().unwrap())
        } else if c == CHAR_EQUAL {
            Ok(self.mk_equal_or_equal_equal().unwrap())
        } else if c == CHAR_GREATER {
            Ok(self.mk_greater_or_greater_equal().unwrap())
        } else if c == CHAR_LESS {
            Ok(self.mk_less_or_less_equal().unwrap())
        } else if c == CHAR_SLASH {
            Ok(self.mk_slash_or_comment().unwrap())
        } else if c == CHAR_NEWLINE {
            Ok(self.mk_newline().unwrap())
        } else if c == CHAR_DOUBLE_QUOTE {
            self.mk_string()
        } else if Context::is_whitespace(c) {
            Ok(self.mk_whitespace(c).unwrap())
        } else if Context::is_digit(c) {
            self.mk_number(c)
        } else if Context::is_alpha(c) {
            Ok(self.mk_identifier_or_keyword(c).unwrap())
        } else {
            let position = Position { line: self.span.start_line, column: self.span.start_col };
            let _ = self.span.complete();

            Err(LexError::UnexpectedCharacter { character: c, position })
        }
    }

    /// Reads a new token from the source. The source is wrapped into a
    /// context, which also can provide the span of the token. Hands out
    /// nothing once the end of the input was reported.
    pub fn read(&mut self) -> (r: Option<Result<Token, LexError>>)
        requires
            old(self).wf(),
            old(self).armed(),
        ensures
            final(self).wf(),
            final(self).armed(),
            old(self).next_state(final(self)),
            match r {
                Some(item) => old(self).next_item() == Some(result_view(item)),
                None => old(self).next_item().is_none(),
            },
    {
        if self.eof_generated {
            None
        } else if let Some(c) = self.read_char() {
            let ghost middle = *self;
            let r = self.read_token_with_char(c);
            proof {
                self.lemma_emitted_behind_one(
                    old(self),
                    &middle,
                    step(old(self).source@, old(self).pos as int, old(self).span.end()).end,
                );
            }
            Some(r)
        } else {
            Some(Ok(self.mk_eof_token().unwrap()))
        }
    }
}

/// The public face of the scanning engine: hands out the tokens of a source
/// text one by one, then the token that reports the end of the input, and
/// then nothing.
pub struct Lexer {
    ctx: Context,
}

impl Lexer {
    /// The state of the scanning engine.
    pub closed spec fn context(&self) -> Context {
        self.ctx
    }

    /// The engine is well formed and stands between two lexical units.
    pub open spec fn wf(&self) -> bool {
        self.context().wf() && self.context().armed()
    }

    /// Creates a lexer over a source text.
    pub fn with_source(source: &str) -> (lexer: Self)
        requires
            source@.len() < usize::MAX,
        ensures
            lexer.context().fresh(source@),
            lexer.wf(),
    {
        Lexer { ctx: Context::new(source) }
    }

    /// Produces the next item: a token, or the failure of a lexical unit
    /// that is no token; at the end of the input the token that reports it,
    /// once; and nothing from then on.
    pub fn next_token(&mut self) -> (r: Option<Result<Token, LexError>>)
        requires
            old(self).wf(),
        ensures
            final(self).wf(),
            old(self).context().next_state(&final(self).context()),
            match r {
                Some(item) => old(self).context().next_item() == Some(result_view(item)),
                None => old(self).context().next_item().is_none(),
            },
    {
        self.ctx.read()
    }

    /// Produces all the items that are left, in order. The last of them is
    /// the token that reports the end of the input, unless it was handed out
    /// before.
    pub fn tokens(&mut self) -> (items: Vec<Result<Token, LexError>>)
        requires
            old(self).wf(),
        ensures
            final(self).wf(),
            items_view(items@) == old(self).context().rest(),
            final(self).context().eof_generated,
            final(self).context().source@ == old(self).context().source@,
            items@.len() <= old(self).context().remaining() + 1,
            old(self).context().eof_generated ==> items@.len() == 0,
            !old(self).context().eof_generated ==> items@.len() > 0 && is_eof(
                result_view(items@.last()),
            ),
            forall|k: int| 0 <= k < items@.len() - 1 ==> !is_eof(result_view(#[trigger] items@[k])),
    {
        let ghost first = self.ctx;
        let mut items: Vec<Result<Token, LexError>> = Vec::new();
        proof {
            assert(items_view(items@) + self.ctx.rest() =~= first.rest());
        }
        loop
            invariant
                self.ctx.wf(),
                self.ctx.armed(),
                self.ctx.source@ == first.source@,
                items_view(items@) + self.ctx.rest() == first.rest(),
            ensures
                self.ctx.wf(),
                self.ctx.armed(),
                self.ctx.eof_generated,
                self.ctx.source@ == first.source@,
                items_view(items@) == first.rest(),
            decreases
                    self.ctx.remaining() + (if self.ctx.eof_generated {
                        0int
                    } else {
                        1int
                    }),
        {
            let ghost before = self.ctx;
            let ghost seen = items@;
            match self.ctx.read() {
                Some(item) => {
                    items.push(item);
                    proof {
                        before.lemma_rest_unfolds(&self.ctx);
                        if before.pos < before.source@.len() {
                            lemma_step_advances(
                                before.source@,
                                before.pos as int,
                                before.span.end(),
                            );
                        }
                        assert(items_view(items@) =~= items_view(seen).push(result_view(item)));
                        assert(items_view(items@) + self.ctx.rest() =~= items_view(seen)
                            + before.rest());
                    }
                },
                None => {
                    proof {
                        assert(items_view(items@) + self.ctx.rest() =~= items_view(items@));
                    }
                    break;
                },
            }
        }
        proof {
            if !first.eof_generated {
                lemma_scan_ends_with_one_eof(first.source@, first.pos as int, first.span.end());
                assert(items_view(items@).last() == result_view(items@.last()));
                assert forall|k: int| 0 <= k < items@.len() - 1 implies !is_eof(
                    result_view(#[trigger] items@[k]),
                ) by {
                    assert(items_view(items@)[k] == result_view(items@[k]));
                }
            }
        }
        items
    }
}

} // verus!
