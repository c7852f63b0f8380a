use vstd::prelude::*;

use crate::span::{Point, Position};

verus! {

/// The ways in which scanning a lexical unit can fail.
#[derive(Clone, Copy, PartialEq, Eq, Debug)]
pub enum LexError {
    /// The input ended inside a string literal, before its closing quote.
    UnterminatedString,
    /// A character that cannot stand where it was found: one that opens no
    /// lexeme, or the dot of a number literal that no digit follows.
    UnexpectedCharacter { character: char, position: Position },
}

/// The mathematical model of a [`LexError`].
pub enum LexFailure {
    UnterminatedString,
    UnexpectedCharacter { character: char, position: Point },
}

impl View for LexError {
    type V = LexFailure;

    open spec fn view(&self) -> LexFailure {
        match *self {
            LexError::UnterminatedString => LexFailure::UnterminatedString,
            LexError::UnexpectedCharacter { character, position } => {
                LexFailure::UnexpectedCharacter { character, position: position@ }
            },
        }
    }
}

} // verus!
