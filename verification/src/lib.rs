//! A lexer for the Lox scripting language.
//!
//! The scanning engine walks a character buffer with one character of
//! lookahead, classifies runs of characters into lexemes and records the
//! line/column extent of every token it produces.

pub mod chars;
pub mod error;
pub mod grammar;
pub mod keywords;
pub mod laws;
pub mod lexeme;
pub mod lexer;
pub mod span;
pub mod text;
pub mod token;

pub use crate::error::{LexError, LexFailure};
pub use crate::lexeme::{Lexeme, LexemeView};
pub use crate::lexer::{Context, Lexer};
pub use crate::span::{Column, Line, Point, Position, Span};
pub use crate::token::{Token, TokenView};
