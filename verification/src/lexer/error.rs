//! What the lexer reports when the source text cannot be scanned.

use crate::text::{diagnostic, format_diagnostic};
use crate::token::TokenPosition;
use vstd::prelude::*;

verus! {

/// Why scanning stopped.
#[derive(Debug, Clone, Copy, PartialEq, Eq, Structural)]
pub enum LexerErrorMessage {
    UnexpectedCharacter,
    UnterminatedString,
    NumberParseError,
}

/// A lexer error: the reason, the text scanned so far, and the position.
#[derive(Debug, PartialEq)]
pub struct LexerError {
    pub message: LexerErrorMessage,
    pub lexeme: String,
    pub position: TokenPosition,
}

/// The sentence that stands for each reason.
pub open spec fn lexer_message_text(message: LexerErrorMessage) -> Seq<char> {
    match message {
        LexerErrorMessage::UnexpectedCharacter => "Unexpected character."@,
        LexerErrorMessage::UnterminatedString => "Unterminated string."@,
        LexerErrorMessage::NumberParseError => "Failed to parse number."@,
    }
}

impl LexerError {
    /// The sentence for this error's reason.
    pub fn message_to_string(&self) -> (r: &'static str)
        ensures
            r@ == lexer_message_text(self.message),
    {
        match self.message {
            LexerErrorMessage::UnexpectedCharacter => "Unexpected character.",
            LexerErrorMessage::UnterminatedString => "Unterminated string.",
            LexerErrorMessage::NumberParseError => "Failed to parse number.",
        }
    }

    /// The diagnostic for this error.
    pub fn to_string(&self) -> (r: String)
        ensures
            r@ == diagnostic(
                self.position.row as nat,
                self.position.column as nat,
                lexer_message_text(self.message),
                self.lexeme@,
            ),
    {
        format_diagnostic(
            self.position.row,
            self.position.column,
            self.message_to_string(),
            self.lexeme.as_str(),
        )
    }
}

/// The view of a lexer error.
pub struct LexerErrorView {
    pub message: LexerErrorMessage,
    pub lexeme: Seq<char>,
    pub position: TokenPosition,
}

impl View for LexerError {
    type V = LexerErrorView;

    open spec fn view(&self) -> LexerErrorView {
        LexerErrorView { message: self.message, lexeme: self.lexeme@, position: self.position }
    }
}

} // verus!
