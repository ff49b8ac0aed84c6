//! What the parser reports when the tokens are no program.

use crate::text::{diagnostic, format_diagnostic};
use crate::token::{kind_text, Token, TokenType};
use vstd::prelude::*;
use vstd::string::*;

verus! {

/// Why a declaration could not be parsed.
#[derive(Debug, Clone, Copy, PartialEq, Eq, Structural)]
pub enum ParserErrorMessage {
    /// The tokens ended where one more was needed.
    GetTokenError,
    /// A number or string token that carries no value.
    LiteralTokenWithoutValue,
    /// A token with which no expression begins.
    UnexpectedTokenType,
    /// A token of the given kind was expected.
    ExpectToken(TokenType),
    /// The left side of `=` is no variable.
    InvalidAssignment,
}

/// A parser error: the reason, and the token at which it arose.
#[derive(Debug, PartialEq)]
pub struct ParserError {
    pub message: ParserErrorMessage,
    pub token: Option<Token>,
}

/// The sentence that stands for each reason.
pub open spec fn parser_message_text(message: ParserErrorMessage) -> Seq<char> {
    match message {
        ParserErrorMessage::GetTokenError => "Failed to get token"@,
        ParserErrorMessage::LiteralTokenWithoutValue => "Literal type token without value"@,
        ParserErrorMessage::UnexpectedTokenType => "Unexpected token type"@,
        ParserErrorMessage::ExpectToken(kind) => "'"@ + kind_text(kind) + "' expected"@,
        ParserErrorMessage::InvalidAssignment => "Invalid assignment target"@,
    }
}

/// The text of an error: the diagnostic at its token, or the bare message
/// where it has none.
pub open spec fn parser_error_text(error: ParserError) -> Seq<char> {
    match error.token {
        Some(token) => diagnostic(
            token.position.row as nat,
            token.position.column as nat,
            parser_message_text(error.message),
            token.lexeme@,
        ),
        None => "Error: "@ + parser_message_text(error.message),
    }
}

impl Clone for ParserError {
    fn clone(&self) -> (r: Self)
        ensures
            r == *self,
    {
        let token = match &self.token {
            Some(t) => Some(t.clone()),
            None => None,
        };
        ParserError { message: self.message, token }
    }
}

impl ParserError {
    /// The sentence for this error's reason.
    pub fn message_to_string(&self) -> (r: String)
        ensures
            r@ == parser_message_text(self.message),
    {
        match self.message {
            ParserErrorMessage::GetTokenError => String::from_str("Failed to get token"),
            ParserErrorMessage::LiteralTokenWithoutValue => String::from_str(
                "Literal type token without value",
            ),
            ParserErrorMessage::UnexpectedTokenType => String::from_str("Unexpected token type"),
            ParserErrorMessage::ExpectToken(kind) => {
                let mut out = String::from_str("'");
                out.append(kind.text());
                out.append("' expected");
                out
            },
            ParserErrorMessage::InvalidAssignment => String::from_str("Invalid assignment target"),
        }
    }

    /// The text of this error.
    pub fn to_string(&self) -> (r: String)
        ensures
            r@ == parser_error_text(*self),
    {
        let message = self.message_to_string();
        match &self.token {
            Some(token) => format_diagnostic(
                token.position.row,
                token.position.column,
                message.as_str(),
                token.lexeme.as_str(),
            ),
            None => {
                let mut out = String::from_str("Error: ");
                out.append(message.as_str());
                out
            },
        }
    }
}

} // verus!
