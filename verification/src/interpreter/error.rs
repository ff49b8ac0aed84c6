//! What the evaluator reports when a program cannot go on.

use crate::text::{decimal, diagnostic, format_diagnostic, push_decimal};
use crate::token::Token;
use crate::value::{kind_name, TokenValue, ValueView};
use vstd::prelude::*;
use vstd::string::*;

verus! {

/// Why evaluation stopped.
#[allow(inconsistent_fields)]
#[derive(Debug, PartialEq)]
pub enum InterpreterErrorMessage<'a> {
    /// A state was reached that no program can bring about.
    Unreachable,
    /// A value of the wrong kind: the value, and what was expected.
    UnexpectedValue { is: TokenValue<'a>, expect: String },
    DivisionByZero,
    UndefinedVariable { lexeme: String },
    IsNotCallable,
    /// A call with `has` arguments of a function with `expect` parameters.
    ArgumentMismatch { has: usize, expect: usize },
    /// The body of a called function is no block.
    MissingBlock,
}

/// An evaluator error: the reason, and the token at which it arose.
#[derive(Debug, PartialEq)]
pub struct InterpreterError<'a> {
    pub message: InterpreterErrorMessage<'a>,
    pub token: Option<Token>,
}

/// The view of a reason.
#[allow(inconsistent_fields)]
pub enum MessageView<'a> {
    Unreachable,
    UnexpectedValue { is: ValueView<'a>, expect: Seq<char> },
    DivisionByZero,
    UndefinedVariable { lexeme: Seq<char> },
    IsNotCallable,
    ArgumentMismatch { has: usize, expect: usize },
    MissingBlock,
}

/// The view of an error.
pub struct ErrorView<'a> {
    pub message: MessageView<'a>,
    pub token: Option<Token>,
}

impl<'a> View for InterpreterErrorMessage<'a> {
    type V = MessageView<'a>;

    open spec fn view(&self) -> MessageView<'a> {
        match self {
            InterpreterErrorMessage::Unreachable => MessageView::Unreachable,
            InterpreterErrorMessage::UnexpectedValue { is, expect } => MessageView::UnexpectedValue {
                is: is@,
                expect: expect@,
            },
            InterpreterErrorMessage::DivisionByZero => MessageView::DivisionByZero,
            InterpreterErrorMessage::UndefinedVariable { lexeme } => MessageView::UndefinedVariable {
                lexeme: lexeme@,
            },
            InterpreterErrorMessage::IsNotCallable => MessageView::IsNotCallable,
            InterpreterErrorMessage::ArgumentMismatch { has, expect } => MessageView::ArgumentMismatch {
                has: *has,
                expect: *expect,
            },
            InterpreterErrorMessage::MissingBlock => MessageView::MissingBlock,
        }
    }
}

impl<'a> View for InterpreterError<'a> {
    type V = ErrorView<'a>;

    open spec fn view(&self) -> ErrorView<'a> {
        ErrorView { message: self.message@, token: self.token }
    }
}

/// The sentence that stands for each reason.
pub open spec fn interpreter_message_text(message: MessageView) -> Seq<char> {
    match message {
        MessageView::Unreachable => "Unreachable"@,
        MessageView::UnexpectedValue { is, expect } => "Unexpected value\nis: "@ + kind_name(is)
            + "\nexpect: "@ + expect,
        MessageView::DivisionByZero => "Attempt to divide by zero"@,
        MessageView::UndefinedVariable { lexeme } => "Undefined variable '"@ + lexeme + "'"@,
        MessageView::IsNotCallable => "Is not callable"@,
        MessageView::ArgumentMismatch { has, expect } => "Expected "@ + decimal(expect as nat)
            + " arguments but got "@ + decimal(has as nat),
        MessageView::MissingBlock => "Missing code block"@,
    }
}

/// The text of an error: the diagnostic at its token, or the bare message
/// where it has none.
pub open spec fn interpreter_error_text(error: ErrorView) -> Seq<char> {
    match error.token {
        Some(token) => diagnostic(
            token.position.row as nat,
            token.position.column as nat,
            interpreter_message_text(error.message),
            token.lexeme@,
        ),
        None => "Error: "@ + interpreter_message_text(error.message),
    }
}

impl<'a> InterpreterError<'a> {
    /// An error with the reason `Unreachable` and no token.
    pub fn unreachable() -> (r: Self)
        ensures
            r@ == (ErrorView { message: MessageView::Unreachable, token: None }),
    {
        InterpreterError { message: InterpreterErrorMessage::Unreachable, token: None }
    }

    /// The sentence for this error's reason.
    pub fn message_to_string(&self) -> (r: String)
        ensures
            r@ == interpreter_message_text(self.message@),
    {
        match &self.message {
            InterpreterErrorMessage::Unreachable => String::from_str("Unreachable"),
            InterpreterErrorMessage::UnexpectedValue { is, expect } => {
                let mut out = String::from_str("Unexpected value\nis: ");
                out.append(is.kind());
                out.append("\nexpect: ");
                out.append(expect.as_str());
                out
            },
            InterpreterErrorMessage::DivisionByZero => String::from_str(
                "Attempt to divide by zero",
            ),
            InterpreterErrorMessage::UndefinedVariable { lexeme } => {
                let mut out = String::from_str("Undefined variable '");
                out.append(lexeme.as_str());
                out.append("'");
                out
            },
            InterpreterErrorMessage::IsNotCallable => String::from_str("Is not callable"),
            InterpreterErrorMessage::ArgumentMismatch { has, expect } => {
                let mut out = String::from_str("Expected ");
                push_decimal(&mut out, *expect);
                out.append(" arguments but got ");
                push_decimal(&mut out, *has);
                out
            },
            InterpreterErrorMessage::MissingBlock => String::from_str("Missing code block"),
        }
    }

    /// The text of this error.
    pub fn to_string(&self) -> (r: String)
        ensures
            r@ == interpreter_error_text(self@),
    {
        let message = self.message_to_string();
        match &self.token {
            Some(token) => format_diagnostic(
                token.position.row,
                token.position.column,
                message.as_str(),
                token.lexeme.as_str(),
            ),
            None => {
                let mut out = String::from_str("Error: ");
                out.append(message.as_str());
                out
            },
        }
    }
}

} // verus!
