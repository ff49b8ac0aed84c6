//! The evaluator as a machine: what it holds between two steps, what it
//! asks of its driver, and what the driver answers.
//!
//! The machine walks the syntax tree with two stacks: the tasks that are
//! still to do, the next one last, and the values that finished tasks have
//! left for later ones. It cannot add or divide doubles, nor read or write
//! them as decimal text, nor print: for these it stops with an action, and
//! goes on when the driver brings the answer as an event.

use crate::interpreter::error::{ErrorView, InterpreterError};
use crate::memory::handler::Scopes;
use crate::object::{Class, InstanceView};
use crate::parser::node::{Expression, Statement};
use crate::token::Token;
use crate::value::{TokenValue, ValueView};
use vstd::prelude::*;

verus! {

/// Something that is still to do.
#[derive(Debug, Clone, Copy, PartialEq)]
pub enum Task<'a> {
    /// Run the statements of a list from `next` on.
    Sequence { statements: &'a Vec<Statement>, next: usize },
    /// Run a statement.
    Execute(&'a Statement),
    /// Take the value on top as the result of an expression statement.
    Keep,
    /// Define a variable with the value on top.
    Define(&'a Token),
    /// Choose a branch by the value on top.
    Branch { then_branch: &'a Statement, else_branch: &'a Option<Box<Statement>> },
    /// A statement that has no result of its own is done.
    Forget,
    /// Go round a loop once more, or leave it, by the value on top.
    Loop { condition: &'a Expression, body: &'a Statement },
    /// Close the frame of a block.
    LeaveScope,
    /// Close the frame of a call that ran to its end without `return`.
    LeaveCall,
    /// Make a class whose superclass is the value on top.
    MakeClass { name: &'a Token, methods: &'a Vec<Statement> },
    /// Return the value on top from the call that is running.
    Return,
    /// Compute an expression and leave its value on top.
    Evaluate(&'a Expression),
    /// Compute the arguments of a call from `next` on.
    Arguments { arguments: &'a Vec<Expression>, next: usize },
    /// Assign the value on top to a variable.
    Assign(&'a Token),
    /// Apply a unary operator to the value on top.
    Unary(&'a Token),
    /// Apply a binary operator to the two values on top.
    Binary(&'a Token),
    /// Decide by the value on top whether the right operand is computed.
    Logical { operator: &'a Token, right: &'a Expression },
    /// Call the value below the `count` arguments on top.
    Invoke { paren: &'a Token, count: usize },
    /// Read a property of the value on top.
    Get(&'a Token),
    /// Make sure that the value on top is an instance.
    RequireInstance(&'a Token),
    /// Write a property of the value below the top.
    SetProperty(&'a Token),
    /// Wait for the number that the text `depth` below the top stands for.
    Parsed { depth: usize, operator: &'a Token },
    /// Wait for the text of the number `depth` below the top.
    Rendered { depth: usize },
    /// Wait for the result of a sum, difference, product or quotient.
    Computed,
    /// Wait for a line to be printed.
    Printed,
}

/// What the driver brings to a step.
#[derive(Debug, PartialEq)]
pub enum Event {
    /// Nothing: the machine asked for nothing.
    Proceed,
    /// The double that was asked for.
    Number(u64),
    /// The text that was to be read as a number is none.
    NotANumber,
    /// The text that was asked for.
    Text(String),
}

/// The view of an event.
pub enum EventView {
    Proceed,
    Number(u64),
    NotANumber,
    Text(Seq<char>),
}

impl View for Event {
    type V = EventView;

    open spec fn view(&self) -> EventView {
        match self {
            Event::Proceed => EventView::Proceed,
            Event::Number(n) => EventView::Number(*n),
            Event::NotANumber => EventView::NotANumber,
            Event::Text(s) => EventView::Text(s@),
        }
    }
}

/// What a step asks of the driver.
#[derive(Debug, PartialEq)]
pub enum Action<'a> {
    /// Nothing: take the next step with `Event::Proceed`.
    Continue,
    /// The sum of two doubles, as `Event::Number`.
    Add(u64, u64),
    /// The first double less the second, as `Event::Number`.
    Subtract(u64, u64),
    /// The product of two doubles, as `Event::Number`.
    Multiply(u64, u64),
    /// The first double divided by the second, as `Event::Number`.
    Divide(u64, u64),
    /// The double that the text stands for, as `Event::Number`, or
    /// `Event::NotANumber`.
    Parse(String),
    /// The decimal text of a double, as `Event::Text`.
    Render(u64),
    /// Print the text as a line; then `Event::Proceed`.
    Print(String),
    /// The program is over: the result of its last statement, or the error
    /// that stopped it.
    Finished(Result<Option<TokenValue<'a>>, InterpreterError<'a>>),
}

/// The view of an action.
pub enum ActionView<'a> {
    Continue,
    Add(u64, u64),
    Subtract(u64, u64),
    Multiply(u64, u64),
    Divide(u64, u64),
    Parse(Seq<char>),
    Render(u64),
    Print(Seq<char>),
    Finished(Result<Option<ValueView<'a>>, ErrorView<'a>>),
}

/// The view of a value that may be absent.
pub open spec fn optional_value_view<'a>(value: Option<TokenValue<'a>>) -> Option<ValueView<'a>> {
    match value {
        Some(v) => Some(v@),
        None => None,
    }
}

impl<'a> View for Action<'a> {
    type V = ActionView<'a>;

    open spec fn view(&self) -> ActionView<'a> {
        match self {
            Action::Continue => ActionView::Continue,
            Action::Add(a, b) => ActionView::Add(*a, *b),
            Action::Subtract(a, b) => ActionView::Subtract(*a, *b),
            Action::Multiply(a, b) => ActionView::Multiply(*a, *b),
            Action::Divide(a, b) => ActionView::Divide(*a, *b),
            Action::Parse(s) => ActionView::Parse(s@),
            Action::Render(n) => ActionView::Render(*n),
            Action::Print(s) => ActionView::Print(s@),
            Action::Finished(Ok(v)) => ActionView::Finished(Ok(optional_value_view(*v))),
            Action::Finished(Err(e)) => ActionView::Finished(Err(e@)),
        }
    }
}

/// What the machine holds between two steps.
pub struct MachineView<'a> {
    /// The frames that are open, the innermost last.
    pub scopes: Scopes<'a>,
    /// The classes made so far; a class is named by its place here.
    pub classes: Seq<Class<'a>>,
    /// The instances made so far; an instance is named by its place here.
    pub instances: Seq<InstanceView<'a>>,
    /// The values left by finished tasks, the newest last.
    pub values: Seq<ValueView<'a>>,
    /// The tasks still to do, the next one last.
    pub tasks: Seq<Task<'a>>,
    /// The result of the statement that finished last.
    pub last: Option<ValueView<'a>>,
}

} // verus!
