//! The syntax trees: expressions and statements, and their mathematical
//! views, in which a list of children is a sequence.

use crate::token::{Literal, Token};
use vstd::prelude::*;

verus! {

/// An expression. Each node owns its sub-expressions.
#[allow(inconsistent_fields)]
#[derive(Debug, PartialEq)]
pub enum Expression {
    Assign { name: Token, value: Box<Expression> },
    Binary { left: Box<Expression>, operator: Token, right: Box<Expression> },
    Call { callee: Box<Expression>, paren: Token, arguments: Vec<Expression> },
    Get { object: Box<Expression>, name: Token },
    Grouping { expression: Box<Expression> },
    Literal { value: Literal },
    Logical { left: Box<Expression>, operator: Token, right: Box<Expression> },
    SetProperty { object: Box<Expression>, name: Token, value: Box<Expression> },
    Super { keyword: Token, method: Token },
    This { keyword: Token },
    Unary { operator: Token, right: Box<Expression> },
    Variable { name: Token },
}

/// A statement. A `for` loop has no node of its own: the parser writes it
/// as a block and a `while` loop.
#[allow(inconsistent_fields)]
#[derive(Debug, PartialEq)]
pub enum Statement {
    Block { statements: Vec<Statement> },
    Class { name: Token, superclass: Option<Box<Expression>>, methods: Vec<Statement> },
    Expression { expression: Box<Expression> },
    Function { name: Token, params: Vec<Token>, body: Box<Statement> },
    If { condition: Box<Expression>, then_branch: Box<Statement>, else_branch: Option<Box<Statement>> },
    Return { value: Option<Box<Expression>> },
    Var { name: Token, initializer: Option<Box<Expression>> },
    While { condition: Box<Expression>, body: Box<Statement> },
}

/// The view of an expression.
#[allow(inconsistent_fields)]
pub enum ExpressionView {
    Assign { name: Token, value: Box<ExpressionView> },
    Binary { left: Box<ExpressionView>, operator: Token, right: Box<ExpressionView> },
    Call { callee: Box<ExpressionView>, paren: Token, arguments: Seq<ExpressionView> },
    Get { object: Box<ExpressionView>, name: Token },
    Grouping { expression: Box<ExpressionView> },
    Literal { value: Literal },
    Logical { left: Box<ExpressionView>, operator: Token, right: Box<ExpressionView> },
    SetProperty { object: Box<ExpressionView>, name: Token, value: Box<ExpressionView> },
    Super { keyword: Token, method: Token },
    This { keyword: Token },
    Unary { operator: Token, right: Box<ExpressionView> },
    Variable { name: Token },
}

/// The view of a statement.
#[allow(inconsistent_fields)]
pub enum StatementView {
    Block { statements: Seq<StatementView> },
    Class { name: Token, superclass: Option<ExpressionView>, methods: Seq<StatementView> },
    Expression { expression: ExpressionView },
    Function { name: Token, params: Seq<Token>, body: Box<StatementView> },
    If { condition: ExpressionView, then_branch: Box<StatementView>, else_branch: Option<Box<StatementView>> },
    Return { value: Option<ExpressionView> },
    Var { name: Token, initializer: Option<ExpressionView> },
    While { condition: ExpressionView, body: Box<StatementView> },
}

/// The view of an expression: the same tree, with sequences for lists.
pub open spec fn expression_view(e: Expression) -> ExpressionView
    decreases e,
{
    match e {
        Expression::Assign { name, value } => ExpressionView::Assign {
            name,
            value: Box::new(expression_view(*value)),
        },
        Expression::Binary { left, operator, right } => ExpressionView::Binary {
            left: Box::new(expression_view(*left)),
            operator,
            right: Box::new(expression_view(*right)),
        },
        Expression::Call { callee, paren, arguments } => ExpressionView::Call {
            callee: Box::new(expression_view(*callee)),
            paren,
            arguments: Seq::new(
                arguments@.len(),
                |i: int|
                    if 0 <= i < arguments@.len() {
                        expression_view(arguments@[i])
                    } else {
                        ExpressionView::Literal { value: Literal::Nil }
                    },
            ),
        },
        Expression::Get { object, name } => ExpressionView::Get {
            object: Box::new(expression_view(*object)),
            name,
        },
        Expression::Grouping { expression } => ExpressionView::Grouping {
            expression: Box::new(expression_view(*expression)),
        },
        Expression::Literal { value } => ExpressionView::Literal { value },
        Expression::Logical { left, operator, right } => ExpressionView::Logical {
            left: Box::new(expression_view(*left)),
            operator,
            right: Box::new(expression_view(*right)),
        },
        Expression::SetProperty { object, name, value } => ExpressionView::SetProperty {
            object: Box::new(expression_view(*object)),
            name,
            value: Box::new(expression_view(*value)),
        },
        Expression::Super { keyword, method } => ExpressionView::Super { keyword, method },
        Expression::This { keyword } => ExpressionView::This { keyword },
        Expression::Unary { operator, right } => ExpressionView::Unary {
            operator,
            right: Box::new(expression_view(*right)),
        },
        Expression::Variable { name } => ExpressionView::Variable { name },
    }
}

/// The view of each expression of a list, in order.
pub open spec fn expressions_view(list: Seq<Expression>) -> Seq<ExpressionView> {
    Seq::new(list.len(), |i: int| expression_view(list[i]))
}

/// The view of an expression that may be absent.
pub open spec fn optional_expression_view(e: Option<Box<Expression>>) -> Option<ExpressionView> {
    match e {
        Some(e) => Some(expression_view(*e)),
        None => None,
    }
}

/// The view of a statement: the same tree, with sequences for lists.
pub open spec fn statement_view(s: Statement) -> StatementView
    decreases s,
{
    match s {
        Statement::Block { statements } => StatementView::Block {
            statements: Seq::new(
                statements@.len(),
                |i: int|
                    if 0 <= i < statements@.len() {
                        statement_view(statements@[i])
                    } else {
                        StatementView::Return { value: None }
                    },
            ),
        },
        Statement::Class { name, superclass, methods } => StatementView::Class {
            name,
            superclass: optional_expression_view(superclass),
            methods: Seq::new(
                methods@.len(),
                |i: int|
                    if 0 <= i < methods@.len() {
                        statement_view(methods@[i])
                    } else {
                        StatementView::Return { value: None }
                    },
            ),
        },
        Statement::Expression { expression } => StatementView::Expression {
            expression: expression_view(*expression),
        },
        Statement::Function { name, params, body } => StatementView::Function {
            name,
            params: params@,
            body: Box::new(statement_view(*body)),
        },
        Statement::If { condition, then_branch, else_branch } => StatementView::If {
            condition: expression_view(*condition),
            then_branch: Box::new(statement_view(*then_branch)),
            else_branch: match else_branch {
                Some(s) => Some(Box::new(statement_view(*s))),
                None => None,
            },
        },
        Statement::Return { value } => StatementView::Return {
            value: optional_expression_view(value),
        },
        Statement::Var { name, initializer } => StatementView::Var {
            name,
            initializer: optional_expression_view(initializer),
        },
        Statement::While { condition, body } => StatementView::While {
            condition: expression_view(*condition),
            body: Box::new(statement_view(*body)),
        },
    }
}

/// The view of each statement of a list, in order.
pub open spec fn statements_view(list: Seq<Statement>) -> Seq<StatementView> {
    Seq::new(list.len(), |i: int| statement_view(list[i]))
}

impl View for Expression {
    type V = ExpressionView;

    open spec fn view(&self) -> ExpressionView {
        expression_view(*self)
    }
}

impl View for Statement {
    type V = StatementView;

    open spec fn view(&self) -> StatementView {
        statement_view(*self)
    }
}

} // verus!
