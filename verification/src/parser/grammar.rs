//! The grammar: which tree, or which error, a sequence of tokens stands
//! for. Each function reads from a position and gives the tree with the
//! position behind it, or the error with the position at which it arose.

use crate::parser::error::{ParserError, ParserErrorMessage};
use crate::parser::node::{ExpressionView, StatementView};
use crate::token::{Literal, Token, TokenType};
use vstd::prelude::*;

verus! {

/// What reading gives: the thing that was read and the position behind it,
/// or an error and the position at which reading stopped.
pub type Parsed<T> = Result<(T, nat), (ParserError, nat)>;

/// Whether nothing is left to read at `p`: the tokens are used up, or the
/// token there marks the end of the input.
pub open spec fn ended(t: Seq<Token>, p: nat) -> bool {
    p >= t.len() || t[p as int].kind == TokenType::EndOfFile
}

/// Whether a token of the kind `kind` stands at `p`.
pub open spec fn check(t: Seq<Token>, p: nat, kind: TokenType) -> bool {
    !ended(t, p) && t[p as int].kind == kind
}

/// How many tokens stand at `p` and behind it.
pub open spec fn remaining(t: Seq<Token>, p: nat) -> nat {
    if p <= t.len() {
        (t.len() - p) as nat
    } else {
        0
    }
}

/// The error of the given reason at `p`: it holds the token there. Where
/// the tokens are used up, the error says so instead.
pub open spec fn failure(t: Seq<Token>, p: nat, message: ParserErrorMessage) -> (ParserError, nat) {
    if p < t.len() {
        (ParserError { message, token: Some(t[p as int]) }, p)
    } else {
        (ParserError { message: ParserErrorMessage::GetTokenError, token: None }, p)
    }
}

/// Reads a token of the kind `kind`.
pub open spec fn consume(t: Seq<Token>, p: nat, kind: TokenType) -> Parsed<Token> {
    if check(t, p, kind) {
        Ok((t[p as int], p + 1))
    } else {
        Err(failure(t, p, ParserErrorMessage::ExpectToken(kind)))
    }
}

/// A result that was read from behind `from`. Reading always moves on, and
/// never past the end: a result that did not is no result.
pub open spec fn progress<T>(t: Seq<Token>, from: nat, result: Parsed<T>) -> Parsed<T> {
    match result {
        Ok((_, p)) => if from < p <= t.len() {
            result
        } else {
            Err((ParserError { message: ParserErrorMessage::GetTokenError, token: None }, from))
        },
        Err(_) => result,
    }
}

/// Whether `kind` is an operator of the given level of binding. From the
/// tightest: `/ *`, then `- +`, then `> >= < <=`, then `!= ==`, then `and`,
/// then `or`.
pub open spec fn level_operator(level: nat, kind: TokenType) -> bool {
    if level == 0 {
        kind == TokenType::Slash || kind == TokenType::Star
    } else if level == 1 {
        kind == TokenType::Minus || kind == TokenType::Plus
    } else if level == 2 {
        kind == TokenType::Greater || kind == TokenType::GreaterEqual || kind == TokenType::Less
            || kind == TokenType::LessEqual
    } else if level == 3 {
        kind == TokenType::BangEqual || kind == TokenType::EqualEqual
    } else if level == 4 {
        kind == TokenType::And
    } else {
        kind == TokenType::Or
    }
}

/// The node for two operands and an operator of the given level.
pub open spec fn combine(
    level: nat,
    left: ExpressionView,
    operator: Token,
    right: ExpressionView,
) -> ExpressionView {
    if level >= 4 {
        ExpressionView::Logical { left: Box::new(left), operator, right: Box::new(right) }
    } else {
        ExpressionView::Binary { left: Box::new(left), operator, right: Box::new(right) }
    }
}

/// primary := literal | identifier | 'this' | '(' expression ')'
pub open spec fn primary(t: Seq<Token>, p: nat) -> Parsed<ExpressionView>
    decreases remaining(t, p), 0nat,
{
    if check(t, p, TokenType::False) {
        Ok((ExpressionView::Literal { value: Literal::Bool(false) }, p + 1))
    } else if check(t, p, TokenType::True) {
        Ok((ExpressionView::Literal { value: Literal::Bool(true) }, p + 1))
    } else if check(t, p, TokenType::Nil) {
        Ok((ExpressionView::Literal { value: Literal::Nil }, p + 1))
    } else if check(t, p, TokenType::Number) || check(t, p, TokenType::String) {
        match t[p as int].value {
            Some(value) => Ok((ExpressionView::Literal { value }, p + 1)),
            None => Err(
                (
                    ParserError {
                        message: ParserErrorMessage::LiteralTokenWithoutValue,
                        token: Some(t[p as int]),
                    },
                    p + 1,
                ),
            ),
        }
    } else if check(t, p, TokenType::Identifier) {
        Ok((ExpressionView::Variable { name: t[p as int] }, p + 1))
    } else if check(t, p, TokenType::This) {
        Ok((ExpressionView::This { keyword: t[p as int] }, p + 1))
    } else if check(t, p, TokenType::LeftParen) {
        match progress(t, p, expression(t, p + 1)) {
            Ok((inner, q1)) => match consume(t, q1, TokenType::RightParen) {
                Ok((_, q2)) => Ok((ExpressionView::Grouping { expression: Box::new(inner) }, q2)),
                Err(e) => Err(e),
            },
            Err(e) => Err(e),
        }
    } else {
        Err(failure(t, p, ParserErrorMessage::UnexpectedTokenType))
    }
}

/// call := primary ( '(' arguments? ')' )*
pub open spec fn call(t: Seq<Token>, p: nat) -> Parsed<ExpressionView>
    decreases remaining(t, p), 1nat,
{
    match progress(t, p, primary(t, p)) {
        Ok((callee, q1)) => call_rest(t, q1, callee),
        Err(e) => Err(e),
    }
}

/// The calls that follow a callee.
pub open spec fn call_rest(t: Seq<Token>, p: nat, callee: ExpressionView) -> Parsed<ExpressionView>
    decreases remaining(t, p), 0nat,
{
    if check(t, p, TokenType::LeftParen) {
        let list = if check(t, p + 1, TokenType::RightParen) {
            Ok((Seq::empty(), p + 1))
        } else {
            progress(t, p, arguments(t, p + 1))
        };
        match list {
            Ok((arguments, q1)) => match consume(t, q1, TokenType::RightParen) {
                Ok((paren, q2)) => call_rest(
                    t,
                    q2,
                    ExpressionView::Call { callee: Box::new(callee), paren, arguments },
                ),
                Err(e) => Err(e),
            },
            Err(e) => Err(e),
        }
    } else {
        Ok((callee, p))
    }
}

/// arguments := expression ( ',' expression )*
pub open spec fn arguments(t: Seq<Token>, p: nat) -> Parsed<Seq<ExpressionView>>
    decreases remaining(t, p), 22nat,
{
    match progress(t, p, expression(t, p)) {
        Ok((first, q1)) => if check(t, q1, TokenType::Comma) {
            match arguments(t, q1 + 1) {
                Ok((rest, q2)) => Ok((seq![first] + rest, q2)),
                Err(e) => Err(e),
            }
        } else {
            Ok((seq![first], q1))
        },
        Err(e) => Err(e),
    }
}

/// unary := ( '!' | '-' ) unary | call
pub open spec fn unary(t: Seq<Token>, p: nat) -> Parsed<ExpressionView>
    decreases remaining(t, p), 2nat,
{
    if check(t, p, TokenType::Bang) || check(t, p, TokenType::Minus) {
        match unary(t, p + 1) {
            Ok((right, q1)) => Ok(
                (ExpressionView::Unary { operator: t[p as int], right: Box::new(right) }, q1),
            ),
            Err(e) => Err(e),
        }
    } else {
        call(t, p)
    }
}

/// An operand of the given level: a unary expression at the tightest
/// level, and else a chain of the level below.
pub open spec fn operand(t: Seq<Token>, p: nat, level: nat) -> Parsed<ExpressionView>
    decreases remaining(t, p), 3 + 2 * level,
{
    if level == 0 {
        unary(t, p)
    } else {
        chain(t, p, (level - 1) as nat)
    }
}

/// A chain of the given level: operands joined by operators of that level,
/// grouped from the left.
pub open spec fn chain(t: Seq<Token>, p: nat, level: nat) -> Parsed<ExpressionView>
    decreases remaining(t, p), 4 + 2 * level,
{
    match progress(t, p, operand(t, p, level)) {
        Ok((left, q1)) => chain_rest(t, q1, level, left),
        Err(e) => Err(e),
    }
}

/// The operators and operands that follow the left part of a chain.
pub open spec fn chain_rest(t: Seq<Token>, p: nat, level: nat, left: ExpressionView) -> Parsed<
    ExpressionView,
>
    decreases remaining(t, p), 0nat,
{
    if !ended(t, p) && level_operator(level, t[p as int].kind) {
        match progress(t, p, operand(t, p + 1, level)) {
            Ok((right, q1)) => chain_rest(t, q1, level, combine(level, left, t[p as int], right)),
            Err(e) => Err(e),
        }
    } else {
        Ok((left, p))
    }
}

/// assignment := or '=' assignment | or
///
/// The left side of `=` must be a variable.
pub open spec fn assignment(t: Seq<Token>, p: nat) -> Parsed<ExpressionView>
    decreases remaining(t, p), 20nat,
{
    match progress(t, p, chain(t, p, 5)) {
        Ok((target, q1)) => if check(t, q1, TokenType::Equal) {
            match assignment(t, q1 + 1) {
                Ok((value, q2)) => match target {
                    ExpressionView::Variable { name } => Ok(
                        (ExpressionView::Assign { name, value: Box::new(value) }, q2),
                    ),
                    _ => Err(
                        (
                            ParserError {
                                message: ParserErrorMessage::InvalidAssignment,
                                token: Some(t[q1 as int]),
                            },
                            q2,
                        ),
                    ),
                },
                Err(e) => Err(e),
            }
        } else {
            Ok((target, q1))
        },
        Err(e) => Err(e),
    }
}

/// expression := assignment
pub open spec fn expression(t: Seq<Token>, p: nat) -> Parsed<ExpressionView>
    decreases remaining(t, p), 21nat,
{
    assignment(t, p)
}

/// expressionStatement := expression ';'
pub open spec fn expression_statement(t: Seq<Token>, p: nat) -> Parsed<StatementView>
    decreases remaining(t, p), 25nat,
{
    match progress(t, p, expression(t, p)) {
        Ok((expression, q1)) => match consume(t, q1, TokenType::Semicolon) {
            Ok((_, q2)) => Ok((StatementView::Expression { expression }, q2)),
            Err(e) => Err(e),
        },
        Err(e) => Err(e),
    }
}

/// What follows `return`: an expression or nothing, and ';'.
pub open spec fn return_statement(t: Seq<Token>, p: nat) -> Parsed<StatementView>
    decreases remaining(t, p), 26nat,
{
    if check(t, p, TokenType::Semicolon) {
        Ok((StatementView::Return { value: None }, p + 1))
    } else {
        match progress(t, p, expression(t, p)) {
            Ok((value, q1)) => match consume(t, q1, TokenType::Semicolon) {
                Ok((_, q2)) => Ok((StatementView::Return { value: Some(value) }, q2)),
                Err(e) => Err(e),
            },
            Err(e) => Err(e),
        }
    }
}

/// What follows `var`: the name, an initializer or none, and ';'.
pub open spec fn var_declaration(t: Seq<Token>, p: nat) -> Parsed<StatementView>
    decreases remaining(t, p), 27nat,
{
    match consume(t, p, TokenType::Identifier) {
        Ok((name, q1)) => {
            let initial = if check(t, q1, TokenType::Equal) {
                match progress(t, p, expression(t, q1 + 1)) {
                    Ok((value, q2)) => Ok((Some(value), q2)),
                    Err(e) => Err(e),
                }
            } else {
                Ok((None, q1))
            };
            match initial {
                Ok((initializer, q2)) => match consume(t, q2, TokenType::Semicolon) {
                    Ok((_, q3)) => Ok((StatementView::Var { name, initializer }, q3)),
                    Err(e) => Err(e),
                },
                Err(e) => Err(e),
            }
        },
        Err(e) => Err(e),
    }
}

/// What follows `while`: the condition in parentheses, and the body.
pub open spec fn while_statement(t: Seq<Token>, p: nat) -> Parsed<StatementView>
    decreases remaining(t, p), 28nat,
{
    match consume(t, p, TokenType::LeftParen) {
        Ok((_, q1)) => match progress(t, p, expression(t, q1)) {
            Ok((condition, q2)) => match consume(t, q2, TokenType::RightParen) {
                Ok((_, q3)) => match statement(t, q3) {
                    Ok((body, q4)) => Ok(
                        (StatementView::While { condition, body: Box::new(body) }, q4),
                    ),
                    Err(e) => Err(e),
                },
                Err(e) => Err(e),
            },
            Err(e) => Err(e),
        },
        Err(e) => Err(e),
    }
}

/// What follows `if`: the condition in parentheses, the statement for
/// true, and after `else` the statement for false.
pub open spec fn if_statement(t: Seq<Token>, p: nat) -> Parsed<StatementView>
    decreases remaining(t, p), 28nat,
{
    match consume(t, p, TokenType::LeftParen) {
        Ok((_, q1)) => match progress(t, p, expression(t, q1)) {
            Ok((condition, q2)) => match consume(t, q2, TokenType::RightParen) {
                Ok((_, q3)) => match progress(t, p, statement(t, q3)) {
                    Ok((then_branch, q4)) => if check(t, q4, TokenType::Else) {
                        match statement(t, q4 + 1) {
                            Ok((else_branch, q5)) => Ok(
                                (
                                    StatementView::If {
                                        condition,
                                        then_branch: Box::new(then_branch),
                                        else_branch: Some(Box::new(else_branch)),
                                    },
                                    q5,
                                ),
                            ),
                            Err(e) => Err(e),
                        }
                    } else {
                        Ok(
                            (
                                StatementView::If {
                                    condition,
                                    then_branch: Box::new(then_branch),
                                    else_branch: None,
                                },
                                q4,
                            ),
                        )
                    },
                    Err(e) => Err(e),
                },
                Err(e) => Err(e),
            },
            Err(e) => Err(e),
        },
        Err(e) => Err(e),
    }
}

/// The statement that a `for` loop is written as. The body and the
/// increment, where there is one, make a block; that is the body of a
/// `while` loop on the condition, which is `true` where none is given; and
/// the initializer, where there is one, and the loop make a block.
pub open spec fn for_loop(
    initializer: Option<StatementView>,
    condition: Option<ExpressionView>,
    increment: Option<ExpressionView>,
    body: StatementView,
) -> StatementView {
    let inner = match increment {
        Some(expression) => StatementView::Block {
            statements: seq![body, StatementView::Expression { expression }],
        },
        None => body,
    };
    let repeated = StatementView::While {
        condition: match condition {
            Some(expression) => expression,
            None => ExpressionView::Literal { value: Literal::Bool(true) },
        },
        body: Box::new(inner),
    };
    match initializer {
        Some(first) => StatementView::Block { statements: seq![first, repeated] },
        None => repeated,
    }
}

/// The first clause of a `for` loop: ';', a `var` declaration, or an
/// expression statement.
pub open spec fn for_initializer(t: Seq<Token>, p: nat) -> Parsed<Option<StatementView>>
    decreases remaining(t, p), 28nat,
{
    if check(t, p, TokenType::Semicolon) {
        Ok((None, p + 1))
    } else if check(t, p, TokenType::Var) {
        match var_declaration(t, p + 1) {
            Ok((s, q1)) => Ok((Some(s), q1)),
            Err(e) => Err(e),
        }
    } else {
        match expression_statement(t, p) {
            Ok((s, q1)) => Ok((Some(s), q1)),
            Err(e) => Err(e),
        }
    }
}

/// A clause of a `for` loop that may be left out: an expression, or
/// nothing where the token that closes the clause stands already.
pub open spec fn for_clause(t: Seq<Token>, p: nat, closing: TokenType) -> Parsed<
    Option<ExpressionView>,
>
    decreases remaining(t, p), 28nat,
{
    let clause = if check(t, p, closing) {
        Ok((None, p))
    } else {
        match expression(t, p) {
            Ok((e, q1)) => Ok((Some(e), q1)),
            Err(e) => Err(e),
        }
    };
    match clause {
        Ok((e, q1)) => match consume(t, q1, closing) {
            Ok((_, q2)) => Ok((e, q2)),
            Err(e) => Err(e),
        },
        Err(e) => Err(e),
    }
}

/// What follows `for`: in parentheses the initializer, the condition and
/// the increment, and then the body.
pub open spec fn for_statement(t: Seq<Token>, p: nat) -> Parsed<StatementView>
    decreases remaining(t, p), 29nat,
{
    match consume(t, p, TokenType::LeftParen) {
        Ok((_, q1)) => match progress(t, p, for_initializer(t, q1)) {
            Ok((initializer, q2)) => match progress(
                t,
                p,
                for_clause(t, q2, TokenType::Semicolon),
            ) {
                Ok((condition, q3)) => match progress(
                    t,
                    p,
                    for_clause(t, q3, TokenType::RightParen),
                ) {
                    Ok((increment, q4)) => match statement(t, q4) {
                        Ok((body, q5)) => Ok(
                            (for_loop(initializer, condition, increment, body), q5),
                        ),
                        Err(e) => Err(e),
                    },
                    Err(e) => Err(e),
                },
                Err(e) => Err(e),
            },
            Err(e) => Err(e),
        },
        Err(e) => Err(e),
    }
}

/// statement := 'while' … | 'for' … | '{' … | 'if' … | 'return' … |
/// expressionStatement
pub open spec fn statement(t: Seq<Token>, p: nat) -> Parsed<StatementView>
    decreases remaining(t, p), 30nat,
{
    if check(t, p, TokenType::While) {
        while_statement(t, p + 1)
    } else if check(t, p, TokenType::For) {
        for_statement(t, p + 1)
    } else if check(t, p, TokenType::LeftBrace) {
        block_statement(t, p + 1)
    } else if check(t, p, TokenType::If) {
        if_statement(t, p + 1)
    } else if check(t, p, TokenType::Return) {
        return_statement(t, p + 1)
    } else {
        expression_statement(t, p)
    }
}

/// The names of parameters: identifiers with ',' between them.
pub open spec fn parameters(t: Seq<Token>, p: nat) -> Parsed<Seq<Token>>
    decreases remaining(t, p), 31nat,
{
    match consume(t, p, TokenType::Identifier) {
        Ok((name, q1)) => if check(t, q1, TokenType::Comma) {
            match parameters(t, q1 + 1) {
                Ok((rest, q2)) => Ok((seq![name] + rest, q2)),
                Err(e) => Err(e),
            }
        } else {
            Ok((seq![name], q1))
        },
        Err(e) => Err(e),
    }
}

/// What follows `fun`, and each method of a class: the name, the
/// parameters in parentheses, and the body in braces.
pub open spec fn function_declaration(t: Seq<Token>, p: nat) -> Parsed<StatementView>
    decreases remaining(t, p), 35nat,
{
    match consume(t, p, TokenType::Identifier) {
        Ok((name, q1)) => match consume(t, q1, TokenType::LeftParen) {
            Ok((_, q2)) => {
                let list = if check(t, q2, TokenType::RightParen) {
                    Ok((Seq::empty(), q2))
                } else {
                    progress(t, p, parameters(t, q2))
                };
                match list {
                    Ok((params, q3)) => match consume(t, q3, TokenType::RightParen) {
                        Ok((_, q4)) => match consume(t, q4, TokenType::LeftBrace) {
                            Ok((_, q5)) => match block_statement(t, q5) {
                                Ok((body, q6)) => Ok(
                                    (
                                        StatementView::Function {
                                            name,
                                            params,
                                            body: Box::new(body),
                                        },
                                        q6,
                                    ),
                                ),
                                Err(e) => Err(e),
                            },
                            Err(e) => Err(e),
                        },
                        Err(e) => Err(e),
                    },
                    Err(e) => Err(e),
                }
            },
            Err(e) => Err(e),
        },
        Err(e) => Err(e),
    }
}

/// The methods of a class, up to the brace that closes it.
pub open spec fn methods(t: Seq<Token>, p: nat) -> Parsed<Seq<StatementView>>
    decreases remaining(t, p), 36nat,
{
    if check(t, p, TokenType::RightBrace) || ended(t, p) {
        Ok((Seq::empty(), p))
    } else {
        match progress(t, p, function_declaration(t, p)) {
            Ok((method, q1)) => match methods(t, q1) {
                Ok((rest, q2)) => Ok((seq![method] + rest, q2)),
                Err(e) => Err(e),
            },
            Err(e) => Err(e),
        }
    }
}

/// What follows `class`: the name, after '<' the name of the class above,
/// and the methods in braces.
pub open spec fn class_declaration(t: Seq<Token>, p: nat) -> Parsed<StatementView>
    decreases remaining(t, p), 37nat,
{
    match consume(t, p, TokenType::Identifier) {
        Ok((name, q1)) => {
            let above = if check(t, q1, TokenType::Less) {
                match consume(t, q1 + 1, TokenType::Identifier) {
                    Ok((token, q2)) => Ok((Some(ExpressionView::Variable { name: token }), q2)),
                    Err(e) => Err(e),
                }
            } else {
                Ok((None, q1))
            };
            match above {
                Ok((superclass, q2)) => match consume(t, q2, TokenType::LeftBrace) {
                    Ok((_, q3)) => match progress(t, p, methods(t, q3)) {
                        Ok((list, q4)) => match consume(t, q4, TokenType::RightBrace) {
                            Ok((_, q5)) => Ok(
                                (StatementView::Class { name, superclass, methods: list }, q5),
                            ),
                            Err(e) => Err(e),
                        },
                        Err(e) => Err(e),
                    },
                    Err(e) => Err(e),
                },
                Err(e) => Err(e),
            }
        },
        Err(e) => Err(e),
    }
}

/// declaration := 'fun' … | 'class' … | 'var' … | statement
pub open spec fn declaration(t: Seq<Token>, p: nat) -> Parsed<StatementView>
    decreases remaining(t, p), 40nat,
{
    if check(t, p, TokenType::Fun) {
        function_declaration(t, p + 1)
    } else if check(t, p, TokenType::Class) {
        class_declaration(t, p + 1)
    } else if check(t, p, TokenType::Var) {
        var_declaration(t, p + 1)
    } else {
        statement(t, p)
    }
}

/// The declarations of a block, up to the brace that closes it.
pub open spec fn block_items(t: Seq<Token>, p: nat) -> Parsed<Seq<StatementView>>
    decreases remaining(t, p), 41nat,
{
    if check(t, p, TokenType::RightBrace) || ended(t, p) {
        Ok((Seq::empty(), p))
    } else {
        match progress(t, p, declaration(t, p)) {
            Ok((first, q1)) => match block_items(t, q1) {
                Ok((rest, q2)) => Ok((seq![first] + rest, q2)),
                Err(e) => Err(e),
            },
            Err(e) => Err(e),
        }
    }
}

/// What follows '{': declarations, and '}'.
pub open spec fn block_statement(t: Seq<Token>, p: nat) -> Parsed<StatementView>
    decreases remaining(t, p), 45nat,
{
    match block_items(t, p) {
        Ok((statements, q1)) => match consume(t, q1, TokenType::RightBrace) {
            Ok((_, q2)) => Ok((StatementView::Block { statements }, q2)),
            Err(e) => Err(e),
        },
        Err(e) => Err(e),
    }
}

/// Whether a declaration may begin with a token of this kind.
pub open spec fn starts_declaration(kind: TokenType) -> bool {
    kind == TokenType::Class || kind == TokenType::Fun || kind == TokenType::Var || kind
        == TokenType::For || kind == TokenType::If || kind == TokenType::While || kind
        == TokenType::Return
}

/// The first position from `p` on at which parsing can begin anew: behind
/// a ';', before a token with which a declaration begins, or at the end.
pub open spec fn boundary(t: Seq<Token>, p: nat) -> nat
    decreases remaining(t, p),
{
    if ended(t, p) {
        p
    } else if p >= 1 && t[p - 1].kind == TokenType::Semicolon {
        p
    } else if starts_declaration(t[p as int].kind) {
        p
    } else {
        boundary(t, p + 1)
    }
}

/// Where parsing goes on after an error at `p`: the token there is given
/// up, and so is every token up to the next boundary.
pub open spec fn synchronized(t: Seq<Token>, p: nat) -> nat {
    if ended(t, p) {
        p
    } else {
        boundary(t, p + 1)
    }
}

/// program := declaration*
///
/// The statements that the tokens from `p` on stand for, and the errors of
/// the declarations among them that are none. After an error parsing goes
/// on at the next boundary, so that one error does not hide the
/// statements behind it.
#[verifier::opaque]
pub open spec fn program(t: Seq<Token>, p: nat) -> (Seq<StatementView>, Seq<ParserError>)
    decreases remaining(t, p), 50nat,
{
    if ended(t, p) {
        (Seq::empty(), Seq::empty())
    } else {
        match progress(t, p, declaration(t, p)) {
            Ok((first, q1)) => {
                let rest = program(t, q1);
                (seq![first] + rest.0, rest.1)
            },
            Err((error, stopped)) => {
                let next = synchronized(t, stopped);
                if p < next <= t.len() {
                    let rest = program(t, next);
                    (rest.0, seq![error] + rest.1)
                } else {
                    (Seq::empty(), seq![error])
                }
            },
        }
    }
}

/// A list that was read, with `prefix` before it.
pub open spec fn prefixed<T>(prefix: Seq<T>, result: Parsed<Seq<T>>) -> Parsed<Seq<T>> {
    match result {
        Ok((list, p)) => Ok((prefix + list, p)),
        Err(e) => Err(e),
    }
}

/// Where a declaration is read, the program is that declaration and the
/// program behind it.
pub proof fn law_program_goes_on(t: Seq<Token>, p: nat, first: StatementView, next: nat)
    requires
        !ended(t, p),
        declaration(t, p) == Ok::<(StatementView, nat), (ParserError, nat)>((first, next)),
        p < next <= t.len(),
    ensures
        program(t, p).0 == seq![first] + program(t, next).0,
        program(t, p).1 == program(t, next).1,
{
    reveal(program);
}

/// At the end of the tokens the program is empty.
pub proof fn law_program_ends(t: Seq<Token>, p: nat)
    requires
        ended(t, p),
    ensures
        program(t, p).0 == Seq::<StatementView>::empty(),
        program(t, p).1 == Seq::<ParserError>::empty(),
{
    reveal(program);
}

/// An error in one declaration does not hide the declarations behind it:
/// where a declaration cannot be read, the statements of the program are
/// those of the program behind the next boundary, and its errors are the
/// error of the declaration and the errors behind.
pub proof fn law_program_recovers(t: Seq<Token>, p: nat, error: ParserError, stopped: nat)
    requires
        !ended(t, p),
        declaration(t, p) == Err::<(StatementView, nat), (ParserError, nat)>(
            (error, stopped),
        ),
        p < synchronized(t, stopped) <= t.len(),
    ensures
        program(t, p).0 == program(t, synchronized(t, stopped)).0,
        program(t, p).1 == seq![error] + program(
            t,
            synchronized(t, stopped),
        ).1,
{
    reveal(program);
}

/// Recovery moves on and stops at a boundary: behind an error that is not
/// at the end, parsing goes on further on, and there the input is at its
/// end, or a ';' was just passed, or a declaration may begin.
pub proof fn law_recovery_moves_on(t: Seq<Token>, p: nat)
    requires
        !ended(t, p),
    ensures
        p < synchronized(t, p) <= t.len(),
        ended(t, synchronized(t, p)) || t[synchronized(t, p) - 1].kind == TokenType::Semicolon
            || starts_declaration(t[synchronized(t, p) as int].kind),
{
    lemma_boundary(t, p + 1);
}

proof fn lemma_boundary(t: Seq<Token>, p: nat)
    requires
        1 <= p <= t.len(),
    ensures
        p <= boundary(t, p) <= t.len(),
        ended(t, boundary(t, p)) || t[boundary(t, p) - 1].kind == TokenType::Semicolon
            || starts_declaration(t[boundary(t, p) as int].kind),
    decreases remaining(t, p),
{
    if ended(t, p) {
    } else if t[p - 1].kind == TokenType::Semicolon {
    } else if starts_declaration(t[p as int].kind) {
    } else {
        lemma_boundary(t, p + 1);
    }
}

} // verus!
