//! The parser: from tokens to statement trees, by recursive descent.

pub mod error;
pub mod grammar;
pub mod node;

use crate::parser::error::{ParserError, ParserErrorMessage};
use crate::parser::grammar::Parsed;
use crate::parser::node::{
    expressions_view, statements_view, Expression, ExpressionView, Statement, StatementView,
};
use crate::token::{Literal, Token, TokenType};
use vstd::prelude::*;

verus! {

/// A parser: the tokens, the position of the next one to read, and the
/// errors of the declarations that could not be parsed.
#[derive(Debug)]
pub struct Parser {
    tokens: Vec<Token>,
    current: usize,
    errors: Vec<ParserError>,
}

impl Parser {
    /// The tokens.
    pub closed spec fn tokens(&self) -> Seq<Token> {
        self.tokens@
    }

    /// The position of the next token to read.
    pub closed spec fn position(&self) -> nat {
        self.current as nat
    }

    /// The errors met so far, in the order in which they were met.
    pub closed spec fn reported(&self) -> Seq<ParserError> {
        self.errors@
    }

    /// Whether `self` is `before` after some tokens were read: the tokens
    /// and the errors are the same, and the position has not gone back, nor
    /// past the end.
    pub open spec fn follows(&self, before: &Parser) -> bool {
        &&& self.tokens() == before.tokens()
        &&& self.reported() == before.reported()
        &&& before.position() <= self.position()
        &&& before.position() <= before.tokens().len() ==> self.position() <= self.tokens().len()
    }

    /// A parser at the first of `tokens`.
    pub fn new(tokens: Vec<Token>) -> (r: Self)
        ensures
            r.tokens() == tokens@,
            r.position() == 0,
            r.reported() == Seq::<ParserError>::empty(),
    {
        Self { tokens, current: 0, errors: Vec::new() }
    }

    /// The errors met so far.
    pub fn errors(&self) -> (r: &Vec<ParserError>)
        ensures
            r@ == self.reported(),
    {
        &self.errors
    }

    /// Whether nothing is left to read.
    fn is_at_end(&self) -> (r: bool)
        ensures
            r == grammar::ended(self.tokens(), self.position()),
    {
        self.current >= self.tokens.len() || self.tokens[self.current].kind
            == TokenType::EndOfFile
    }

    /// Whether the next token is of the kind `kind`.
    fn check(&self, kind: TokenType) -> (r: bool)
        ensures
            r == grammar::check(self.tokens(), self.position(), kind),
            r ==> self.position() < self.tokens().len(),
    {
        !self.is_at_end() && self.tokens[self.current].kind == kind
    }

    /// The next token.
    fn peek(&self) -> (r: Result<Token, ParserError>)
        ensures
            match r {
                Ok(token) => self.position() < self.tokens().len() && token
                    == self.tokens()[self.position() as int],
                Err(e) => self.position() >= self.tokens().len() && e == (ParserError {
                    message: ParserErrorMessage::GetTokenError,
                    token: None,
                }),
            },
    {
        if self.current < self.tokens.len() {
            Ok(self.tokens[self.current].clone())
        } else {
            Err(ParserError { message: ParserErrorMessage::GetTokenError, token: None })
        }
    }

    /// The token that was read last.
    fn previous(&self) -> (r: Result<Token, ParserError>)
        ensures
            match r {
                Ok(token) => 1 <= self.position() <= self.tokens().len() && token
                    == self.tokens()[self.position() - 1],
                Err(e) => !(1 <= self.position() <= self.tokens().len()) && e == (ParserError {
                    message: ParserErrorMessage::GetTokenError,
                    token: None,
                }),
            },
    {
        if 1 <= self.current && self.current <= self.tokens.len() {
            Ok(self.tokens[self.current - 1].clone())
        } else {
            Err(ParserError { message: ParserErrorMessage::GetTokenError, token: None })
        }
    }

    /// Reads the next token, unless nothing is left to read, and gives the
    /// token that was read last.
    fn advance(&mut self) -> (r: Result<Token, ParserError>)
        ensures
            final(self).follows(old(self)),
            final(self).position() == old(self).position() + (if grammar::ended(
                old(self).tokens(),
                old(self).position(),
            ) {
                0int
            } else {
                1int
            }),
            !grammar::ended(old(self).tokens(), old(self).position()) ==> r == Ok::<
                Token,
                ParserError,
            >(old(self).tokens()[old(self).position() as int]),
    {
        if self.current < self.tokens.len() && !self.is_at_end() {
            self.current += 1;
        }
        self.previous()
    }

    /// Reads the next token if it is of one of the kinds `kinds`, and says
    /// whether it did.
    fn match_tokens(&mut self, kinds: &[TokenType]) -> (r: bool)
        ensures
            final(self).follows(old(self)),
            r == (exists|i: int|
                0 <= i < kinds@.len() && grammar::check(
                    old(self).tokens(),
                    old(self).position(),
                    #[trigger] kinds@[i],
                )),
            final(self).position() == old(self).position() + (if r {
                1int
            } else {
                0int
            }),
            r ==> old(self).position() < old(self).tokens().len(),
    {
        let mut i: usize = 0;
        while i < kinds.len()
            invariant
                *self == *old(self),
                i <= kinds@.len(),
                forall|j: int|
                    0 <= j < i ==> !grammar::check(
                        self.tokens(),
                        self.position(),
                        #[trigger] kinds@[j],
                    ),
            decreases kinds@.len() - i,
        {
            if self.check(kinds[i]) {
                let _ = self.advance();
                return true;
            }
            i += 1;
        }
        false
    }

    /// Reads a token of the kind `kind`. Where another token stands, that
    /// token is not read and the error holds it.
    fn consume(&mut self, kind: TokenType) -> (r: Result<Token, ParserError>)
        ensures
            final(self).follows(old(self)),
            match r {
                Ok(token) => grammar::consume(old(self).tokens(), old(self).position(), kind)
                    == Ok::<(Token, nat), (ParserError, nat)>((token, final(self).position())),
                Err(e) => grammar::consume(old(self).tokens(), old(self).position(), kind) == Err::<
                    (Token, nat),
                    (ParserError, nat),
                >((e, final(self).position())),
            },
    {
        if !self.check(kind) {
            return match self.peek() {
                Ok(token) => Err(
                    ParserError { message: ParserErrorMessage::ExpectToken(kind), token: Some(token) },
                ),
                Err(e) => Err(e),
            };
        }
        self.advance()
    }
}

impl Parser {
    /// Whether `result` is what the grammar gives, `expected`, and `self` is
    /// `before` after the tokens of it were read. Reading a tree moves on.
    pub open spec fn gives_expression(
        &self,
        before: &Parser,
        result: Result<Expression, ParserError>,
        expected: Parsed<ExpressionView>,
    ) -> bool {
        &&& self.follows(before)
        &&& match result {
            Ok(e) => {
                &&& expected matches Ok((view, p))
                &&& view == e@
                &&& p == self.position()
                &&& before.position() < self.position() <= self.tokens().len()
            },
            Err(error) => expected matches Err((e, p)) && e == error && p == self.position(),
        }
    }

    /// Reads the next token if it is of the kind `kind`, and says whether
    /// it did.
    fn match_token(&mut self, kind: TokenType) -> (r: bool)
        ensures
            final(self).follows(old(self)),
            r == grammar::check(old(self).tokens(), old(self).position(), kind),
            final(self).position() == old(self).position() + (if r {
                1int
            } else {
                0int
            }),
            r ==> old(self).position() < old(self).tokens().len(),
    {
        let kinds = [kind];
        let r = self.match_tokens(&kinds);
        proof {
            assert(kinds@[0] == kind);
        }
        r
    }

    /// primary := literal | identifier | 'this' | '(' expression ')'
    fn primary(&mut self) -> (r: Result<Expression, ParserError>)
        ensures
            final(self).gives_expression(
                old(self),
                r,
                grammar::primary(old(self).tokens(), old(self).position()),
            ),
        decreases grammar::remaining(old(self).tokens(), old(self).position()), 0nat,
    {
        if self.match_token(TokenType::False) {
            return Ok(Expression::Literal { value: Literal::Bool(false) });
        }
        if self.match_token(TokenType::True) {
            return Ok(Expression::Literal { value: Literal::Bool(true) });
        }
        if self.match_token(TokenType::Nil) {
            return Ok(Expression::Literal { value: Literal::Nil });
        }
        if self.match_token(TokenType::Number) || self.match_token(TokenType::String) {
            let token = &self.tokens[self.current - 1];
            return match &token.value {
                Some(value) => Ok(Expression::Literal { value: value.clone() }),
                None => Err(
                    ParserError {
                        message: ParserErrorMessage::LiteralTokenWithoutValue,
                        token: Some(token.clone()),
                    },
                ),
            };
        }
        if self.match_token(TokenType::Identifier) {
            return Ok(Expression::Variable { name: self.tokens[self.current - 1].clone() });
        }
        if self.match_token(TokenType::This) {
            return Ok(Expression::This { keyword: self.tokens[self.current - 1].clone() });
        }
        if self.match_token(TokenType::LeftParen) {
            let inner = match self.expression() {
                Ok(inner) => inner,
                Err(e) => {
                    return Err(e);
                },
            };
            return match self.consume(TokenType::RightParen) {
                Ok(_) => Ok(Expression::Grouping { expression: Box::new(inner) }),
                Err(e) => Err(e),
            };
        }
        match self.peek() {
            Ok(token) => Err(
                ParserError { message: ParserErrorMessage::UnexpectedTokenType, token: Some(token) },
            ),
            Err(e) => Err(e),
        }
    }

    /// arguments := expression ( ',' expression )*
    fn arguments(&mut self) -> (r: Result<Vec<Expression>, ParserError>)
        ensures
            final(self).follows(old(self)),
            match r {
                Ok(list) => {
                    &&& grammar::arguments(old(self).tokens(), old(self).position()) matches Ok(
                        (views, p),
                    )
                    &&& views == expressions_view(list@)
                    &&& p == final(self).position()
                    &&& old(self).position() < final(self).position() <= final(self).tokens().len()
                },
                Err(error) => grammar::arguments(old(self).tokens(), old(self).position())
                    matches Err((e, p)) && e == error && p == final(self).position(),
            },
        decreases grammar::remaining(old(self).tokens(), old(self).position()), 22nat,
    {
        let mut list: Vec<Expression> = Vec::new();
        let ghost t = self.tokens();
        let ghost start = self.position();
        proof {
            assert(expressions_view(list@) =~= Seq::empty());
            match grammar::arguments(t, start) {
                Ok((l, p)) => {
                    assert(Seq::<ExpressionView>::empty() + l =~= l);
                },
                Err(_) => {},
            }
        }
        loop
            invariant
                self.follows(old(self)),
                t == self.tokens(),
                start == old(self).position(),
                start <= self.position(),
                list@.len() > 0 ==> start < self.position() <= t.len(),
                grammar::arguments(t, start) == grammar::prefixed(
                    expressions_view(list@),
                    grammar::arguments(t, self.position()),
                ),
            decreases grammar::remaining(t, self.position()),
        {
            let ghost here = self.position();
            let ghost before = expressions_view(list@);
            match self.expression() {
                Ok(e) => {
                    list.push(e);
                    proof {
                        assert(expressions_view(list@) =~= before + seq![e@]);
                    }
                },
                Err(e) => {
                    return Err(e);
                },
            }
            let ghost behind = self.position();
            if !self.match_token(TokenType::Comma) {
                proof {
                    assert(grammar::arguments(t, here) == Ok::<
                        (Seq<ExpressionView>, nat),
                        (ParserError, nat),
                    >((seq![list@.last()@], behind)));
                }
                return Ok(list);
            }
            proof {
                match grammar::arguments(t, self.position()) {
                    Ok((rest, p)) => {
                        assert(before + (seq![list@.last()@] + rest) =~= (before + seq![
                            list@.last()@,
                        ]) + rest);
                    },
                    Err(_) => {},
                }
            }
        }
    }

    /// call := primary ( '(' arguments? ')' )*
    fn call(&mut self) -> (r: Result<Expression, ParserError>)
        ensures
            final(self).gives_expression(
                old(self),
                r,
                grammar::call(old(self).tokens(), old(self).position()),
            ),
        decreases grammar::remaining(old(self).tokens(), old(self).position()), 1nat,
    {
        let ghost t = self.tokens();
        let ghost start = self.position();
        let mut expr = match self.primary() {
            Ok(e) => e,
            Err(e) => {
                return Err(e);
            },
        };
        loop
            invariant
                self.follows(old(self)),
                t == self.tokens(),
                start == old(self).position(),
                start < self.position() <= t.len(),
                grammar::call(t, start) == grammar::call_rest(t, self.position(), expr@),
            decreases grammar::remaining(t, self.position()),
        {
            if !self.match_token(TokenType::LeftParen) {
                return Ok(expr);
            }
            let mut arguments: Vec<Expression> = Vec::new();
            if !self.check(TokenType::RightParen) {
                match self.arguments() {
                    Ok(list) => {
                        arguments = list;
                    },
                    Err(e) => {
                        return Err(e);
                    },
                }
            } else {
                proof {
                    assert(expressions_view(arguments@) =~= Seq::empty());
                }
            }
            let paren = match self.consume(TokenType::RightParen) {
                Ok(token) => token,
                Err(e) => {
                    return Err(e);
                },
            };
            let ghost callee = expr@;
            let ghost views = expressions_view(arguments@);
            expr = Expression::Call { callee: Box::new(expr), paren, arguments };
            proof {
                assert(expr@ == ExpressionView::Call {
                    callee: Box::new(callee),
                    paren,
                    arguments: expr@->arguments,
                });
                assert(expr@->arguments =~= views);
            }
        }
    }

    /// unary := ( '!' | '-' ) unary | call
    fn unary(&mut self) -> (r: Result<Expression, ParserError>)
        ensures
            final(self).gives_expression(
                old(self),
                r,
                grammar::unary(old(self).tokens(), old(self).position()),
            ),
        decreases grammar::remaining(old(self).tokens(), old(self).position()), 2nat,
    {
        if self.match_token(TokenType::Bang) || self.match_token(TokenType::Minus) {
            let operator = self.tokens[self.current - 1].clone();
            return match self.unary() {
                Ok(right) => Ok(Expression::Unary { operator, right: Box::new(right) }),
                Err(e) => Err(e),
            };
        }
        self.call()
    }

    fn operand(&mut self, level: usize) -> (r: Result<Expression, ParserError>)
        requires
            level <= 5,
        ensures
            final(self).gives_expression(
                old(self),
                r,
                grammar::operand(old(self).tokens(), old(self).position(), level as nat),
            ),
        decreases grammar::remaining(old(self).tokens(), old(self).position()), 3 + 2 * level,
    {
        if level == 0 {
            self.unary()
        } else {
            self.chain(level - 1)
        }
    }

    /// A chain of operands of the given level, joined by operators of that
    /// level and grouped from the left.
    fn chain(&mut self, level: usize) -> (r: Result<Expression, ParserError>)
        requires
            level <= 5,
        ensures
            final(self).gives_expression(
                old(self),
                r,
                grammar::chain(old(self).tokens(), old(self).position(), level as nat),
            ),
        decreases grammar::remaining(old(self).tokens(), old(self).position()), 4 + 2 * level,
    {
        let ghost t = self.tokens();
        let ghost start = self.position();
        let mut expr = match self.operand(level) {
            Ok(e) => e,
            Err(e) => {
                return Err(e);
            },
        };
        loop
            invariant
                level <= 5,
                self.follows(old(self)),
                t == self.tokens(),
                start == old(self).position(),
                start < self.position() <= t.len(),
                grammar::chain(t, start, level as nat) == grammar::chain_rest(
                    t,
                    self.position(),
                    level as nat,
                    expr@,
                ),
            decreases grammar::remaining(t, self.position()),
        {
            if self.current >= self.tokens.len() || self.is_at_end() || !is_level_operator(
                level,
                self.tokens[self.current].kind,
            ) {
                return Ok(expr);
            }
            let operator = self.tokens[self.current].clone();
            self.current += 1;
            let right = match self.operand(level) {
                Ok(e) => e,
                Err(e) => {
                    return Err(e);
                },
            };
            expr = if level >= 4 {
                Expression::Logical { left: Box::new(expr), operator, right: Box::new(right) }
            } else {
                Expression::Binary { left: Box::new(expr), operator, right: Box::new(right) }
            };
        }
    }

    /// or := and ( 'or' and )*
    fn or(&mut self) -> (r: Result<Expression, ParserError>)
        ensures
            final(self).gives_expression(
                old(self),
                r,
                grammar::chain(old(self).tokens(), old(self).position(), 5),
            ),
        decreases grammar::remaining(old(self).tokens(), old(self).position()), 15nat,
    {
        self.chain(5)
    }

    /// assignment := or '=' assignment | or
    fn assignment(&mut self) -> (r: Result<Expression, ParserError>)
        ensures
            final(self).gives_expression(
                old(self),
                r,
                grammar::assignment(old(self).tokens(), old(self).position()),
            ),
        decreases grammar::remaining(old(self).tokens(), old(self).position()), 20nat,
    {
        let expr = match self.or() {
            Ok(e) => e,
            Err(e) => {
                return Err(e);
            },
        };
        if self.match_token(TokenType::Equal) {
            let equals = self.tokens[self.current - 1].clone();
            let value = match self.assignment() {
                Ok(e) => e,
                Err(e) => {
                    return Err(e);
                },
            };
            return match expr {
                Expression::Variable { name } => Ok(
                    Expression::Assign { name, value: Box::new(value) },
                ),
                _ => Err(
                    ParserError {
                        message: ParserErrorMessage::InvalidAssignment,
                        token: Some(equals),
                    },
                ),
            };
        }
        Ok(expr)
    }

    /// expression := assignment
    fn expression(&mut self) -> (r: Result<Expression, ParserError>)
        ensures
            final(self).gives_expression(
                old(self),
                r,
                grammar::expression(old(self).tokens(), old(self).position()),
            ),
        decreases grammar::remaining(old(self).tokens(), old(self).position()), 21nat,
    {
        self.assignment()
    }
}

/// Whether `kind` is an operator of the given level of binding.
fn is_level_operator(level: usize, kind: TokenType) -> (r: bool)
    ensures
        r == grammar::level_operator(level as nat, kind),
{
    if level == 0 {
        kind == TokenType::Slash || kind == TokenType::Star
    } else if level == 1 {
        kind == TokenType::Minus || kind == TokenType::Plus
    } else if level == 2 {
        kind == TokenType::Greater || kind == TokenType::GreaterEqual || kind == TokenType::Less
            || kind == TokenType::LessEqual
    } else if level == 3 {
        kind == TokenType::BangEqual || kind == TokenType::EqualEqual
    } else if level == 4 {
        kind == TokenType::And
    } else {
        kind == TokenType::Or
    }
}

/// Whether a declaration may begin with a token of this kind.
fn is_declaration_start(kind: TokenType) -> (r: bool)
    ensures
        r == grammar::starts_declaration(kind),
{
    kind == TokenType::Class || kind == TokenType::Fun || kind == TokenType::Var || kind
        == TokenType::For || kind == TokenType::If || kind == TokenType::While || kind
        == TokenType::Return
}

/// Writes a `for` loop as a block and a `while` loop.
fn for_loop(
    initializer: Option<Statement>,
    condition: Option<Expression>,
    increment: Option<Expression>,
    body: Statement,
) -> (r: Statement)
    ensures
        r@ == grammar::for_loop(
            match initializer {
                Some(s) => Some(s@),
                None => None,
            },
            match condition {
                Some(e) => Some(e@),
                None => None,
            },
            match increment {
                Some(e) => Some(e@),
                None => None,
            },
            body@,
        ),
{
    let ghost body_view = body@;
    let inner = match increment {
        Some(expression) => {
            let ghost expression_view = expression@;
            let mut statements: Vec<Statement> = Vec::new();
            statements.push(body);
            statements.push(Statement::Expression { expression: Box::new(expression) });
            proof {
                assert(statements@[0]@ == body_view);
                assert(statements@[1]@ == StatementView::Expression {
                    expression: expression_view,
                });
            }
            let ghost items = statements@;
            let block = Statement::Block { statements };
            proof {
                assert(block@->statements =~= seq![items[0]@, items[1]@]);
            }
            block
        },
        None => body,
    };
    let ghost inner_view = inner@;
    let condition = match condition {
        Some(expression) => expression,
        None => Expression::Literal { value: Literal::Bool(true) },
    };
    let repeated = Statement::While { condition: Box::new(condition), body: Box::new(inner) };
    let ghost repeated_view = repeated@;
    match initializer {
        Some(first) => {
            let ghost first_view = first@;
            let mut statements: Vec<Statement> = Vec::new();
            statements.push(first);
            statements.push(repeated);
            proof {
                assert(statements@[0]@ == first_view);
                assert(statements@[1]@ == repeated_view);
            }
            let ghost items = statements@;
            let block = Statement::Block { statements };
            proof {
                assert(block@->statements =~= seq![items[0]@, items[1]@]);
            }
            block
        },
        None => repeated,
    }
}

impl Parser {
    /// Whether `result` is what the grammar gives, `expected`, and `self` is
    /// `before` after the tokens of it were read. Reading a tree moves on.
    pub open spec fn gives_statement(
        &self,
        before: &Parser,
        result: Result<Statement, ParserError>,
        expected: Parsed<StatementView>,
    ) -> bool {
        &&& self.follows(before)
        &&& match result {
            Ok(s) => {
                &&& expected matches Ok((view, p))
                &&& view == s@
                &&& p == self.position()
                &&& before.position() < self.position() <= self.tokens().len()
            },
            Err(error) => expected matches Err((e, p)) && e == error && p == self.position(),
        }
    }

    /// expressionStatement := expression ';'
    fn expression_statement(&mut self) -> (r: Result<Statement, ParserError>)
        ensures
            final(self).gives_statement(
                old(self),
                r,
                grammar::expression_statement(old(self).tokens(), old(self).position()),
            ),
        decreases grammar::remaining(old(self).tokens(), old(self).position()), 25nat,
    {
        let expression = match self.expression() {
            Ok(e) => e,
            Err(e) => {
                return Err(e);
            },
        };
        match self.consume(TokenType::Semicolon) {
            Ok(_) => Ok(Statement::Expression { expression: Box::new(expression) }),
            Err(e) => Err(e),
        }
    }

    /// What follows `return`: an expression or nothing, and ';'.
    fn return_statement(&mut self) -> (r: Result<Statement, ParserError>)
        ensures
            final(self).follows(old(self)),
            match r {
                Ok(s) => {
                    &&& grammar::return_statement(old(self).tokens(), old(self).position())
                        matches Ok((view, p))
                    &&& view == s@
                    &&& p == final(self).position()
                    &&& old(self).position() < final(self).position() <= final(self).tokens().len()
                },
                Err(error) => grammar::return_statement(old(self).tokens(), old(self).position())
                    matches Err((e, p)) && e == error && p == final(self).position(),
            },
        decreases grammar::remaining(old(self).tokens(), old(self).position()), 26nat,
    {
        if self.match_token(TokenType::Semicolon) {
            return Ok(Statement::Return { value: None });
        }
        let value = match self.expression() {
            Ok(e) => e,
            Err(e) => {
                return Err(e);
            },
        };
        match self.consume(TokenType::Semicolon) {
            Ok(_) => Ok(Statement::Return { value: Some(Box::new(value)) }),
            Err(e) => Err(e),
        }
    }

    /// What follows `var`: the name, an initializer or none, and ';'.
    fn var_declaration(&mut self) -> (r: Result<Statement, ParserError>)
        ensures
            final(self).gives_statement(
                old(self),
                r,
                grammar::var_declaration(old(self).tokens(), old(self).position()),
            ),
        decreases grammar::remaining(old(self).tokens(), old(self).position()), 27nat,
    {
        let name = match self.consume(TokenType::Identifier) {
            Ok(token) => token,
            Err(e) => {
                return Err(e);
            },
        };
        let mut initializer: Option<Box<Expression>> = None;
        if self.match_token(TokenType::Equal) {
            match self.expression() {
                Ok(e) => {
                    initializer = Some(Box::new(e));
                },
                Err(e) => {
                    return Err(e);
                },
            }
        }
        match self.consume(TokenType::Semicolon) {
            Ok(_) => Ok(Statement::Var { name, initializer }),
            Err(e) => Err(e),
        }
    }

    /// What follows `while`: the condition in parentheses, and the body.
    fn while_statement(&mut self) -> (r: Result<Statement, ParserError>)
        ensures
            final(self).gives_statement(
                old(self),
                r,
                grammar::while_statement(old(self).tokens(), old(self).position()),
            ),
        decreases grammar::remaining(old(self).tokens(), old(self).position()), 28nat,
    {
        match self.consume(TokenType::LeftParen) {
            Ok(_) => {},
            Err(e) => {
                return Err(e);
            },
        }
        let condition = match self.expression() {
            Ok(e) => e,
            Err(e) => {
                return Err(e);
            },
        };
        match self.consume(TokenType::RightParen) {
            Ok(_) => {},
            Err(e) => {
                return Err(e);
            },
        }
        match self.statement() {
            Ok(body) => Ok(
                Statement::While { condition: Box::new(condition), body: Box::new(body) },
            ),
            Err(e) => Err(e),
        }
    }

    /// What follows `if`: the condition in parentheses, the statement for
    /// true, and after `else` the statement for false.
    fn if_statement(&mut self) -> (r: Result<Statement, ParserError>)
        ensures
            final(self).gives_statement(
                old(self),
                r,
                grammar::if_statement(old(self).tokens(), old(self).position()),
            ),
        decreases grammar::remaining(old(self).tokens(), old(self).position()), 28nat,
    {
        match self.consume(TokenType::LeftParen) {
            Ok(_) => {},
            Err(e) => {
                return Err(e);
            },
        }
        let condition = match self.expression() {
            Ok(e) => e,
            Err(e) => {
                return Err(e);
            },
        };
        match self.consume(TokenType::RightParen) {
            Ok(_) => {},
            Err(e) => {
                return Err(e);
            },
        }
        let then_branch = match self.statement() {
            Ok(s) => s,
            Err(e) => {
                return Err(e);
            },
        };
        let mut else_branch: Option<Box<Statement>> = None;
        if self.match_token(TokenType::Else) {
            match self.statement() {
                Ok(s) => {
                    else_branch = Some(Box::new(s));
                },
                Err(e) => {
                    return Err(e);
                },
            }
        }
        Ok(
            Statement::If {
                condition: Box::new(condition),
                then_branch: Box::new(then_branch),
                else_branch,
            },
        )
    }

    fn for_initializer(&mut self) -> (r: Result<Option<Statement>, ParserError>)
        ensures
            final(self).follows(old(self)),
            match r {
                Ok(s) => {
                    &&& grammar::for_initializer(old(self).tokens(), old(self).position())
                        matches Ok((view, p))
                    &&& view == (match s {
                        Some(s) => Some(s@),
                        None => None,
                    })
                    &&& p == final(self).position()
                    &&& old(self).position() < final(self).position() <= final(self).tokens().len()
                },
                Err(error) => grammar::for_initializer(old(self).tokens(), old(self).position())
                    matches Err((e, p)) && e == error && p == final(self).position(),
            },
        decreases grammar::remaining(old(self).tokens(), old(self).position()), 28nat,
    {
        if self.match_token(TokenType::Semicolon) {
            Ok(None)
        } else if self.match_token(TokenType::Var) {
            match self.var_declaration() {
                Ok(s) => Ok(Some(s)),
                Err(e) => Err(e),
            }
        } else {
            match self.expression_statement() {
                Ok(s) => Ok(Some(s)),
                Err(e) => Err(e),
            }
        }
    }

    fn for_clause(&mut self, closing: TokenType) -> (r: Result<Option<Expression>, ParserError>)
        ensures
            final(self).follows(old(self)),
            match r {
                Ok(clause) => {
                    &&& grammar::for_clause(old(self).tokens(), old(self).position(), closing)
                        matches Ok((view, p))
                    &&& view == (match clause {
                        Some(e) => Some(e@),
                        None => None,
                    })
                    &&& p == final(self).position()
                    &&& old(self).position() < final(self).position() <= final(self).tokens().len()
                },
                Err(error) => grammar::for_clause(
                    old(self).tokens(),
                    old(self).position(),
                    closing,
                ) matches Err((e, p)) && e == error && p == final(self).position(),
            },
        decreases grammar::remaining(old(self).tokens(), old(self).position()), 28nat,
    {
        let mut clause: Option<Expression> = None;
        if !self.check(closing) {
            match self.expression() {
                Ok(e) => {
                    clause = Some(e);
                },
                Err(e) => {
                    return Err(e);
                },
            }
        }
        match self.consume(closing) {
            Ok(_) => Ok(clause),
            Err(e) => Err(e),
        }
    }

    /// What follows `for`: in parentheses the initializer, the condition
    /// and the increment, and then the body. The loop is written as a
    /// block and a `while` loop.
    fn for_statement(&mut self) -> (r: Result<Statement, ParserError>)
        ensures
            final(self).gives_statement(
                old(self),
                r,
                grammar::for_statement(old(self).tokens(), old(self).position()),
            ),
        decreases grammar::remaining(old(self).tokens(), old(self).position()), 29nat,
    {
        match self.consume(TokenType::LeftParen) {
            Ok(_) => {},
            Err(e) => {
                return Err(e);
            },
        }
        let initializer = match self.for_initializer() {
            Ok(s) => s,
            Err(e) => {
                return Err(e);
            },
        };
        let condition = match self.for_clause(TokenType::Semicolon) {
            Ok(clause) => clause,
            Err(e) => {
                return Err(e);
            },
        };
        let increment = match self.for_clause(TokenType::RightParen) {
            Ok(clause) => clause,
            Err(e) => {
                return Err(e);
            },
        };
        match self.statement() {
            Ok(body) => Ok(for_loop(initializer, condition, increment, body)),
            Err(e) => Err(e),
        }
    }

    /// statement := 'while' … | 'for' … | '{' … | 'if' … | 'return' … |
    /// expressionStatement
    fn statement(&mut self) -> (r: Result<Statement, ParserError>)
        ensures
            final(self).gives_statement(
                old(self),
                r,
                grammar::statement(old(self).tokens(), old(self).position()),
            ),
        decreases grammar::remaining(old(self).tokens(), old(self).position()), 30nat,
    {
        if self.match_token(TokenType::While) {
            return self.while_statement();
        }
        if self.match_token(TokenType::For) {
            return self.for_statement();
        }
        if self.match_token(TokenType::LeftBrace) {
            return self.block_statement();
        }
        if self.match_token(TokenType::If) {
            return self.if_statement();
        }
        if self.match_token(TokenType::Return) {
            return self.return_statement();
        }
        self.expression_statement()
    }

    /// What follows '{': declarations, and '}'.
    fn block_statement(&mut self) -> (r: Result<Statement, ParserError>)
        ensures
            final(self).gives_statement(
                old(self),
                r,
                grammar::block_statement(old(self).tokens(), old(self).position()),
            ),
        decreases grammar::remaining(old(self).tokens(), old(self).position()), 45nat,
    {
        let mut statements: Vec<Statement> = Vec::new();
        let ghost t = self.tokens();
        let ghost start = self.position();
        proof {
            assert(statements_view(statements@) =~= Seq::empty());
            match grammar::block_items(t, start) {
                Ok((l, p)) => {
                    assert(Seq::<StatementView>::empty() + l =~= l);
                },
                Err(_) => {},
            }
        }
        while !(self.check(TokenType::RightBrace) || self.is_at_end())
            invariant
                self.follows(old(self)),
                t == self.tokens(),
                start == old(self).position(),
                start <= self.position(),
                grammar::block_items(t, start) == grammar::prefixed(
                    statements_view(statements@),
                    grammar::block_items(t, self.position()),
                ),
            decreases grammar::remaining(t, self.position()),
        {
            let ghost before = statements_view(statements@);
            let ghost here = self.position();
            match self.declaration() {
                Ok(s) => {
                    statements.push(s);
                    proof {
                        assert(statements_view(statements@) =~= before + seq![statements@.last()@]);
                        match grammar::block_items(t, self.position()) {
                            Ok((rest, p)) => {
                                assert(before + (seq![statements@.last()@] + rest) =~= (before
                                    + seq![statements@.last()@]) + rest);
                            },
                            Err(_) => {},
                        }
                    }
                },
                Err(e) => {
                    return Err(e);
                },
            }
        }
        proof {
            assert(statements_view(statements@) + Seq::<StatementView>::empty()
                =~= statements_view(statements@));
        }
        match self.consume(TokenType::RightBrace) {
            Ok(_) => {
                let ghost views = statements_view(statements@);
                let block = Statement::Block { statements };
                proof {
                    assert(block@->statements =~= views);
                }
                Ok(block)
            },
            Err(e) => Err(e),
        }
    }

    /// The names of parameters: identifiers with ',' between them.
    fn parameters(&mut self) -> (r: Result<Vec<Token>, ParserError>)
        ensures
            final(self).follows(old(self)),
            match r {
                Ok(list) => {
                    &&& grammar::parameters(old(self).tokens(), old(self).position()) matches Ok(
                        (names, p),
                    )
                    &&& names == list@
                    &&& p == final(self).position()
                    &&& old(self).position() < final(self).position() <= final(self).tokens().len()
                },
                Err(error) => grammar::parameters(old(self).tokens(), old(self).position())
                    matches Err((e, p)) && e == error && p == final(self).position(),
            },
    {
        let mut list: Vec<Token> = Vec::new();
        let ghost t = self.tokens();
        let ghost start = self.position();
        proof {
            match grammar::parameters(t, start) {
                Ok((l, p)) => {
                    assert(Seq::<Token>::empty() + l =~= l);
                },
                Err(_) => {},
            }
        }
        loop
            invariant
                self.follows(old(self)),
                t == self.tokens(),
                start == old(self).position(),
                start <= self.position(),
                list@.len() > 0 ==> start < self.position() <= t.len(),
                grammar::parameters(t, start) == grammar::prefixed(
                    list@,
                    grammar::parameters(t, self.position()),
                ),
            decreases grammar::remaining(t, self.position()),
        {
            let ghost before = list@;
            match self.consume(TokenType::Identifier) {
                Ok(name) => {
                    list.push(name);
                },
                Err(e) => {
                    return Err(e);
                },
            }
            if !self.match_token(TokenType::Comma) {
                proof {
                    assert(before + seq![list@.last()] =~= list@);
                }
                return Ok(list);
            }
            proof {
                match grammar::parameters(t, self.position()) {
                    Ok((rest, p)) => {
                        assert(before + (seq![list@.last()] + rest) =~= list@ + rest);
                    },
                    Err(_) => {},
                }
            }
        }
    }

    /// What follows `fun`, and each method of a class: the name, the
    /// parameters in parentheses, and the body in braces.
    fn function_declaration(&mut self) -> (r: Result<Statement, ParserError>)
        ensures
            final(self).gives_statement(
                old(self),
                r,
                grammar::function_declaration(old(self).tokens(), old(self).position()),
            ),
        decreases grammar::remaining(old(self).tokens(), old(self).position()), 35nat,
    {
        let name = match self.consume(TokenType::Identifier) {
            Ok(token) => token,
            Err(e) => {
                return Err(e);
            },
        };
        match self.consume(TokenType::LeftParen) {
            Ok(_) => {},
            Err(e) => {
                return Err(e);
            },
        }
        let mut params: Vec<Token> = Vec::new();
        if !self.check(TokenType::RightParen) {
            match self.parameters() {
                Ok(list) => {
                    params = list;
                },
                Err(e) => {
                    return Err(e);
                },
            }
        }
        match self.consume(TokenType::RightParen) {
            Ok(_) => {},
            Err(e) => {
                return Err(e);
            },
        }
        match self.consume(TokenType::LeftBrace) {
            Ok(_) => {},
            Err(e) => {
                return Err(e);
            },
        }
        match self.block_statement() {
            Ok(body) => Ok(Statement::Function { name, params, body: Box::new(body) }),
            Err(e) => Err(e),
        }
    }

    /// The methods of a class, up to the brace that closes it.
    fn methods(&mut self) -> (r: Result<Vec<Statement>, ParserError>)
        ensures
            final(self).follows(old(self)),
            match r {
                Ok(list) => {
                    &&& grammar::methods(old(self).tokens(), old(self).position()) matches Ok(
                        (views, p),
                    )
                    &&& views == statements_view(list@)
                    &&& p == final(self).position()
                    &&& (final(self).position() <= final(self).tokens().len()
                        || final(self).position() == old(self).position())
                },
                Err(error) => grammar::methods(old(self).tokens(), old(self).position())
                    matches Err((e, p)) && e == error && p == final(self).position(),
            },
        decreases grammar::remaining(old(self).tokens(), old(self).position()), 36nat,
    {
        let mut methods: Vec<Statement> = Vec::new();
        let ghost t = self.tokens();
        let ghost start = self.position();
        proof {
            assert(statements_view(methods@) =~= Seq::empty());
            match grammar::methods(t, start) {
                Ok((l, p)) => {
                    assert(Seq::<StatementView>::empty() + l =~= l);
                },
                Err(_) => {},
            }
        }
        while !(self.check(TokenType::RightBrace) || self.is_at_end())
            invariant
                self.follows(old(self)),
                t == self.tokens(),
                start == old(self).position(),
                start <= self.position(),
                self.position() <= t.len() || self.position() == start,
                grammar::methods(t, start) == grammar::prefixed(
                    statements_view(methods@),
                    grammar::methods(t, self.position()),
                ),
            decreases grammar::remaining(t, self.position()),
        {
            let ghost before = statements_view(methods@);
            match self.function_declaration() {
                Ok(s) => {
                    methods.push(s);
                    proof {
                        assert(statements_view(methods@) =~= before + seq![methods@.last()@]);
                        match grammar::methods(t, self.position()) {
                            Ok((rest, p)) => {
                                assert(before + (seq![methods@.last()@] + rest) =~= (before + seq![
                                    methods@.last()@,
                                ]) + rest);
                            },
                            Err(_) => {},
                        }
                    }
                },
                Err(e) => {
                    return Err(e);
                },
            }
        }
        proof {
            assert(statements_view(methods@) + Seq::<StatementView>::empty() =~= statements_view(
                methods@,
            ));
        }
        Ok(methods)
    }

    /// What follows `class`: the name, after '<' the name of the class
    /// above, and the methods in braces.
    fn class_declaration(&mut self) -> (r: Result<Statement, ParserError>)
        ensures
            final(self).gives_statement(
                old(self),
                r,
                grammar::class_declaration(old(self).tokens(), old(self).position()),
            ),
        decreases grammar::remaining(old(self).tokens(), old(self).position()), 37nat,
    {
        let name = match self.consume(TokenType::Identifier) {
            Ok(token) => token,
            Err(e) => {
                return Err(e);
            },
        };
        let mut superclass: Option<Box<Expression>> = None;
        if self.match_token(TokenType::Less) {
            match self.consume(TokenType::Identifier) {
                Ok(token) => {
                    superclass = Some(Box::new(Expression::Variable { name: token }));
                },
                Err(e) => {
                    return Err(e);
                },
            }
        }
        match self.consume(TokenType::LeftBrace) {
            Ok(_) => {},
            Err(e) => {
                return Err(e);
            },
        }
        let methods = match self.methods() {
            Ok(list) => list,
            Err(e) => {
                return Err(e);
            },
        };
        match self.consume(TokenType::RightBrace) {
            Ok(_) => {
                let ghost views = statements_view(methods@);
                let class = Statement::Class { name, superclass, methods };
                proof {
                    assert(class@->methods =~= views);
                }
                Ok(class)
            },
            Err(e) => Err(e),
        }
    }

    /// declaration := 'fun' … | 'class' … | 'var' … | statement
    fn declaration(&mut self) -> (r: Result<Statement, ParserError>)
        ensures
            final(self).gives_statement(
                old(self),
                r,
                grammar::declaration(old(self).tokens(), old(self).position()),
            ),
        decreases grammar::remaining(old(self).tokens(), old(self).position()), 40nat,
    {
        if self.match_token(TokenType::Fun) {
            return self.function_declaration();
        }
        if self.match_token(TokenType::Class) {
            return self.class_declaration();
        }
        if self.match_token(TokenType::Var) {
            return self.var_declaration();
        }
        self.statement()
    }

    /// Gives up the tokens of a declaration that could not be parsed: the
    /// next token, and every token up to the next place at which parsing
    /// can begin anew.
    fn synchronize(&mut self)
        ensures
            final(self).follows(old(self)),
            final(self).position() == grammar::synchronized(
                old(self).tokens(),
                old(self).position(),
            ),
            !grammar::ended(old(self).tokens(), old(self).position()) ==> old(self).position()
                < final(self).position() <= final(self).tokens().len(),
    {
        if self.current >= self.tokens.len() || self.is_at_end() {
            return;
        }
        self.current += 1;
        while self.current < self.tokens.len() && !self.is_at_end()
            invariant
                self.follows(old(self)),
                old(self).position() < self.position() <= self.tokens().len(),
                grammar::synchronized(old(self).tokens(), old(self).position())
                    == grammar::boundary(self.tokens(), self.position()),
            decreases grammar::remaining(self.tokens(), self.position()),
        {
            if self.tokens[self.current - 1].kind == TokenType::Semicolon {
                return;
            }
            if is_declaration_start(self.tokens[self.current].kind) {
                return;
            }
            self.current += 1;
        }
    }

    /// Parses one declaration. Where that cannot be done, its error is
    /// added to the errors of the parser and its tokens are given up.
    fn declaration_or_recovery(&mut self) -> (r: Option<Statement>)
        requires
            !grammar::ended(old(self).tokens(), old(self).position()),
        ensures
            final(self).tokens() == old(self).tokens(),
            old(self).position() < final(self).position() <= final(self).tokens().len(),
            match r {
                Some(s) => {
                    &&& grammar::program(old(self).tokens(), old(self).position()).0 == seq![s@]
                        + grammar::program(final(self).tokens(), final(self).position()).0
                    &&& grammar::program(old(self).tokens(), old(self).position()).1
                        == grammar::program(final(self).tokens(), final(self).position()).1
                    &&& final(self).reported() == old(self).reported()
                },
                None => {
                    &&& grammar::program(old(self).tokens(), old(self).position()).0
                        == grammar::program(final(self).tokens(), final(self).position()).0
                    &&& final(self).reported().len() == old(self).reported().len() + 1
                    &&& final(self).reported() == old(self).reported().push(
                        final(self).reported().last(),
                    )
                    &&& grammar::program(old(self).tokens(), old(self).position()).1 == seq![
                        final(self).reported().last(),
                    ] + grammar::program(final(self).tokens(), final(self).position()).1
                },
            },
    {
        let ghost t = self.tokens();
        let ghost start = self.position();
        match self.declaration() {
            Ok(s) => {
                proof {
                    grammar::law_program_goes_on(t, start, s@, self.position());
                }
                Some(s)
            },
            Err(e) => {
                let ghost stopped = self.position();
                let ghost error = e;
                self.recover(e);
                proof {
                    grammar::law_program_recovers(t, start, error, stopped);
                }
                None
            },
        }
    }

    /// Notes the error of a declaration and gives up its tokens.
    fn recover(&mut self, error: ParserError)
        ensures
            final(self).tokens() == old(self).tokens(),
            final(self).position() == grammar::synchronized(
                old(self).tokens(),
                old(self).position(),
            ),
            old(self).position() <= final(self).position(),
            !grammar::ended(old(self).tokens(), old(self).position()) ==> old(self).position()
                < final(self).position() <= final(self).tokens().len(),
            final(self).reported() == old(self).reported().push(error),
    {
        self.synchronize();
        self.errors.push(error);
    }

    /// program := declaration*
    ///
    /// Parses every declaration up to the end of the tokens. A declaration
    /// that cannot be parsed is left out: its error is added to the errors
    /// of the parser, and parsing goes on behind it.
    pub fn parse(&mut self) -> (r: Vec<Statement>)
        ensures
            final(self).tokens() == old(self).tokens(),
            statements_view(r@) == grammar::program(old(self).tokens(), old(self).position()).0,
            final(self).reported() == old(self).reported() + grammar::program(
                old(self).tokens(),
                old(self).position(),
            ).1,
            grammar::ended(final(self).tokens(), final(self).position()),
    {
        let mut statements: Vec<Statement> = Vec::new();
        let ghost t = self.tokens();
        let ghost start = self.position();
        proof {
            assert(statements_view(statements@) =~= Seq::empty());
            assert(Seq::<StatementView>::empty() + grammar::program(t, start).0
                =~= grammar::program(t, start).0);
        }
        while !self.is_at_end()
            invariant
                t == self.tokens(),
                t == old(self).tokens(),
                start == old(self).position(),
                grammar::program(t, start).0 == statements_view(statements@) + grammar::program(
                    t,
                    self.position(),
                ).0,
                old(self).reported() + grammar::program(t, start).1 == self.reported()
                    + grammar::program(t, self.position()).1,
            decreases grammar::remaining(t, self.position()),
        {
            let ghost before = statements_view(statements@);
            let ghost reported = self.reported();
            let ghost here = self.position();
            match self.declaration_or_recovery() {
                Some(s) => {
                    statements.push(s);
                    proof {
                        let first = statements@.last()@;
                        let rest = grammar::program(t, self.position());
                        assert(statements_view(statements@) =~= before + seq![first]);
                        assert(before + (seq![first] + rest.0) =~= (before + seq![first]) + rest.0);
                    }
                },
                None => {
                    proof {
                        let error = self.reported().last();
                        let rest = grammar::program(t, self.position());
                        assert(reported + (seq![error] + rest.1) =~= reported.push(error) + rest.1);
                    }
                },
            }
        }
        proof {
            grammar::law_program_ends(t, self.position());
            assert(statements_view(statements@) + Seq::<StatementView>::empty()
                =~= statements_view(statements@));
            assert(self.reported() + Seq::<ParserError>::empty() =~= self.reported());
        }
        statements
    }
}

} // verus!
