use rotten::lexer::run;
use rotten::parser::error::{ParserError, ParserErrorMessage};
use rotten::parser::node::{Expression, Statement};
use rotten::parser::Parser;
use rotten::token::{Literal, Token, TokenPosition, TokenType};

fn tokens_of(source: &str) -> Vec<Token> {
    let mut tokens = run(source.to_string()).unwrap();
    for token in tokens.iter_mut() {
        if token.kind == TokenType::Number {
            let value: f64 = token.lexeme.parse().unwrap();
            token.value = Some(Literal::Number(value.to_bits()));
        }
    }
    tokens
}

fn parse_all(source: &str) -> (Vec<Statement>, Vec<ParserError>) {
    let mut parser = Parser::new(tokens_of(source));
    let statements = parser.parse();
    (statements, parser.errors().clone())
}

fn only_expression(source: &str) -> Expression {
    let (mut statements, errors) = parse_all(source);
    assert_eq!(errors, vec![]);
    assert_eq!(statements.len(), 1);
    match statements.remove(0) {
        Statement::Expression { expression } => *expression,
        other => panic!("no expression statement: {:?}", other),
    }
}

/// The expression written with a pair of brackets round every node.
fn shape(expression: &Expression) -> String {
    match expression {
        Expression::Assign { name, value } => format!("({} = {})", name.lexeme, shape(value)),
        Expression::Binary { left, operator, right } => {
            format!("({} {} {})", shape(left), operator.lexeme, shape(right))
        }
        Expression::Logical { left, operator, right } => {
            format!("[{} {} {}]", shape(left), operator.lexeme, shape(right))
        }
        Expression::Call { callee, arguments, .. } => {
            let list: Vec<String> = arguments.iter().map(shape).collect();
            format!("{}({})", shape(callee), list.join(", "))
        }
        Expression::Get { object, name } => format!("{}.{}", shape(object), name.lexeme),
        Expression::Grouping { expression } => format!("group({})", shape(expression)),
        Expression::Literal { value } => match value {
            Literal::Bool(b) => b.to_string(),
            Literal::Number(n) => f64::from_bits(*n).to_string(),
            Literal::String(s) => format!("{:?}", s),
            Literal::Nil => "nil".to_string(),
        },
        Expression::SetProperty { object, name, value } => {
            format!("({}.{} = {})", shape(object), name.lexeme, shape(value))
        }
        Expression::Super { method, .. } => format!("super.{}", method.lexeme),
        Expression::This { .. } => "this".to_string(),
        Expression::Unary { operator, right } => format!("({}{})", operator.lexeme, shape(right)),
        Expression::Variable { name } => name.lexeme.clone(),
    }
}

fn shape_of(source: &str) -> String {
    shape(&only_expression(source))
}

#[test]
fn operators_bind_by_level() {
    assert_eq!(shape_of("1 + 2 * 3;"), "(1 + (2 * 3))");
    assert_eq!(shape_of("1 * 2 + 3;"), "((1 * 2) + 3)");
    assert_eq!(shape_of("1 < 2 == 3 > 4;"), "((1 < 2) == (3 > 4))");
    assert_eq!(shape_of("a or b and c;"), "[a or [b and c]]");
    assert_eq!(shape_of("a == b or c != d;"), "[(a == b) or (c != d)]");
    assert_eq!(shape_of("-a * !b;"), "((-a) * (!b))");
    assert_eq!(shape_of("1 <= 2 >= 3;"), "((1 <= 2) >= 3)");
}

#[test]
fn operators_of_one_level_group_from_the_left() {
    assert_eq!(shape_of("1 - 2 - 3;"), "((1 - 2) - 3)");
    assert_eq!(shape_of("8 / 4 / 2;"), "((8 / 4) / 2)");
    assert_eq!(shape_of("a and b and c;"), "[[a and b] and c]");
}

#[test]
fn assignment_groups_from_the_right() {
    assert_eq!(shape_of("a = b = 3;"), "(a = (b = 3))");
    assert_eq!(shape_of("a = 1 or 2;"), "(a = [1 or 2])");
}

#[test]
fn primary_expressions() {
    assert_eq!(shape_of("true;"), "true");
    assert_eq!(shape_of("false;"), "false");
    assert_eq!(shape_of("nil;"), "nil");
    assert_eq!(shape_of("12.5;"), "12.5");
    assert_eq!(shape_of("\"text\";"), "\"text\"");
    assert_eq!(shape_of("name;"), "name");
    assert_eq!(shape_of("this;"), "this");
    assert_eq!(shape_of("(1 + 2) * 3;"), "(group((1 + 2)) * 3)");
    assert_eq!(shape_of("!!x;"), "(!(!x))");
}

#[test]
fn calls() {
    assert_eq!(shape_of("f();"), "f()");
    assert_eq!(shape_of("f(1, a + b)(2);"), "f(1, (a + b))(2)");
    assert_eq!(shape_of("-f(1);"), "(-f(1))");
    let call = only_expression("f(1);");
    match call {
        Expression::Call { paren, .. } => assert_eq!(paren.kind, TokenType::RightParen),
        other => panic!("no call: {:?}", other),
    }
}

fn message_of(source: &str) -> (ParserErrorMessage, Option<String>) {
    let (statements, errors) = parse_all(source);
    assert_eq!(statements.len(), 0);
    assert_eq!(errors.len(), 1);
    (errors[0].message, errors[0].token.as_ref().map(|t| t.lexeme.clone()))
}

#[test]
fn the_left_side_of_an_assignment_must_be_a_variable() {
    assert_eq!(
        message_of("1 = 2;"),
        (ParserErrorMessage::InvalidAssignment, Some("=".to_string()))
    );
    assert_eq!(
        message_of("(a) = 2;"),
        (ParserErrorMessage::InvalidAssignment, Some("=".to_string()))
    );
    assert_eq!(
        message_of("f() = 2;"),
        (ParserErrorMessage::InvalidAssignment, Some("=".to_string()))
    );
}

#[test]
fn a_token_that_is_missing_is_an_error_with_the_token_found() {
    assert_eq!(
        message_of("1 + 2"),
        (ParserErrorMessage::ExpectToken(TokenType::Semicolon), Some("".to_string()))
    );
    assert_eq!(
        message_of("(1 + 2;"),
        (ParserErrorMessage::ExpectToken(TokenType::RightParen), Some(";".to_string()))
    );
    assert_eq!(
        message_of("var 1;"),
        (ParserErrorMessage::ExpectToken(TokenType::Identifier), Some("1".to_string()))
    );
    assert_eq!(
        message_of("fun (a) { }"),
        (ParserErrorMessage::ExpectToken(TokenType::Identifier), Some("(".to_string()))
    );
    assert_eq!(
        message_of("class { }"),
        (ParserErrorMessage::ExpectToken(TokenType::Identifier), Some("{".to_string()))
    );
    assert_eq!(
        message_of("f(1;"),
        (ParserErrorMessage::ExpectToken(TokenType::RightParen), Some(";".to_string()))
    );
}

#[test]
fn a_token_with_which_no_expression_begins_is_an_error() {
    assert_eq!(
        message_of("+;"),
        (ParserErrorMessage::UnexpectedTokenType, Some("+".to_string()))
    );
    assert_eq!(
        message_of("1 + ;"),
        (ParserErrorMessage::UnexpectedTokenType, Some(";".to_string()))
    );
}

fn plain(kind: TokenType, lexeme: &str) -> Token {
    Token { kind, value: None, lexeme: lexeme.to_string(), position: TokenPosition { row: 1, column: 1 } }
}

#[test]
fn a_literal_token_must_carry_its_value() {
    let tokens = vec![
        plain(TokenType::Number, "1"),
        plain(TokenType::Semicolon, ";"),
        plain(TokenType::EndOfFile, ""),
    ];
    let mut parser = Parser::new(tokens);
    assert_eq!(parser.parse(), vec![]);
    assert_eq!(parser.errors().len(), 1);
    assert_eq!(parser.errors()[0].message, ParserErrorMessage::LiteralTokenWithoutValue);
}

#[test]
fn tokens_that_end_without_a_mark_are_an_error() {
    let tokens = vec![plain(TokenType::Identifier, "a")];
    let mut parser = Parser::new(tokens);
    assert_eq!(parser.parse(), vec![]);
    assert_eq!(
        parser.errors().clone(),
        vec![ParserError { message: ParserErrorMessage::GetTokenError, token: None }]
    );
    let mut empty = Parser::new(vec![]);
    assert_eq!(empty.parse(), vec![]);
    assert_eq!(empty.errors().len(), 0);
}

#[test]
fn an_error_does_not_hide_the_statements_behind_it() {
    let (statements, errors) = parse_all("var = 1; a; 1 + ; b; (c; d;");
    let kept: Vec<String> = statements
        .iter()
        .map(|s| match s {
            Statement::Expression { expression } => shape(expression),
            other => format!("{:?}", other),
        })
        .collect();
    assert_eq!(kept, vec!["a", "b", "d"]);
    assert_eq!(errors.len(), 3);
}

#[test]
fn parsing_goes_on_before_a_token_with_which_a_declaration_begins() {
    let (statements, errors) = parse_all("1 + + 2 var a = 1;");
    assert_eq!(errors.len(), 1);
    assert_eq!(statements.len(), 1);
    assert!(matches!(statements[0], Statement::Var { .. }));
}

#[test]
fn a_for_loop_is_written_as_a_block_and_a_while_loop() {
    let (statements, errors) = parse_all("for (var i = 0; i < 3; i = i + 1) print(i);");
    assert_eq!(errors, vec![]);
    assert_eq!(statements.len(), 1);
    let outer = match &statements[0] {
        Statement::Block { statements } => statements,
        other => panic!("no block: {:?}", other),
    };
    assert_eq!(outer.len(), 2);
    assert!(matches!(outer[0], Statement::Var { .. }));
    let (condition, body) = match &outer[1] {
        Statement::While { condition, body } => (condition, body),
        other => panic!("no loop: {:?}", other),
    };
    assert_eq!(shape(condition), "(i < 3)");
    let inner = match &**body {
        Statement::Block { statements } => statements,
        other => panic!("no block: {:?}", other),
    };
    assert_eq!(inner.len(), 2);
    match &inner[0] {
        Statement::Expression { expression } => assert_eq!(shape(expression), "print(i)"),
        other => panic!("no body: {:?}", other),
    }
    match &inner[1] {
        Statement::Expression { expression } => assert_eq!(shape(expression), "(i = (i + 1))"),
        other => panic!("no increment: {:?}", other),
    }
}

#[test]
fn a_for_loop_without_clauses_is_a_while_loop_on_true() {
    let (statements, errors) = parse_all("for (;;) a;");
    assert_eq!(errors, vec![]);
    match &statements[0] {
        Statement::While { condition, body } => {
            assert_eq!(shape(condition), "true");
            assert!(matches!(**body, Statement::Expression { .. }));
        }
        other => panic!("no loop: {:?}", other),
    }
}

#[test]
fn declarations_and_statements() {
    let (statements, errors) = parse_all(
        "var a; var b = 1; fun f(x, y) { return x; } class C < B { m() { } n(a) { return; } } \
         if (a) b; else { c; } while (a) b; { } return 1;",
    );
    assert_eq!(errors, vec![]);
    assert_eq!(statements.len(), 8);
    assert!(matches!(&statements[0], Statement::Var { initializer: None, .. }));
    assert!(matches!(&statements[1], Statement::Var { initializer: Some(_), .. }));
    match &statements[2] {
        Statement::Function { name, params, body } => {
            assert_eq!(name.lexeme, "f");
            assert_eq!(params.len(), 2);
            assert_eq!(params[1].lexeme, "y");
            assert!(matches!(**body, Statement::Block { .. }));
        }
        other => panic!("no function: {:?}", other),
    }
    match &statements[3] {
        Statement::Class { name, superclass, methods } => {
            assert_eq!(name.lexeme, "C");
            assert_eq!(shape(superclass.as_ref().unwrap()), "B");
            assert_eq!(methods.len(), 2);
            assert!(matches!(methods[1], Statement::Function { .. }));
        }
        other => panic!("no class: {:?}", other),
    }
    assert!(matches!(&statements[4], Statement::If { else_branch: Some(_), .. }));
    assert!(matches!(&statements[5], Statement::While { .. }));
    match &statements[6] {
        Statement::Block { statements } => assert_eq!(statements.len(), 0),
        other => panic!("no block: {:?}", other),
    }
    assert!(matches!(&statements[7], Statement::Return { value: Some(_) }));
}

#[test]
fn parser_error_text() {
    let (_, errors) = parse_all("var 1;");
    assert_eq!(errors[0].to_string(), "[1:5] Error: 'identifier' expected\n1");
    assert_eq!(errors[0].message_to_string(), "'identifier' expected");
    let error = ParserError { message: ParserErrorMessage::GetTokenError, token: None };
    assert_eq!(error.to_string(), "Error: Failed to get token");
    assert_eq!(
        ParserError { message: ParserErrorMessage::InvalidAssignment, token: None }
            .message_to_string(),
        "Invalid assignment target"
    );
    assert_eq!(
        ParserError { message: ParserErrorMessage::UnexpectedTokenType, token: None }
            .message_to_string(),
        "Unexpected token type"
    );
    assert_eq!(
        ParserError { message: ParserErrorMessage::LiteralTokenWithoutValue, token: None }
            .message_to_string(),
        "Literal type token without value"
    );
}
