use rotten::lexer::error::{LexerError, LexerErrorMessage};
use rotten::lexer::run;
use rotten::token::{Literal, Token, TokenPosition, TokenType};

fn pos(row: usize, col: usize) -> TokenPosition {
    TokenPosition { row, column: col }
}

fn number(value: f64) -> Option<Literal> {
    Some(Literal::Number(value.to_bits()))
}

fn token(kind: TokenType, value: Option<Literal>, lexeme: &str, pos: TokenPosition) -> Token {
    Token { kind, value, lexeme: lexeme.to_string(), position: pos }
}

fn error(message: LexerErrorMessage, lexeme: &str, pos: TokenPosition) -> LexerError {
    LexerError { message, lexeme: lexeme.to_string(), position: pos }
}

/// Scans, and gives each number token the value that its lexeme stands for.
fn scan(input: &str) -> Result<Vec<Token>, LexerError> {
    let mut tokens = run(input.to_string())?;
    for token in tokens.iter_mut() {
        if token.kind == TokenType::Number {
            let value: f64 = token.lexeme.parse().unwrap();
            token.value = Some(Literal::Number(value.to_bits()));
        }
    }
    Ok(tokens)
}

#[test]
fn simple_arithmetic() {
    let res = scan("1 + 2;").unwrap();
    let expected = vec![
        token(TokenType::Number, number(1.0), "1", pos(1, 1)),
        token(TokenType::Plus, None, "+", pos(1, 3)),
        token(TokenType::Number, number(2.0), "2", pos(1, 5)),
        token(TokenType::Semicolon, None, ";", pos(1, 6)),
        token(TokenType::EndOfFile, None, "", pos(1, 7)),
    ];
    assert_eq!(res, expected);
}

#[test]
fn keywords_and_identifiers() {
    let res = scan("var x = 5.42;").unwrap();
    let expected = vec![
        token(TokenType::Var, None, "var", pos(1, 1)),
        token(TokenType::Identifier, None, "x", pos(1, 5)),
        token(TokenType::Equal, None, "=", pos(1, 7)),
        token(TokenType::Number, number(5.42), "5.42", pos(1, 9)),
        token(TokenType::Semicolon, None, ";", pos(1, 13)),
        token(TokenType::EndOfFile, None, "", pos(1, 14)),
    ];
    assert_eq!(res, expected);
}

#[test]
fn string() {
    let res = scan("\"hello\"").unwrap();
    let expected = vec![
        token(
            TokenType::String,
            Some(Literal::String("hello".to_string())),
            "\"hello\"",
            pos(1, 1),
        ),
        token(TokenType::EndOfFile, None, "", pos(1, 8)),
    ];
    assert_eq!(res, expected);
}

#[test]
fn line_comment() {
    let res = scan("// comment\nvar y = 10;").unwrap();
    let expected = vec![
        token(TokenType::Var, None, "var", pos(2, 1)),
        token(TokenType::Identifier, None, "y", pos(2, 5)),
        token(TokenType::Equal, None, "=", pos(2, 7)),
        token(TokenType::Number, number(10.0), "10", pos(2, 9)),
        token(TokenType::Semicolon, None, ";", pos(2, 11)),
        token(TokenType::EndOfFile, None, "", pos(2, 12)),
    ];
    assert_eq!(res, expected);
}

#[test]
fn block_comment() {
    let res = scan("/* comment */ var z = 1;").unwrap();
    let expected = vec![
        token(TokenType::Var, None, "var", pos(1, 15)),
        token(TokenType::Identifier, None, "z", pos(1, 19)),
        token(TokenType::Equal, None, "=", pos(1, 21)),
        token(TokenType::Number, number(1.0), "1", pos(1, 23)),
        token(TokenType::Semicolon, None, ";", pos(1, 24)),
        token(TokenType::EndOfFile, None, "", pos(1, 25)),
    ];
    assert_eq!(res, expected);
}

#[test]
fn multi_char_operators() {
    let res = scan("a != b == c").unwrap();
    let expected = vec![
        token(TokenType::Identifier, None, "a", pos(1, 1)),
        token(TokenType::BangEqual, None, "!=", pos(1, 3)),
        token(TokenType::Identifier, None, "b", pos(1, 6)),
        token(TokenType::EqualEqual, None, "==", pos(1, 8)),
        token(TokenType::Identifier, None, "c", pos(1, 11)),
        token(TokenType::EndOfFile, None, "", pos(1, 12)),
    ];
    assert_eq!(res, expected);
}

#[test]
fn less_equal() {
    let res = scan("1 <= 2").unwrap();
    let expected = vec![
        token(TokenType::Number, number(1.0), "1", pos(1, 1)),
        token(TokenType::LessEqual, None, "<=", pos(1, 3)),
        token(TokenType::Number, number(2.0), "2", pos(1, 6)),
        token(TokenType::EndOfFile, None, "", pos(1, 7)),
    ];
    assert_eq!(res, expected);
}

#[test]
fn greater_equal() {
    let res = scan("1 >= 2").unwrap();
    let expected = vec![
        token(TokenType::Number, number(1.0), "1", pos(1, 1)),
        token(TokenType::GreaterEqual, None, ">=", pos(1, 3)),
        token(TokenType::Number, number(2.0), "2", pos(1, 6)),
        token(TokenType::EndOfFile, None, "", pos(1, 7)),
    ];
    assert_eq!(res, expected);
}

#[test]
fn unexpected_character() {
    let res = scan("@");
    assert!(res.is_err());
    let err = res.unwrap_err();
    assert_eq!(
        err.to_string(),
        error(LexerErrorMessage::UnexpectedCharacter, "@", pos(1, 2)).to_string()
    );
}

#[test]
fn unterminated_string() {
    let res = scan("\"unterminated");
    assert!(res.is_err());
    let err = res.unwrap_err();
    assert_eq!(
        err.to_string(),
        error(LexerErrorMessage::UnterminatedString, "\"unterminated", pos(1, 14)).to_string()
    );
}

#[test]
fn empty_input() {
    let res = scan("").unwrap();
    let expected = vec![token(TokenType::EndOfFile, None, "", pos(1, 1))];
    assert_eq!(res, expected);
}

#[test]
fn whitespace_only() {
    let res = scan(" \t\n ").unwrap();
    let expected = vec![token(TokenType::EndOfFile, None, "", pos(2, 2))];
    assert_eq!(res, expected);
}

#[test]
fn multiline_string() {
    let res = scan("\"line1\\nline2\"").unwrap();
    let expected = vec![
        token(
            TokenType::String,
            Some(Literal::String("line1\\nline2".to_string())),
            "\"line1\\nline2\"",
            pos(1, 1),
        ),
        token(TokenType::EndOfFile, None, "", pos(1, 15)),
    ];
    assert_eq!(res, expected);
}

#[test]
fn unterminated_block_comment() {
    let res = scan("/* unterminated").unwrap();
    let expected = vec![token(TokenType::EndOfFile, None, "", pos(1, 16))];
    assert_eq!(res, expected);
}

#[test]
fn unicode_identifier() {
    let res = scan("π = 3.14;");
    assert!(res.is_err());
    let err = res.unwrap_err();
    assert_eq!(
        err.to_string(),
        error(LexerErrorMessage::UnexpectedCharacter, "π", pos(1, 2)).to_string()
    );
}

#[test]
fn error_text_has_position_message_and_lexeme() {
    let err = scan("@").unwrap_err();
    assert_eq!(err.to_string(), "[1:2] Error: Unexpected character.\n@");
    assert_eq!(err.message_to_string(), "Unexpected character.");
}

#[test]
fn number_token_carries_no_value_before_it_is_read() {
    let tokens = run("12.5".to_string()).unwrap();
    assert_eq!(tokens[0].kind, TokenType::Number);
    assert_eq!(tokens[0].value, None);
    assert_eq!(tokens[0].lexeme, "12.5");
}

#[test]
fn keywords_are_told_from_identifiers() {
    let tokens = scan("class classy this nil while whiles").unwrap();
    let kinds: Vec<TokenType> = tokens.iter().map(|t| t.kind).collect();
    assert_eq!(
        kinds,
        vec![
            TokenType::Class,
            TokenType::Identifier,
            TokenType::This,
            TokenType::Nil,
            TokenType::While,
            TokenType::Identifier,
            TokenType::EndOfFile,
        ]
    );
}

#[test]
fn block_comment_that_ends_inside_its_closing_is_an_error() {
    let err = scan("/* a *").unwrap_err();
    assert_eq!(err.message, LexerErrorMessage::UnexpectedCharacter);
}

#[test]
fn lexer_messages() {
    let at = |message| error(message, "12a", pos(12, 10345));
    assert_eq!(
        at(LexerErrorMessage::NumberParseError).to_string(),
        "[12:10345] Error: Failed to parse number.\n12a"
    );
    assert_eq!(
        at(LexerErrorMessage::UnterminatedString).message_to_string(),
        "Unterminated string."
    );
    assert_eq!(
        error(LexerErrorMessage::UnexpectedCharacter, "", pos(0, 7)).to_string(),
        "[0:7] Error: Unexpected character.\n"
    );
}

#[test]
fn a_string_may_run_over_lines() {
    let res = scan("\"a\nb\" x").unwrap();
    let expected = vec![
        token(TokenType::String, Some(Literal::String("a\nb".to_string())), "\"a\nb\"", pos(1, 1)),
        token(TokenType::Identifier, None, "x", pos(2, 5)),
        token(TokenType::EndOfFile, None, "", pos(2, 6)),
    ];
    assert_eq!(res, expected);
}

#[test]
fn a_dot_without_digits_behind_it_is_no_part_of_a_number() {
    let kinds: Vec<(TokenType, String)> =
        scan("5.x 1.5.2 7.").unwrap().into_iter().map(|t| (t.kind, t.lexeme)).collect();
    let expected: Vec<(TokenType, String)> = vec![
        (TokenType::Number, "5"),
        (TokenType::Dot, "."),
        (TokenType::Identifier, "x"),
        (TokenType::Number, "1.5"),
        (TokenType::Dot, "."),
        (TokenType::Number, "2"),
        (TokenType::Number, "7"),
        (TokenType::Dot, "."),
        (TokenType::EndOfFile, ""),
    ]
    .into_iter()
    .map(|(k, l)| (k, l.to_string()))
    .collect();
    assert_eq!(kinds, expected);
}

#[test]
fn every_sign_is_a_token() {
    let kinds: Vec<TokenType> =
        scan("(){},.-+; / * ! != = == > >= < <=").unwrap().into_iter().map(|t| t.kind).collect();
    assert_eq!(
        kinds,
        vec![
            TokenType::LeftParen,
            TokenType::RightParen,
            TokenType::LeftBrace,
            TokenType::RightBrace,
            TokenType::Comma,
            TokenType::Dot,
            TokenType::Minus,
            TokenType::Plus,
            TokenType::Semicolon,
            TokenType::Slash,
            TokenType::Star,
            TokenType::Bang,
            TokenType::BangEqual,
            TokenType::Equal,
            TokenType::EqualEqual,
            TokenType::Greater,
            TokenType::GreaterEqual,
            TokenType::Less,
            TokenType::LessEqual,
            TokenType::EndOfFile,
        ]
    );
    assert_eq!(TokenType::LessEqual.text(), "<=");
    assert_eq!(TokenType::EndOfFile.text(), "end of file");
    assert_eq!(TokenType::While.text(), "while");
}
