//! The lexical rules: which tokens, or which error, a source text stands
//! for.

use crate::lexer::error::{LexerErrorMessage, LexerErrorView};
use crate::token::{LiteralView, TokenPosition, TokenType, TokenView};
use vstd::prelude::*;

verus! {

/// A place in the text: the index of the next character, and the row and
/// column that the scanner counts there.
pub struct Cursor {
    pub current: nat,
    pub row: nat,
    pub column: nat,
}

/// What scanning gives at a place: a token, nothing (blank space and
/// comments), or an error. The cursor is where scanning goes on.
pub enum Scan {
    Token { kind: TokenType, value: Option<LiteralView>, end: Cursor },
    Skip { end: Cursor },
    Failed { error: LexerErrorView },
}

/// The character at `i`, or the null character behind the end.
pub open spec fn peek_at(s: Seq<char>, i: nat) -> char {
    if i < s.len() {
        s[i as int]
    } else {
        '\0'
    }
}

/// Whether `c` is one of `0` to `9`.
pub open spec fn is_digit(c: char) -> bool {
    48 <= c as u32 <= 57
}

/// Whether `c` is a letter of the alphabet without accent, or `_`.
pub open spec fn is_alpha(c: char) -> bool {
    97 <= c as u32 <= 122 || 65 <= c as u32 <= 90 || c as u32 == 95
}

/// Whether `c` is a digit or a letter without accent.
pub open spec fn is_alphanumeric(c: char) -> bool {
    is_digit(c) || 97 <= c as u32 <= 122 || 65 <= c as u32 <= 90
}

/// The first index from `i` on that holds no digit.
pub open spec fn digits_end(s: Seq<char>, i: nat) -> nat
    decreases s.len() - i,
{
    if i < s.len() && is_digit(s[i as int]) {
        digits_end(s, i + 1)
    } else {
        i
    }
}

/// Where the number that begins at `i` ends: behind its digits, and behind
/// the digits of its fraction where a `.` and a digit follow.
pub open spec fn number_end(s: Seq<char>, i: nat) -> nat {
    let whole = digits_end(s, i);
    if peek_at(s, whole) == '.' && is_digit(peek_at(s, whole + 1)) {
        digits_end(s, whole + 1)
    } else {
        whole
    }
}

/// The first index from `i` on that holds neither digit nor letter.
pub open spec fn word_end(s: Seq<char>, i: nat) -> nat
    decreases s.len() - i,
{
    if i < s.len() && is_alphanumeric(s[i as int]) {
        word_end(s, i + 1)
    } else {
        i
    }
}

/// The first index from `i` on that holds a line feed, or the end.
pub open spec fn line_end(s: Seq<char>, i: nat) -> nat
    decreases s.len() - i,
{
    if i < s.len() && s[i as int] != '\n' {
        line_end(s, i + 1)
    } else {
        i
    }
}

/// Where the search for the end of a block comment stops: at the first
/// index from `i` on that holds `*` or stands before `/`, or at the end.
pub open spec fn comment_end(s: Seq<char>, i: nat) -> nat
    decreases s.len() - i,
{
    if i < s.len() && s[i as int] != '*' && peek_at(s, i + 1) != '/' {
        comment_end(s, i + 1)
    } else {
        i
    }
}

/// The cursor at the quote that closes a string, or at the end of the
/// text. A line feed in the string begins a new row.
pub open spec fn string_end(s: Seq<char>, c: Cursor) -> Cursor
    decreases s.len() - c.current,
{
    if c.current < s.len() && s[c.current as int] != '"' {
        if s[c.current as int] == '\n' {
            string_end(s, Cursor { current: c.current + 1, row: c.row + 1, column: 2 })
        } else {
            string_end(s, Cursor { current: c.current + 1, row: c.row, column: c.column + 1 })
        }
    } else {
        c
    }
}

/// The cursor at the index `to`, further on in the same row.
pub open spec fn moved(c: Cursor, to: nat) -> Cursor {
    Cursor { current: to, row: c.row, column: (c.column + to - c.current) as nat }
}

/// The kind of a word: that of the keyword, or an identifier.
pub open spec fn word_kind(word: Seq<char>) -> TokenType {
    if word == "and"@ {
        TokenType::And
    } else if word == "class"@ {
        TokenType::Class
    } else if word == "else"@ {
        TokenType::Else
    } else if word == "false"@ {
        TokenType::False
    } else if word == "for"@ {
        TokenType::For
    } else if word == "fun"@ {
        TokenType::Fun
    } else if word == "if"@ {
        TokenType::If
    } else if word == "nil"@ {
        TokenType::Nil
    } else if word == "or"@ {
        TokenType::Or
    } else if word == "return"@ {
        TokenType::Return
    } else if word == "super"@ {
        TokenType::Super
    } else if word == "this"@ {
        TokenType::This
    } else if word == "true"@ {
        TokenType::True
    } else if word == "var"@ {
        TokenType::Var
    } else if word == "while"@ {
        TokenType::While
    } else {
        TokenType::Identifier
    }
}

/// The position that a cursor counts.
pub open spec fn position_of(c: Cursor) -> TokenPosition {
    TokenPosition { row: c.row as usize, column: c.column as usize }
}

/// The error of the given reason for the lexeme that began at `start`,
/// with the cursor where scanning stopped.
pub open spec fn failed(s: Seq<char>, start: nat, c: Cursor, message: LexerErrorMessage) -> Scan {
    Scan::Failed {
        error: LexerErrorView {
            message,
            lexeme: s.subrange(start as int, c.current as int),
            position: position_of(c),
        },
    }
}

/// A token without a value that ends at `end`.
pub open spec fn plain(kind: TokenType, end: Cursor) -> Scan {
    Scan::Token { kind, value: None, end }
}

/// A token of one character, or of two where `=` follows.
pub open spec fn with_equal(s: Seq<char>, after: Cursor, alone: TokenType, joined: TokenType) -> Scan {
    if after.current < s.len() && s[after.current as int] == '=' {
        plain(joined, moved(after, after.current + 1))
    } else {
        plain(alone, after)
    }
}

/// What follows a `/`: a comment up to the end of the line, a block
/// comment, or nothing, in which case the `/` is a token.
pub open spec fn after_slash(s: Seq<char>, start: nat, after: Cursor) -> Scan {
    if after.current < s.len() && s[after.current as int] == '/' {
        Scan::Skip { end: moved(after, line_end(s, after.current + 1)) }
    } else if after.current < s.len() && s[after.current as int] == '*' {
        let stop = comment_end(s, after.current + 1);
        if stop >= s.len() {
            Scan::Skip { end: moved(after, stop) }
        } else if stop + 1 >= s.len() {
            failed(s, start, moved(after, stop + 1), LexerErrorMessage::UnexpectedCharacter)
        } else {
            Scan::Skip { end: moved(after, stop + 2) }
        }
    } else {
        plain(TokenType::Slash, after)
    }
}

/// What follows a quote: the characters of a string and the quote that
/// closes it. The value of the token is the string without its quotes.
pub open spec fn after_quote(s: Seq<char>, start: nat, after: Cursor) -> Scan {
    let close = string_end(s, after);
    if close.current >= s.len() {
        failed(s, start, close, LexerErrorMessage::UnterminatedString)
    } else {
        Scan::Token {
            kind: TokenType::String,
            value: Some(LiteralView::String(s.subrange(start as int + 1, close.current as int))),
            end: moved(close, close.current + 1),
        }
    }
}

/// Scans from `c`, where a character stands. A number token has no value
/// yet: its lexeme says which number it is.
pub open spec fn scan_token(s: Seq<char>, c: Cursor) -> Scan {
    let first = s[c.current as int];
    let after = moved(c, c.current + 1);
    if first == '(' {
        plain(TokenType::LeftParen, after)
    } else if first == ')' {
        plain(TokenType::RightParen, after)
    } else if first == '{' {
        plain(TokenType::LeftBrace, after)
    } else if first == '}' {
        plain(TokenType::RightBrace, after)
    } else if first == ',' {
        plain(TokenType::Comma, after)
    } else if first == '.' {
        plain(TokenType::Dot, after)
    } else if first == '-' {
        plain(TokenType::Minus, after)
    } else if first == '+' {
        plain(TokenType::Plus, after)
    } else if first == ';' {
        plain(TokenType::Semicolon, after)
    } else if first == '*' {
        plain(TokenType::Star, after)
    } else if first == '!' {
        with_equal(s, after, TokenType::Bang, TokenType::BangEqual)
    } else if first == '=' {
        with_equal(s, after, TokenType::Equal, TokenType::EqualEqual)
    } else if first == '<' {
        with_equal(s, after, TokenType::Less, TokenType::LessEqual)
    } else if first == '>' {
        with_equal(s, after, TokenType::Greater, TokenType::GreaterEqual)
    } else if first == '/' {
        after_slash(s, c.current, after)
    } else if first == '"' {
        after_quote(s, c.current, after)
    } else if is_digit(first) {
        plain(TokenType::Number, moved(c, number_end(s, c.current + 1)))
    } else if is_alpha(first) {
        let end = word_end(s, c.current + 1);
        plain(word_kind(s.subrange(c.current as int, end as int)), moved(c, end))
    } else if first == '\r' || first == '\t' || first == ' ' {
        Scan::Skip { end: after }
    } else if first == '\n' || first == '\0' {
        Scan::Skip { end: Cursor { current: c.current + 1, row: c.row + 1, column: 1 } }
    } else {
        failed(s, c.current, after, LexerErrorMessage::UnexpectedCharacter)
    }
}

/// The token that marks the end of the input.
pub open spec fn end_token(c: Cursor) -> TokenView {
    TokenView {
        kind: TokenType::EndOfFile,
        value: None,
        lexeme: Seq::empty(),
        position: position_of(c),
    }
}

/// The tokens of the text from `c` on, closed by the token that marks the
/// end, or the first error. A token is where its first character is.
pub open spec fn tokens_from(s: Seq<char>, c: Cursor) -> Result<Seq<TokenView>, LexerErrorView>
    decreases s.len() - c.current,
{
    if c.current >= s.len() {
        Ok(seq![end_token(c)])
    } else {
        match scan_token(s, c) {
            Scan::Failed { error } => Err(error),
            Scan::Skip { end } => if c.current < end.current <= s.len() {
                tokens_from(s, end)
            } else {
                Ok(Seq::empty())
            },
            Scan::Token { kind, value, end } => if c.current < end.current <= s.len() {
                match tokens_from(s, end) {
                    Ok(rest) => Ok(
                        seq![
                            TokenView {
                                kind,
                                value,
                                lexeme: s.subrange(c.current as int, end.current as int),
                                position: position_of(c),
                            },
                        ] + rest,
                    ),
                    Err(error) => Err(error),
                }
            } else {
                Ok(Seq::empty())
            },
        }
    }
}

/// The cursor at the beginning of a text.
pub open spec fn beginning() -> Cursor {
    Cursor { current: 0, row: 1, column: 1 }
}

/// The tokens of a text, or the first error in it.
pub open spec fn scanned(s: Seq<char>) -> Result<Seq<TokenView>, LexerErrorView> {
    tokens_from(s, beginning())
}

/// The tokens of a text are closed by the token that marks the end of the
/// input, and no token before it is of that kind.
pub proof fn law_tokens_are_closed(s: Seq<char>, c: Cursor)
    ensures
        tokens_from(s, c) matches Ok(tokens) ==> tokens.len() >= 1 && tokens.last().kind
            == TokenType::EndOfFile && forall|i: int|
            0 <= i < tokens.len() - 1 ==> (#[trigger] tokens[i]).kind != TokenType::EndOfFile,
    decreases s.len() - c.current,
{
    if c.current >= s.len() {
    } else {
        match scan_token(s, c) {
            Scan::Failed { error } => {},
            Scan::Skip { end } => {
                if c.current < end.current <= s.len() {
                    law_tokens_are_closed(s, end);
                } else {
                    law_scanning_moves_on(s, c);
                }
            },
            Scan::Token { kind, value, end } => {
                law_scanning_moves_on(s, c);
                law_tokens_are_closed(s, end);
                lemma_word_is_no_end(s.subrange(c.current as int, end.current as int));
            },
        }
    }
}

/// Scanning moves on, and not past the end of the text.
pub proof fn law_scanning_moves_on(s: Seq<char>, c: Cursor)
    requires
        c.current < s.len(),
    ensures
        match scan_token(s, c) {
            Scan::Token { end, .. } => c.current < end.current <= s.len(),
            Scan::Skip { end } => c.current < end.current <= s.len(),
            Scan::Failed { .. } => true,
        },
{
    lemma_ends(s, c.current + 1);
    if c.current + 2 <= s.len() {
        lemma_ends(s, c.current + 2);
    }
    if digits_end(s, c.current + 1) + 1 <= s.len() {
        lemma_ends(s, digits_end(s, c.current + 1) + 1);
    }
    lemma_string_end(s, moved(c, c.current + 1));
}

proof fn lemma_ends(s: Seq<char>, i: nat)
    requires
        i <= s.len(),
    ensures
        i <= digits_end(s, i) <= s.len(),
        i <= word_end(s, i) <= s.len(),
        i <= line_end(s, i) <= s.len(),
        i <= comment_end(s, i) <= s.len(),
    decreases s.len() - i,
{
    if i < s.len() {
        lemma_ends(s, i + 1);
    }
}

proof fn lemma_string_end(s: Seq<char>, c: Cursor)
    requires
        c.current <= s.len(),
    ensures
        c.current <= string_end(s, c).current <= s.len(),
    decreases s.len() - c.current,
{
    if c.current < s.len() && s[c.current as int] != '"' {
        if s[c.current as int] == '\n' {
            lemma_string_end(s, Cursor { current: c.current + 1, row: c.row + 1, column: 2 });
        } else {
            lemma_string_end(
                s,
                Cursor { current: c.current + 1, row: c.row, column: c.column + 1 },
            );
        }
    }
}

proof fn lemma_word_is_no_end(word: Seq<char>)
    ensures
        word_kind(word) != TokenType::EndOfFile,
{
}

} // verus!
