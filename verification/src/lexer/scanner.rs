//! The scanner: reads the source text character by character and emits
//! its tokens.

use crate::lexer::emitter::Emitter;
use crate::lexer::error::{LexerError, LexerErrorMessage, LexerErrorView};
use crate::lexer::reader::Reader;
use crate::lexer::rules;
use crate::lexer::rules::{Cursor, Scan};
use crate::text::string_of;
use crate::token::{tokens_view, Literal, Token, TokenPosition, TokenType, TokenView};
use vstd::prelude::*;
use vstd::string::*;

verus! {

/// A scanner: the reader over the text, and the tokens found so far.
pub struct Scanner {
    reader: Reader,
    emitter: Emitter,
}

/// Tokens that were found, with `found` before them.
pub open spec fn after_found(
    found: Seq<TokenView>,
    result: Result<Seq<TokenView>, LexerErrorView>,
) -> Result<Seq<TokenView>, LexerErrorView> {
    match result {
        Ok(tokens) => Ok(found + tokens),
        Err(error) => Err(error),
    }
}

fn digit(c: char) -> (r: bool)
    ensures
        r == rules::is_digit(c),
{
    let code = c as u32;
    48 <= code && code <= 57
}

fn alpha(c: char) -> (r: bool)
    ensures
        r == rules::is_alpha(c),
{
    let code = c as u32;
    (97 <= code && code <= 122) || (65 <= code && code <= 90) || code == 95
}

fn alphanumeric(c: char) -> (r: bool)
    ensures
        r == rules::is_alphanumeric(c),
{
    let code = c as u32;
    (48 <= code && code <= 57) || (97 <= code && code <= 122) || (65 <= code && code <= 90)
}

/// The kind of a word: that of the keyword, or an identifier.
fn keyword(word: &String) -> (r: TokenType)
    ensures
        r == rules::word_kind(word@),
{
    if *word == String::from_str("and") {
        TokenType::And
    } else if *word == String::from_str("class") {
        TokenType::Class
    } else if *word == String::from_str("else") {
        TokenType::Else
    } else if *word == String::from_str("false") {
        TokenType::False
    } else if *word == String::from_str("for") {
        TokenType::For
    } else if *word == String::from_str("fun") {
        TokenType::Fun
    } else if *word == String::from_str("if") {
        TokenType::If
    } else if *word == String::from_str("nil") {
        TokenType::Nil
    } else if *word == String::from_str("or") {
        TokenType::Or
    } else if *word == String::from_str("return") {
        TokenType::Return
    } else if *word == String::from_str("super") {
        TokenType::Super
    } else if *word == String::from_str("this") {
        TokenType::This
    } else if *word == String::from_str("true") {
        TokenType::True
    } else if *word == String::from_str("var") {
        TokenType::Var
    } else if *word == String::from_str("while") {
        TokenType::While
    } else {
        TokenType::Identifier
    }
}

impl Scanner {
    /// The text.
    pub closed spec fn source(&self) -> Seq<char> {
        self.reader.source@
    }

    /// Where the reader stands.
    pub closed spec fn cursor(&self) -> Cursor {
        Cursor {
            current: self.reader.current as nat,
            row: self.reader.row as nat,
            column: self.reader.column as nat,
        }
    }

    /// Where the lexeme that is being scanned begins.
    pub closed spec fn start(&self) -> nat {
        self.reader.start as nat
    }

    /// The tokens found so far.
    pub closed spec fn found(&self) -> Seq<TokenView> {
        self.emitter@
    }

    /// The reader is in the text, and its row and column are no further on
    /// than the text read; the text is shorter than the machine can count.
    pub closed spec fn wf(&self) -> bool {
        &&& self.reader.wf()
        &&& self.reader.source@.len() + 1 < usize::MAX
        &&& self.reader.row <= self.reader.current + 1
        &&& self.reader.column <= self.reader.current + 1
    }

    /// Whether `self` is `before` after its reader went to `end` and
    /// nothing else changed.
    pub closed spec fn went(&self, before: &Scanner, end: Cursor) -> bool {
        &&& self.wf()
        &&& self.reader.source == before.reader.source
        &&& self.reader.start == before.reader.start
        &&& self.cursor() == end
        &&& self.emitter@ == before.emitter@
    }

    /// A scanner at the beginning of `source`.
    pub fn new(source: String) -> (r: Self)
        ensures
            r.source() == source@,
            r.cursor() == rules::beginning(),
            r.found() == Seq::<TokenView>::empty(),
            source@.len() + 1 < usize::MAX ==> r.wf(),
    {
        Self { reader: Reader::new(source), emitter: Emitter::new() }
    }

    fn advance(&mut self) -> (c: char)
        requires
            old(self).wf(),
            old(self).cursor().current < old(self).source().len(),
        ensures
            c == old(self).source()[old(self).cursor().current as int],
            final(self).went(
                old(self),
                rules::moved(old(self).cursor(), old(self).cursor().current + 1),
            ),
    {
        match self.reader.advance() {
            Ok(c) => c,
            Err(_) => '\0',
        }
    }

    fn fail(&self, message: LexerErrorMessage) -> (r: LexerError)
        requires
            self.wf(),
        ensures
            rules::failed(self.source(), self.start(), self.cursor(), message) == (Scan::Failed {
                error: r@,
            }),
    {
        LexerError {
            message,
            lexeme: self.reader.current_lexeme(),
            position: TokenPosition { row: self.reader.row, column: self.reader.column },
        }
    }

    fn add_token(&mut self, kind: TokenType, value: Option<Literal>, position: TokenPosition)
        requires
            old(self).wf(),
        ensures
            final(self).wf(),
            final(self).reader == old(self).reader,
            final(self).found() == old(self).found().push(
                TokenView {
                    kind,
                    value: match value {
                        Some(v) => Some(v@),
                        None => None,
                    },
                    lexeme: old(self).source().subrange(
                        old(self).start() as int,
                        old(self).cursor().current as int,
                    ),
                    position,
                },
            ),
    {
        let lexeme = self.reader.current_lexeme();
        self.emitter.add_token(kind, value, lexeme, position.row, position.column);
    }

    fn digits(&mut self)
        requires
            old(self).wf(),
        ensures
            final(self).went(
                old(self),
                rules::moved(
                    old(self).cursor(),
                    rules::digits_end(old(self).source(), old(self).cursor().current),
                ),
            ),
            old(self).cursor().current <= final(self).cursor().current,
    {
        while !self.reader.is_at_end() && digit(self.reader.peek())
            invariant
                self.wf(),
                self.reader.source == old(self).reader.source,
                self.reader.start == old(self).reader.start,
                self.emitter@ == old(self).emitter@,
                old(self).cursor().current <= self.cursor().current,
                self.cursor() == rules::moved(old(self).cursor(), self.cursor().current),
                rules::digits_end(old(self).source(), old(self).cursor().current)
                    == rules::digits_end(self.source(), self.cursor().current),
            decreases self.source().len() - self.cursor().current,
        {
            self.advance();
        }
    }

    fn word(&mut self)
        requires
            old(self).wf(),
        ensures
            final(self).went(
                old(self),
                rules::moved(
                    old(self).cursor(),
                    rules::word_end(old(self).source(), old(self).cursor().current),
                ),
            ),
            old(self).cursor().current <= final(self).cursor().current,
    {
        while !self.reader.is_at_end() && alphanumeric(self.reader.peek())
            invariant
                self.wf(),
                self.reader.source == old(self).reader.source,
                self.reader.start == old(self).reader.start,
                self.emitter@ == old(self).emitter@,
                old(self).cursor().current <= self.cursor().current,
                self.cursor() == rules::moved(old(self).cursor(), self.cursor().current),
                rules::word_end(old(self).source(), old(self).cursor().current) == rules::word_end(
                    self.source(),
                    self.cursor().current,
                ),
            decreases self.source().len() - self.cursor().current,
        {
            self.advance();
        }
    }

    fn line(&mut self)
        requires
            old(self).wf(),
        ensures
            final(self).went(
                old(self),
                rules::moved(
                    old(self).cursor(),
                    rules::line_end(old(self).source(), old(self).cursor().current),
                ),
            ),
            old(self).cursor().current <= final(self).cursor().current,
    {
        while !self.reader.is_at_end() && self.reader.peek() != '\n'
            invariant
                self.wf(),
                self.reader.source == old(self).reader.source,
                self.reader.start == old(self).reader.start,
                self.emitter@ == old(self).emitter@,
                old(self).cursor().current <= self.cursor().current,
                self.cursor() == rules::moved(old(self).cursor(), self.cursor().current),
                rules::line_end(old(self).source(), old(self).cursor().current) == rules::line_end(
                    self.source(),
                    self.cursor().current,
                ),
            decreases self.source().len() - self.cursor().current,
        {
            self.advance();
        }
    }

    fn comment(&mut self)
        requires
            old(self).wf(),
        ensures
            final(self).went(
                old(self),
                rules::moved(
                    old(self).cursor(),
                    rules::comment_end(old(self).source(), old(self).cursor().current),
                ),
            ),
            old(self).cursor().current <= final(self).cursor().current,
    {
        while !self.reader.is_at_end() && self.reader.peek() != '*' && self.reader.peek_next()
            != '/'
            invariant
                self.wf(),
                self.reader.source == old(self).reader.source,
                self.reader.start == old(self).reader.start,
                self.emitter@ == old(self).emitter@,
                old(self).cursor().current <= self.cursor().current,
                self.cursor() == rules::moved(old(self).cursor(), self.cursor().current),
                rules::comment_end(old(self).source(), old(self).cursor().current)
                    == rules::comment_end(self.source(), self.cursor().current),
            decreases self.source().len() - self.cursor().current,
        {
            self.advance();
        }
    }

    fn characters(&mut self)
        requires
            old(self).wf(),
        ensures
            final(self).went(old(self), rules::string_end(old(self).source(), old(self).cursor())),
            old(self).cursor().current <= final(self).cursor().current,
    {
        while !self.reader.is_at_end() && self.reader.peek() != '"'
            invariant
                self.wf(),
                self.reader.source == old(self).reader.source,
                self.reader.start == old(self).reader.start,
                self.emitter@ == old(self).emitter@,
                old(self).cursor().current <= self.cursor().current,
                rules::string_end(old(self).source(), old(self).cursor()) == rules::string_end(
                    self.source(),
                    self.cursor(),
                ),
            decreases self.source().len() - self.cursor().current,
        {
            if self.reader.peek() == '\n' {
                self.reader.next_row();
            }
            let _ = self.reader.advance();
        }
    }

    /// Scans one token, a comment or blank space. A token is emitted with
    /// the position of its first character.
    fn scan_token(&mut self) -> (r: Result<(), LexerError>)
        requires
            old(self).wf(),
            old(self).start() == old(self).cursor().current,
            old(self).cursor().current < old(self).source().len(),
        ensures
            final(self).source() == old(self).source(),
            match rules::scan_token(old(self).source(), old(self).cursor()) {
                Scan::Token { kind, value, end } => {
                    &&& r is Ok
                    &&& final(self).wf()
                    &&& final(self).cursor() == end
                    &&& old(self).cursor().current < end.current <= old(self).source().len()
                    &&& final(self).found() == old(self).found().push(
                        TokenView {
                            kind,
                            value,
                            lexeme: old(self).source().subrange(
                                old(self).cursor().current as int,
                                end.current as int,
                            ),
                            position: rules::position_of(old(self).cursor()),
                        },
                    )
                },
                Scan::Skip { end } => {
                    &&& r is Ok
                    &&& final(self).wf()
                    &&& final(self).cursor() == end
                    &&& old(self).cursor().current < end.current <= old(self).source().len()
                    &&& final(self).found() == old(self).found()
                },
                Scan::Failed { error } => r matches Err(e) && e@ == error,
            },
    {
        let position = TokenPosition { row: self.reader.row, column: self.reader.column };
        let first = self.advance();
        if first == '(' {
            self.add_token(TokenType::LeftParen, None, position);
        } else if first == ')' {
            self.add_token(TokenType::RightParen, None, position);
        } else if first == '{' {
            self.add_token(TokenType::LeftBrace, None, position);
        } else if first == '}' {
            self.add_token(TokenType::RightBrace, None, position);
        } else if first == ',' {
            self.add_token(TokenType::Comma, None, position);
        } else if first == '.' {
            self.add_token(TokenType::Dot, None, position);
        } else if first == '-' {
            self.add_token(TokenType::Minus, None, position);
        } else if first == '+' {
            self.add_token(TokenType::Plus, None, position);
        } else if first == ';' {
            self.add_token(TokenType::Semicolon, None, position);
        } else if first == '*' {
            self.add_token(TokenType::Star, None, position);
        } else if first == '!' {
            self.with_equal(TokenType::Bang, TokenType::BangEqual, position);
        } else if first == '=' {
            self.with_equal(TokenType::Equal, TokenType::EqualEqual, position);
        } else if first == '<' {
            self.with_equal(TokenType::Less, TokenType::LessEqual, position);
        } else if first == '>' {
            self.with_equal(TokenType::Greater, TokenType::GreaterEqual, position);
        } else if first == '/' {
            return self.after_slash(position);
        } else if first == '"' {
            return self.string(position);
        } else if digit(first) {
            self.number(position);
        } else if alpha(first) {
            self.identifier(position);
        } else if first == '\r' || first == '\t' || first == ' ' {
        } else if first == '\n' || first == '\0' {
            self.reader.next_row();
        } else {
            return Err(self.fail(LexerErrorMessage::UnexpectedCharacter));
        }
        Ok(())
    }

    fn with_equal(&mut self, alone: TokenType, joined: TokenType, position: TokenPosition)
        requires
            old(self).wf(),
        ensures
            final(self).wf(),
            final(self).source() == old(self).source(),
            rules::with_equal(old(self).source(), old(self).cursor(), alone, joined) matches Scan::Token {
                kind,
                value,
                end,
            } && final(self).cursor() == end && old(self).cursor().current <= end.current
                <= old(self).source().len() && final(self).found() == old(self).found().push(
                TokenView {
                    kind,
                    value,
                    lexeme: old(self).source().subrange(
                        old(self).start() as int,
                        end.current as int,
                    ),
                    position,
                },
            ),
    {
        if self.reader.next_is('=') {
            self.add_token(joined, None, position);
        } else {
            self.add_token(alone, None, position);
        }
    }

    /// What follows a `/`: a comment, or nothing.
    fn after_slash(&mut self, position: TokenPosition) -> (r: Result<(), LexerError>)
        requires
            old(self).wf(),
        ensures
            final(self).source() == old(self).source(),
            match rules::after_slash(old(self).source(), old(self).start(), old(self).cursor()) {
                Scan::Token { kind, value, end } => {
                    &&& r is Ok
                    &&& final(self).wf()
                    &&& final(self).cursor() == end
                    &&& old(self).cursor().current <= end.current <= old(self).source().len()
                    &&& final(self).found() == old(self).found().push(
                        TokenView {
                            kind,
                            value,
                            lexeme: old(self).source().subrange(
                                old(self).start() as int,
                                end.current as int,
                            ),
                            position,
                        },
                    )
                },
                Scan::Skip { end } => {
                    &&& r is Ok
                    &&& final(self).wf()
                    &&& final(self).cursor() == end
                    &&& old(self).cursor().current <= end.current <= old(self).source().len()
                    &&& final(self).found() == old(self).found()
                },
                Scan::Failed { error } => r matches Err(e) && e@ == error,
            },
    {
        if self.reader.next_is('/') {
            self.line();
        } else if self.reader.next_is('*') {
            self.comment();
            if !self.reader.is_at_end() {
                self.advance();
                if self.reader.is_at_end() {
                    return Err(self.fail(LexerErrorMessage::UnexpectedCharacter));
                }
                self.advance();
            }
        } else {
            self.add_token(TokenType::Slash, None, position);
        }
        Ok(())
    }

    /// What follows a quote: the characters of a string and the quote that
    /// closes it.
    fn string(&mut self, position: TokenPosition) -> (r: Result<(), LexerError>)
        requires
            old(self).wf(),
            old(self).start() < old(self).cursor().current,
        ensures
            final(self).source() == old(self).source(),
            match rules::after_quote(old(self).source(), old(self).start(), old(self).cursor()) {
                Scan::Token { kind, value, end } => {
                    &&& r is Ok
                    &&& final(self).wf()
                    &&& final(self).cursor() == end
                    &&& old(self).cursor().current <= end.current <= old(self).source().len()
                    &&& final(self).found() == old(self).found().push(
                        TokenView {
                            kind,
                            value,
                            lexeme: old(self).source().subrange(
                                old(self).start() as int,
                                end.current as int,
                            ),
                            position,
                        },
                    )
                },
                Scan::Skip { end } => false,
                Scan::Failed { error } => r matches Err(e) && e@ == error,
            },
    {
        self.characters();
        if self.reader.is_at_end() {
            return Err(self.fail(LexerErrorMessage::UnterminatedString));
        }
        let close = self.reader.current;
        self.advance();
        let value = string_of(&self.reader.source, self.reader.start + 1, close);
        self.add_token(TokenType::String, Some(Literal::String(value)), position);
        Ok(())
    }

    /// The rest of a number: digits, and a fraction where one follows. The
    /// token has no value yet.
    fn number(&mut self, position: TokenPosition)
        requires
            old(self).wf(),
        ensures
            final(self).wf(),
            final(self).source() == old(self).source(),
            final(self).cursor() == rules::moved(
                old(self).cursor(),
                rules::number_end(old(self).source(), old(self).cursor().current),
            ),
            old(self).cursor().current <= final(self).cursor().current
                <= old(self).source().len(),
            final(self).found() == old(self).found().push(
                TokenView {
                    kind: TokenType::Number,
                    value: None,
                    lexeme: old(self).source().subrange(
                        old(self).start() as int,
                        final(self).cursor().current as int,
                    ),
                    position,
                },
            ),
    {
        self.digits();
        if self.reader.peek() == '.' && digit(self.reader.peek_next()) {
            self.advance();
            self.digits();
        }
        self.add_token(TokenType::Number, None, position);
    }

    /// The rest of a word: digits and letters. The word is a keyword or an
    /// identifier.
    fn identifier(&mut self, position: TokenPosition)
        requires
            old(self).wf(),
        ensures
            final(self).wf(),
            final(self).source() == old(self).source(),
            final(self).cursor() == rules::moved(
                old(self).cursor(),
                rules::word_end(old(self).source(), old(self).cursor().current),
            ),
            old(self).cursor().current <= final(self).cursor().current
                <= old(self).source().len(),
            final(self).found() == old(self).found().push(
                TokenView {
                    kind: rules::word_kind(
                        old(self).source().subrange(
                            old(self).start() as int,
                            final(self).cursor().current as int,
                        ),
                    ),
                    value: None,
                    lexeme: old(self).source().subrange(
                        old(self).start() as int,
                        final(self).cursor().current as int,
                    ),
                    position,
                },
            ),
    {
        self.word();
        let kind = keyword(&self.reader.current_lexeme());
        self.add_token(kind, None, position);
    }

    /// Scans the text from where the reader stands to its end, and gives
    /// every token found, with the token that marks the end behind them.
    pub fn scan_tokens(self) -> (r: Result<Vec<Token>, LexerError>)
        requires
            self.wf(),
        ensures
            match r {
                Ok(tokens) => Ok::<Seq<TokenView>, LexerErrorView>(
                    tokens_view(tokens@),
                ) == after_found(self.found(), rules::tokens_from(self.source(), self.cursor())),
                Err(e) => Err::<Seq<TokenView>, LexerErrorView>(e@) == after_found(
                    self.found(),
                    rules::tokens_from(self.source(), self.cursor()),
                ),
            },
    {
        let mut scanner = self;
        while !scanner.reader.is_at_end()
            invariant
                scanner.wf(),
                scanner.source() == self.source(),
                after_found(self.found(), rules::tokens_from(self.source(), self.cursor()))
                    == after_found(
                    scanner.found(),
                    rules::tokens_from(scanner.source(), scanner.cursor()),
                ),
            decreases scanner.source().len() - scanner.cursor().current,
        {
            scanner.reader.start = scanner.reader.current;
            let ghost before = scanner;
            match scanner.scan_token() {
                Ok(_) => {
                    proof {
                        let rest = rules::tokens_from(scanner.source(), scanner.cursor());
                        match rules::scan_token(before.source(), before.cursor()) {
                            Scan::Token { kind, value, end } => {
                                let added = TokenView {
                                    kind,
                                    value,
                                    lexeme: before.source().subrange(
                                        before.cursor().current as int,
                                        end.current as int,
                                    ),
                                    position: rules::position_of(before.cursor()),
                                };
                                match rest {
                                    Ok(tokens) => {
                                        assert(before.found() + (seq![added] + tokens)
                                            =~= before.found().push(added) + tokens);
                                    },
                                    Err(_) => {},
                                }
                            },
                            _ => {},
                        }
                    }
                },
                Err(e) => {
                    return Err(e);
                },
            }
        }
        scanner.reader.start = scanner.reader.current;
        let ghost found = scanner.found();
        let ghost end = scanner.cursor();
        scanner.add_token(
            TokenType::EndOfFile,
            None,
            TokenPosition { row: scanner.reader.row, column: scanner.reader.column },
        );
        proof {
            assert(scanner.source().subrange(end.current as int, end.current as int)
                =~= Seq::empty());
            assert(rules::tokens_from(scanner.source(), end) == Ok::<
                Seq<TokenView>,
                LexerErrorView,
            >(seq![rules::end_token(end)]));
            assert(found + seq![rules::end_token(end)] =~= found.push(rules::end_token(end)));
        }
        Ok(scanner.emitter.tokens())
    }
}

/// The error for a text that has more characters than the machine can
/// count.
pub open spec fn too_long() -> LexerErrorView {
    LexerErrorView {
        message: LexerErrorMessage::UnexpectedCharacter,
        lexeme: Seq::empty(),
        position: TokenPosition { row: 1, column: 1 },
    }
}

/// The tokens of `source`, closed by the token that marks the end, or the
/// first error in it. A number token carries no value: its lexeme says
/// which number it stands for. A text that has more characters than the
/// machine can count is refused.
pub fn run(source: String) -> (r: Result<Vec<Token>, LexerError>)
    ensures
        match r {
            Ok(tokens) => source@.len() + 1 < usize::MAX && Ok::<Seq<TokenView>, LexerErrorView>(
                tokens_view(tokens@),
            ) == rules::scanned(source@),
            Err(e) => if source@.len() + 1 < usize::MAX {
                Err::<Seq<TokenView>, LexerErrorView>(e@) == rules::scanned(source@)
            } else {
                e@ == too_long()
            },
        },
{
    let scanner = Scanner::new(source);
    if scanner.reader.source.len() >= usize::MAX - 1 {
        return Err(
            LexerError {
                message: LexerErrorMessage::UnexpectedCharacter,
                lexeme: String::new(),
                position: TokenPosition { row: 1, column: 1 },
            },
        );
    }
    proof {
        match rules::scanned(source@) {
            Ok(tokens) => {
                assert(Seq::<TokenView>::empty() + tokens =~= tokens);
            },
            Err(_) => {},
        }
    }
    scanner.scan_tokens()
}

} // verus!
