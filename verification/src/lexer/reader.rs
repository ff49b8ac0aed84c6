//! A cursor over the characters of the source text.

use crate::lexer::error::{LexerError, LexerErrorMessage};
use crate::text::{chars_of, string_of};
use crate::token::TokenPosition;
use vstd::prelude::*;

verus! {

/// A cursor over the source text. `start` marks where the lexeme being
/// scanned begins, `current` the next character to read; `row` and `column`
/// follow the cursor and count from one.
pub struct Reader {
    pub source: Vec<char>,
    pub start: usize,
    pub current: usize,
    pub row: usize,
    pub column: usize,
}

impl Reader {
    /// The marks lie in the text and in order.
    pub open spec fn wf(&self) -> bool {
        self.start <= self.current <= self.source@.len()
    }

    /// The text between the two marks.
    pub open spec fn lexeme(&self) -> Seq<char> {
        self.source@.subrange(self.start as int, self.current as int)
    }

    /// The character under the cursor, or the null character at the end.
    pub open spec fn spec_peek(&self) -> char {
        if self.current < self.source@.len() {
            self.source@[self.current as int]
        } else {
            '\0'
        }
    }

    /// The character after the one under the cursor, or the null character.
    pub open spec fn spec_peek_next(&self) -> char {
        if self.current + 1 < self.source@.len() {
            self.source@[self.current + 1]
        } else {
            '\0'
        }
    }

    /// A reader at the beginning of `source`.
    pub fn new(source: String) -> (r: Self)
        ensures
            r.wf(),
            r.source@ == source@,
            r.start == 0,
            r.current == 0,
            r.row == 1,
            r.column == 1,
    {
        Self { source: chars_of(source.as_str()), start: 0, current: 0, row: 1, column: 1 }
    }

    /// Reads the character under the cursor and moves one character on. At
    /// the end of the text nothing moves and the error holds the lexeme so
    /// far and the cursor's position.
    pub fn advance(&mut self) -> (r: Result<char, LexerError>)
        requires
            old(self).wf(),
            old(self).column < usize::MAX,
        ensures
            final(self).wf(),
            final(self).source == old(self).source,
            final(self).start == old(self).start,
            final(self).row == old(self).row,
            match r {
                Ok(c) => {
                    &&& old(self).current < old(self).source@.len()
                    &&& c == old(self).source@[old(self).current as int]
                    &&& final(self).current == old(self).current + 1
                    &&& final(self).column == old(self).column + 1
                },
                Err(e) => {
                    &&& old(self).current == old(self).source@.len()
                    &&& final(self).current == old(self).current
                    &&& final(self).column == old(self).column
                    &&& e.message == LexerErrorMessage::UnexpectedCharacter
                    &&& e.lexeme@ == old(self).lexeme()
                    &&& e.position == (TokenPosition {
                        row: old(self).row,
                        column: old(self).column,
                    })
                },
            },
    {
        if self.current < self.source.len() {
            let c = self.source[self.current];
            self.current += 1;
            self.column += 1;
            Ok(c)
        } else {
            Err(
                LexerError {
                    message: LexerErrorMessage::UnexpectedCharacter,
                    lexeme: self.current_lexeme(),
                    position: TokenPosition { row: self.row, column: self.column },
                },
            )
        }
    }

    /// Moves over the character under the cursor if it is `expected`, and
    /// says whether it did.
    pub fn next_is(&mut self, expected: char) -> (b: bool)
        requires
            old(self).wf(),
            old(self).column < usize::MAX,
        ensures
            final(self).wf(),
            b == (old(self).current < old(self).source@.len() && old(self).spec_peek()
                == expected),
            final(self).source == old(self).source,
            final(self).start == old(self).start,
            final(self).row == old(self).row,
            final(self).current == old(self).current + (if b {
                1int
            } else {
                0int
            }),
            final(self).column == old(self).column + (if b {
                1int
            } else {
                0int
            }),
    {
        if self.current >= self.source.len() {
            return false;
        }
        if self.source[self.current] == expected {
            let _ = self.advance();
            true
        } else {
            false
        }
    }

    /// Moves the position to the beginning of the next row.
    pub fn next_row(&mut self)
        requires
            old(self).row < usize::MAX,
        ensures
            final(self).row == old(self).row + 1,
            final(self).column == 1,
            final(self).source == old(self).source,
            final(self).start == old(self).start,
            final(self).current == old(self).current,
    {
        self.row += 1;
        self.column = 1;
    }

    /// The character under the cursor, or the null character at the end.
    pub fn peek(&self) -> (c: char)
        ensures
            c == self.spec_peek(),
    {
        if self.current < self.source.len() {
            self.source[self.current]
        } else {
            '\0'
        }
    }

    /// The character after the one under the cursor, or the null character.
    pub fn peek_next(&self) -> (c: char)
        ensures
            c == self.spec_peek_next(),
    {
        if self.current < self.source.len() && self.current + 1 < self.source.len() {
            self.source[self.current + 1]
        } else {
            '\0'
        }
    }

    /// Whether the cursor is past the last character.
    pub fn is_at_end(&self) -> (b: bool)
        ensures
            b == (self.current >= self.source@.len()),
    {
        self.current >= self.source.len()
    }

    /// The text between the two marks.
    pub fn current_lexeme(&self) -> (r: String)
        requires
            self.wf(),
        ensures
            r@ == self.lexeme(),
    {
        string_of(&self.source, self.start, self.current)
    }

    /// The column at which a lexeme of `lexeme_len` characters began, if it
    /// ends just before the cursor.
    pub fn calculate_column(&self, lexeme_len: usize) -> (c: usize)
        requires
            lexeme_len <= self.column,
        ensures
            c == self.column - lexeme_len,
    {
        self.column - lexeme_len
    }
}

} // verus!
