//! Where the scanner puts the tokens that it finds.

use crate::token::{tokens_view, Literal, Token, TokenPosition, TokenType, TokenView};
use vstd::prelude::*;

verus! {

/// The tokens found so far, in order.
#[derive(Debug)]
pub struct Emitter {
    tokens: Vec<Token>,
}

impl View for Emitter {
    type V = Seq<TokenView>;

    closed spec fn view(&self) -> Seq<TokenView> {
        tokens_view(self.tokens@)
    }
}

impl Emitter {
    /// An emitter without tokens.
    pub fn new() -> (r: Self)
        ensures
            r@ == Seq::<TokenView>::empty(),
    {
        let r = Self { tokens: Vec::new() };
        proof {
            assert(r@ =~= Seq::<TokenView>::empty());
        }
        r
    }

    /// The tokens found so far.
    pub fn tokens(self) -> (r: Vec<Token>)
        ensures
            tokens_view(r@) == self@,
    {
        self.tokens
    }

    /// Adds a token behind those found so far.
    pub fn add_token(
        &mut self,
        kind: TokenType,
        value: Option<Literal>,
        lexeme: String,
        row: usize,
        column: usize,
    )
        ensures
            final(self)@ == old(self)@.push(
                (Token { kind, value, lexeme, position: TokenPosition { row, column } })@,
            ),
    {
        self.tokens.push(Token { kind, value, lexeme, position: TokenPosition { row, column } });
        proof {
            assert(final(self)@ =~= old(self)@.push(
                (Token { kind, value, lexeme, position: TokenPosition { row, column } })@,
            ));
        }
    }
}

} // verus!
