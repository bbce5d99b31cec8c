//! Lexical tokens: the raw text of a lexeme and the kind the reader gave it.

use vstd::prelude::*;

verus! {

/// The kind of a token. Numbers and keywords have no kind of their own: they
/// are symbols until they are evaluated.
#[derive(Clone, Copy, Debug, PartialEq, Eq, Structural)]
pub enum TokenType {
    /// An identifier, a keyword or a number.
    Symbol,
    /// A string literal, with its quotes and escapes as written.
    String,
}

/// A lexical token.
pub struct Token {
    text: String,
    kind: TokenType,
}

/// What a token holds: its text and its kind.
pub struct TokenView {
    pub text: Seq<char>,
    pub kind: TokenType,
}

impl View for Token {
    type V = TokenView;

    closed spec fn view(&self) -> TokenView {
        TokenView { text: self.text@, kind: self.kind }
    }
}

impl Token {
    /// A token of the given text and kind.
    pub fn new(text: String, kind: TokenType) -> (r: Token)
        ensures
            r@ == (TokenView { text: text@, kind }),
    {
        Token { text, kind }
    }

    /// The token's text as the reader saw it.
    pub fn get_text(&self) -> (r: &String)
        ensures
            r@ == self@.text,
    {
        &self.text
    }

    /// The token's kind.
    pub fn get_type(&self) -> (r: TokenType)
        ensures
            r == self@.kind,
    {
        self.kind
    }
}

impl Clone for Token {
    fn clone(&self) -> (r: Self)
        ensures
            r@ == self@,
    {
        Token { text: self.text.clone(), kind: self.kind }
    }
}

} // verus!
