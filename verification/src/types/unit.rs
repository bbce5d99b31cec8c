//! Atoms: the leaves of a syntax tree that are still to be evaluated.

use crate::reader::tokenizer::{Token, TokenView};
use vstd::prelude::*;

verus! {

/// An unevaluated atom. It carries the raw token; what the token means is
/// decided only when the atom is evaluated.
pub struct Unit {
    token: Token,
}

impl View for Unit {
    type V = TokenView;

    closed spec fn view(&self) -> TokenView {
        self.token@
    }
}

impl Unit {
    /// The atom that wraps `token`.
    pub fn new(token: Token) -> (r: Unit)
        ensures
            r@ == token@,
    {
        Unit { token }
    }

    /// The token that the atom wraps.
    pub fn token(&self) -> (r: &Token)
        ensures
            r@ == self@,
    {
        &self.token
    }
}

impl Clone for Unit {
    fn clone(&self) -> (r: Self)
        ensures
            r@ == self@,
    {
        Unit { token: self.token.clone() }
    }
}

} // verus!
