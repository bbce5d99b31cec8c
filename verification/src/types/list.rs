//! Lists of values.

use crate::reader::tokenizer::{Token, TokenView};
use crate::types::ast::{printed, printed_items, value_view, LispValue, ValueView};
use vstd::prelude::*;

verus! {

/// An ordered sequence of values; it may be empty.
pub struct List<C> {
    pub items: Vec<LispValue<C>>,
}

impl<C> View for List<C> {
    type V = Seq<ValueView<C>>;

    open spec fn view(&self) -> Seq<ValueView<C>> {
        Seq::new(
            self.items.len() as nat,
            |i: int|
                if 0 <= i < self.items.len() {
                    value_view(self.items[i])
                } else {
                    ValueView::Nil
                },
        )
    }
}

/// The token at the head of `items`, if the first item is an atom.
pub open spec fn head_token<C>(items: Seq<ValueView<C>>) -> Option<TokenView> {
    if items.len() > 0 {
        match items[0] {
            ValueView::Unit(token) => Some(token),
            _ => None,
        }
    } else {
        None
    }
}

impl<C> List<C> {
    /// The empty list.
    pub fn new() -> (r: List<C>)
        ensures
            r@ == Seq::<ValueView<C>>::empty(),
    {
        List { items: Vec::new() }
    }

    /// The list of `items`, in their order.
    pub fn from_vec(items: Vec<LispValue<C>>) -> (r: List<C>)
        ensures
            r.items == items,
    {
        List { items }
    }

    /// The number of items.
    pub fn len(&self) -> (r: usize)
        ensures
            r == self@.len(),
    {
        self.items.len()
    }

    /// The item at position `i`.
    pub fn get(&self, i: usize) -> (r: &LispValue<C>)
        requires
            i < self@.len(),
        ensures
            r@ == self@[i as int],
    {
        &self.items[i]
    }

    /// Adds `value` at the end.
    pub fn push(&mut self, value: LispValue<C>)
        ensures
            final(self)@ == old(self)@.push(value@),
    {
        self.items.push(value);
    }

    /// The token of the first item, if the list has one and it is an atom.
    pub fn first_token(&self) -> (r: Option<&Token>)
        ensures
            match r {
                Some(token) => head_token(self@) == Some(token@),
                None => head_token(self@) is None,
            },
    {
        if self.items.len() == 0 {
            return None;
        }
        match &self.items[0] {
            LispValue::Unit(atom) => Some(atom.token()),
            _ => None,
        }
    }

    /// Appends the list, written out, to `out`.
    pub fn print_into(&self, out: &mut String)
        ensures
            final(out)@ == old(out)@ + printed(ValueView::List(self@)),
        decreases self,
    {
        out.push('(');
        let ghost start = out@;
        let mut i: usize = 0;
        while i < self.items.len()
            invariant
                i <= self.items.len(),
                self@.len() == self.items.len(),
                out@ == start + printed_items(self@, i as nat),
            decreases self.items.len() - i,
        {
            if i > 0 {
                out.push(' ');
            }
            self.items[i].print_into(out);
            i += 1;
        }
        out.push(')');
    }

    /// The list written out.
    pub fn to_text(&self) -> (r: String)
        ensures
            r@ == printed(ValueView::List(self@)),
    {
        let mut out = String::new();
        self.print_into(&mut out);
        out
    }
}

impl<C> Clone for List<C> {
    fn clone(&self) -> (r: Self)
        ensures
            r@ == self@,
        decreases self,
    {
        let mut items: Vec<LispValue<C>> = Vec::new();
        let mut i: usize = 0;
        while i < self.items.len()
            invariant
                i <= self.items.len(),
                items.len() == i,
                forall|j: int| 0 <= j < i ==> (#[trigger] items[j])@ == self.items[j]@,
            decreases self.items.len() - i,
        {
            items.push(self.items[i].clone());
            i += 1;
        }
        List { items }
    }
}

} // verus!
