//! Runtime values: the closed set of variants, their mathematical view, and
//! how a value is written out as text.

use crate::reader::tokenizer::TokenView;
use crate::text::chars_of;
use crate::types::list::List;
use crate::types::number::{decimal, push_decimal, FloatLiteral};
use crate::types::unit::Unit;
use std::rc::Rc;
use vstd::prelude::*;
use vstd::string::*;

verus! {

/// A runtime value. `C` is the type of the callables that the host binds into
/// the environment.
pub enum LispValue<C> {
    /// The absent value.
    Nil,
    /// A truth value.
    Boolean(bool),
    /// A signed 64-bit integer.
    Int(i64),
    /// A floating-point number, as the literal that denotes it.
    Float(FloatLiteral),
    /// A text.
    String(String),
    /// An atom that has not been evaluated.
    Unit(Unit),
    /// An ordered sequence of values, possibly empty.
    List(List<C>),
    /// A callable that is handed the unevaluated list it heads.
    Function(Rc<C>),
    /// A callable whose result is evaluated again.
    Macro(Rc<C>),
    /// An error, with its message.
    Error(String),
}

/// What a value is, with texts as sequences of characters and lists as
/// sequences of views.
pub enum ValueView<C> {
    Nil,
    Boolean(bool),
    Int(i64),
    Float(Seq<char>),
    String(Seq<char>),
    Unit(TokenView),
    List(Seq<ValueView<C>>),
    Function(C),
    Macro(C),
    Error(Seq<char>),
}

/// The view of `v`; the view of a list is the sequence of its items' views.
pub open spec fn value_view<C>(v: LispValue<C>) -> ValueView<C>
    decreases v,
{
    match v {
        LispValue::Nil => ValueView::Nil,
        LispValue::Boolean(b) => ValueView::Boolean(b),
        LispValue::Int(i) => ValueView::Int(i),
        LispValue::Float(f) => ValueView::Float(f@),
        LispValue::String(s) => ValueView::String(s@),
        LispValue::Unit(u) => ValueView::Unit(u@),
        LispValue::List(l) => ValueView::List(
            Seq::new(
                l.items.len() as nat,
                |i: int|
                    if 0 <= i < l.items.len() {
                        value_view(l.items[i])
                    } else {
                        ValueView::Nil
                    },
            ),
        ),
        LispValue::Function(f) => ValueView::Function(*f),
        LispValue::Macro(f) => ValueView::Macro(*f),
        LispValue::Error(s) => ValueView::Error(s@),
    }
}

impl<C> View for LispValue<C> {
    type V = ValueView<C>;

    open spec fn view(&self) -> ValueView<C> {
        value_view(*self)
    }
}

/// The view of a list value is the list's own view, item by item.
pub proof fn lemma_list_view<C>(list: List<C>)
    ensures
        LispValue::List(list)@ == ValueView::List(list@),
        list@.len() == list.items.len(),
        forall|i: int| 0 <= i < list.items.len() ==> list@[i] == (#[trigger] list.items[i])@,
{
    reveal_with_fuel(value_view, 2);
    assert(LispValue::List(list)@->List_0 =~= list@);
}

/// `Rc::clone` hands back another pointer to the same callable.
#[verifier::external_body]
pub(crate) fn share<C>(f: &Rc<C>) -> (r: Rc<C>)
    ensures
        r == *f,
{
    Rc::clone(f)
}

impl<C> Clone for LispValue<C> {
    fn clone(&self) -> (r: Self)
        ensures
            r@ == self@,
        decreases self,
    {
        match self {
            LispValue::Nil => LispValue::Nil,
            LispValue::Boolean(b) => LispValue::Boolean(*b),
            LispValue::Int(i) => LispValue::Int(*i),
            LispValue::Float(f) => LispValue::Float(f.clone()),
            LispValue::String(s) => LispValue::String(s.clone()),
            LispValue::Unit(u) => LispValue::Unit(u.clone()),
            LispValue::List(l) => {
                let copy = l.clone();
                proof {
                    lemma_list_view(*l);
                    lemma_list_view(copy);
                }
                LispValue::List(copy)
            },
            LispValue::Function(f) => LispValue::Function(share(f)),
            LispValue::Macro(f) => LispValue::Macro(share(f)),
            LispValue::Error(s) => LispValue::Error(s.clone()),
        }
    }
}

/// `s` with every newline written as a backslash followed by `n`.
pub open spec fn escaped(s: Seq<char>) -> Seq<char>
    decreases s.len(),
{
    if s.len() == 0 {
        Seq::empty()
    } else if s.last() == '\n' {
        escaped(s.drop_last()) + seq!['\\', 'n']
    } else {
        escaped(s.drop_last()).push(s.last())
    }
}

/// How a value is written out: numbers in decimal, texts in quotes with
/// their newlines escaped, atoms as their token, lists in parentheses with
/// a space between items.
pub open spec fn printed<C>(v: ValueView<C>) -> Seq<char>
    decreases v, 0nat,
{
    match v {
        ValueView::Nil => "nil"@,
        ValueView::Boolean(b) => if b {
            "true"@
        } else {
            "false"@
        },
        ValueView::Int(i) => decimal(i as int),
        ValueView::Float(text) => text,
        ValueView::String(s) => seq!['"'] + escaped(s) + seq!['"'],
        ValueView::Unit(token) => token.text,
        ValueView::List(items) => seq!['('] + printed_items(items, items.len()) + seq![')'],
        ValueView::Function(_) => "#<function>"@,
        ValueView::Macro(_) => "#<macro>"@,
        ValueView::Error(message) => "error: "@ + message,
    }
}

/// The first `n` items of `items`, each written out, with a space between
/// neighbours.
pub open spec fn printed_items<C>(items: Seq<ValueView<C>>, n: nat) -> Seq<char>
    decreases items, n,
{
    if n == 0 || n > items.len() {
        Seq::empty()
    } else if n == 1 {
        printed(items[0])
    } else {
        printed_items(items, (n - 1) as nat) + seq![' '] + printed(items[n - 1])
    }
}

/// Appends `s`, with its newlines escaped, to `out`.
pub fn push_escaped(out: &mut String, s: &str)
    ensures
        final(out)@ == old(out)@ + escaped(s@),
{
    let chars = chars_of(s);
    let mut i: usize = 0;
    while i < chars.len()
        invariant
            i <= chars.len(),
            chars@ == s@,
            out@ == old(out)@ + escaped(chars@.take(i as int)),
        decreases chars.len() - i,
    {
        let c = chars[i];
        assert(chars@.take(i + 1).drop_last() =~= chars@.take(i as int));
        if c == '\n' {
            out.push('\\');
            out.push('n');
        } else {
            out.push(c);
        }
        i += 1;
    }
    assert(chars@.take(i as int) =~= s@);
}

impl<C> LispValue<C> {
    /// Appends the value, written out, to `out`.
    pub fn print_into(&self, out: &mut String)
        ensures
            final(out)@ == old(out)@ + printed(self@),
        decreases self,
    {
        match self {
            LispValue::Nil => out.append("nil"),
            LispValue::Boolean(b) => {
                if *b {
                    out.append("true")
                } else {
                    out.append("false")
                }
            },
            LispValue::Int(i) => push_decimal(out, *i),
            LispValue::Float(f) => out.append(f.text().as_str()),
            LispValue::String(s) => {
                out.push('"');
                push_escaped(out, s.as_str());
                out.push('"');
            },
            LispValue::Unit(u) => out.append(u.token().get_text().as_str()),
            LispValue::List(l) => {
                proof {
                    lemma_list_view(*l);
                }
                l.print_into(out)
            },
            LispValue::Function(_) => out.append("#<function>"),
            LispValue::Macro(_) => out.append("#<macro>"),
            LispValue::Error(message) => {
                out.append("error: ");
                out.append(message.as_str());
            },
        }
    }

    /// The value written out.
    pub fn to_text(&self) -> (r: String)
        ensures
            r@ == printed(self@),
    {
        let mut out = String::new();
        self.print_into(&mut out);
        out
    }
}

} // verus!
