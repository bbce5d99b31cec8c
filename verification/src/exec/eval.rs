//! The evaluator: generic dispatch with macro expansion, list application
//! and symbol resolution.

use crate::reader::tokenizer::{TokenType, TokenView};
use crate::text::{chars_of, spells};
use crate::types::ast::{lemma_list_view, printed, share, LispValue, ValueView};
use crate::types::callable::Callable;
use crate::types::env::{Scope, ScopeView};
use crate::types::list::{head_token, List};
use crate::types::number::{
    is_float_literal, natural_digits, parse_i64, parsed_i64, push_natural, FloatLiteral,
};
use crate::types::unit::Unit;
use std::rc::Rc;
use vstd::prelude::*;
use vstd::string::*;

verus! {

/// How many macro expansions may follow one another in the evaluation of one
/// value. A macro whose expansion calls the macro again would otherwise never
/// come to an end; a chain that is still expanding after so many steps ends
/// in the error `macro expansion limit reached` instead. The limit is far
/// beyond what any program that terminates will reach.
pub const EXPANSION_LIMIT: u64 = u64::MAX;

/// `s` with every backslash that is followed by `n` read, together with the
/// `n`, as one newline. No other escape is known.
pub open spec fn unescaped(s: Seq<char>) -> Seq<char>
    decreases s.len(),
{
    if s.len() == 0 {
        Seq::empty()
    } else if s.len() >= 2 && s[0] == '\\' && s[1] == 'n' {
        seq!['\n'] + unescaped(s.skip(2))
    } else {
        seq![s[0]] + unescaped(s.skip(1))
    }
}

/// `text` is at least two characters long and begins and ends with a double
/// quote.
pub open spec fn is_quoted(text: Seq<char>) -> bool {
    text.len() >= 2 && text.first() == '"' && text.last() == '"'
}

/// The value of a string token: the text between the quotes with its
/// escapes read, or an error if the quotes are not both there.
pub open spec fn decoded<C>(text: Seq<char>) -> ValueView<C> {
    if is_quoted(text) {
        ValueView::String(unescaped(text.subrange(1, text.len() - 1)))
    } else {
        ValueView::Error("malformatted string"@)
    }
}

/// The value of an unbound symbol: a keyword, else an integer, else a
/// floating-point literal, else an error that names the symbol.
pub open spec fn literal_value<C>(text: Seq<char>) -> ValueView<C> {
    if text == "nil"@ {
        ValueView::Nil
    } else if text == "true"@ {
        ValueView::Boolean(true)
    } else if text == "false"@ {
        ValueView::Boolean(false)
    } else {
        match parsed_i64(text) {
            Some(i) => ValueView::Int(i),
            None => if is_float_literal(text) {
                ValueView::Float(text)
            } else {
                ValueView::Error("could not parse symbol: "@ + text)
            },
        }
    }
}

/// The value of an atom in a scope: a string token is decoded; any other
/// token is looked up by its text, and read as a literal only if no scope
/// binds it.
pub open spec fn symbol_value<C>(token: TokenView, env: ScopeView<C>) -> ValueView<C> {
    if token.kind == TokenType::String {
        decoded(token.text)
    } else {
        match env.lookup(token.text) {
            Some(value) => value,
            None => literal_value(token.text),
        }
    }
}

/// The macro that `root` calls: `root` is a list, its first item is an atom,
/// and the atom's text is bound to a macro in `env`.
pub open spec fn head_macro<C>(root: ValueView<C>, env: ScopeView<C>) -> Option<C> {
    match root {
        ValueView::List(items) => match head_token(items) {
            Some(token) => match env.lookup(token.text) {
                Some(ValueView::Macro(m)) => Some(m),
                _ => None,
            },
            None => None,
        },
        _ => None,
    }
}

/// The value that ends a chain of macro expansions that has used up its
/// budget.
pub open spec fn expansion_error<C>() -> ValueView<C> {
    ValueView::Error("macro expansion limit reached"@)
}

/// The value of a list whose head did not evaluate to something callable.
pub open spec fn not_callable<C>(items: Seq<ValueView<C>>) -> ValueView<C> {
    ValueView::Error("cannot evaluate list: "@ + printed(ValueView::List(items)))
}

/// Applying the evaluated head `op` of the list `items` in a scope holding
/// `before` may give `out` and leave the scope holding `after`: a function is
/// called on the whole unevaluated list, an error is passed on as it is, and
/// anything else is an error that shows the list. Only a call can change the
/// scope.
pub open spec fn applies<C: Callable>(
    op: ValueView<C>,
    items: Seq<ValueView<C>>,
    before: ScopeView<C>,
    out: ValueView<C>,
    after: ScopeView<C>,
) -> bool {
    match op {
        ValueView::Function(f) => f.yields(items, before, out, after),
        ValueView::Error(_) => out == op && after == before,
        _ => out == not_callable(items) && after == before,
    }
}

/// Evaluating `root` in a scope holding `before`, with `budget` macro
/// expansions allowed in a row, may give `out` and leave the scope holding
/// `after`.
///
/// A list headed by a macro is handed to the macro and the expansion is
/// evaluated in its place, in the scope as the macro left it and with one
/// expansion less allowed; with none allowed the outcome is the error that
/// says so. Any other list is evaluated as a list, an atom as a symbol, and
/// every other value is its own value. Where no callable is called there is
/// exactly one outcome and the scope stays as it was.
pub open spec fn evaluates<C: Callable>(
    root: ValueView<C>,
    before: ScopeView<C>,
    budget: nat,
    out: ValueView<C>,
    after: ScopeView<C>,
) -> bool
    decreases budget, root, 1nat,
{
    match head_macro(root, before) {
        Some(m) => if budget == 0 {
            out == expansion_error::<C>() && after == before
        } else {
            exists|expansion: ValueView<C>, mid: ScopeView<C>|
                #![trigger m.yields(root->List_0, before, expansion, mid)]
                m.yields(root->List_0, before, expansion, mid) && evaluates(
                    expansion,
                    mid,
                    (budget - 1) as nat,
                    out,
                    after,
                )
        },
        None => match root {
            ValueView::List(items) => list_evaluates(items, before, budget, out, after),
            ValueView::Unit(token) => out == symbol_value(token, before) && after == before,
            _ => out == root && after == before,
        },
    }
}

/// Evaluating the list `items` in a scope holding `before` may give `out` and
/// leave the scope holding `after`: the empty list gives `Nil`; otherwise the
/// first item is evaluated and the outcome applied to the whole list.
pub open spec fn list_evaluates<C: Callable>(
    items: Seq<ValueView<C>>,
    before: ScopeView<C>,
    budget: nat,
    out: ValueView<C>,
    after: ScopeView<C>,
) -> bool
    decreases budget, items, 0nat,
{
    if items.len() == 0 {
        out == ValueView::<C>::Nil && after == before
    } else {
        exists|op: ValueView<C>, mid: ScopeView<C>|
            evaluates(items[0], before, budget, op, mid) && #[trigger] applies(
                op,
                items,
                mid,
                out,
                after,
            )
    }
}

/// Decodes the text of a string token: the characters between the bounding
/// quotes, with each backslash that is followed by `n` read as a newline. A
/// text that does not begin and end with a double quote of its own, and so
/// the text of a single quote too, gives the error `malformatted string`.
pub fn convert_string<C>(s: &String) -> (r: LispValue<C>)
    ensures
        r@ == decoded::<C>(s@),
{
    let chars = chars_of(s.as_str());
    let n = chars.len();
    if n < 2 || chars[0] != '"' || chars[n - 1] != '"' {
        return LispValue::Error(String::from_str("malformatted string"));
    }
    let ghost inner = chars@.subrange(1, n - 1);
    let mut out = String::new();
    let mut i: usize = 1;
    while i < n - 1
        invariant
            1 <= i <= n - 1,
            n == chars.len(),
            inner == chars@.subrange(1, n - 1),
            out@ + unescaped(chars@.subrange(i as int, n - 1)) == unescaped(inner),
        decreases n - i,
    {
        let ghost rest = chars@.subrange(i as int, n - 1);
        if chars[i] == '\\' && i + 1 < n - 1 && chars[i + 1] == 'n' {
            out.push('\n');
            assert(rest.skip(2) =~= chars@.subrange(i + 2, n - 1));
            i += 2;
        } else {
            out.push(chars[i]);
            assert(rest.skip(1) =~= chars@.subrange(i + 1, n - 1));
            i += 1;
        }
    }
    LispValue::String(out)
}

/// Reads the text of an unbound symbol as a literal: `nil`, `true` or
/// `false`; else a signed 64-bit integer in base 10; else a floating-point
/// literal; else the error `could not parse symbol: ` followed by the text.
pub fn literal<C>(text: &String) -> (r: LispValue<C>)
    ensures
        r@ == literal_value::<C>(text@),
{
    let chars = chars_of(text.as_str());
    if spells(&chars, "nil") {
        LispValue::Nil
    } else if spells(&chars, "true") {
        LispValue::Boolean(true)
    } else if spells(&chars, "false") {
        LispValue::Boolean(false)
    } else {
        match parse_i64(&chars) {
            Some(i) => LispValue::Int(i),
            None => match FloatLiteral::parse(text.as_str()) {
                Some(f) => LispValue::Float(f),
                None => {
                    let mut message = String::from_str("could not parse symbol: ");
                    message.append(text.as_str());
                    LispValue::Error(message)
                },
            },
        }
    }
}

/// Evaluates an atom: decodes a string token; resolves any other token in
/// `env`, and reads it as a literal if it is bound nowhere. The scope is not
/// changed.
pub fn eval_symbol<C>(atom: &Unit, env: &mut Scope<'_, C>) -> (r: LispValue<C>)
    ensures
        r@ == symbol_value(atom@, old(env)@),
        final(env)@ == old(env)@,
{
    if atom.token().get_type() == TokenType::String {
        return convert_string(atom.token().get_text());
    }
    let name = atom.token().get_text();
    if let Some(result) = env.get(name) {
        return result;
    }
    literal(name)
}

/// Applies the evaluated head `op` of `list`: calls it on the unevaluated
/// list if it is a function, passes it on if it is an error, and otherwise
/// reports that the list cannot be evaluated.
pub fn apply<C: Callable>(op: LispValue<C>, list: &List<C>, env: &mut Scope<'_, C>) -> (r:
    LispValue<C>)
    ensures
        applies(op@, list@, old(env)@, r@, final(env)@),
{
    match op {
        LispValue::Function(f) => f.call(list, env),
        LispValue::Error(message) => LispValue::Error(message),
        _ => {
            let mut message = String::from_str("cannot evaluate list: ");
            let shown = list.to_text();
            message.append(shown.as_str());
            LispValue::Error(message)
        },
    }
}

fn macro_at_head<C>(root: &LispValue<C>, env: &Scope<'_, C>) -> (r: Option<Rc<C>>)
    ensures
        match r {
            Some(m) => head_macro(root@, env@) == Some(*m),
            None => head_macro(root@, env@) is None,
        },
{
    match root {
        LispValue::List(list) => {
            proof {
                lemma_list_view(*list);
            }
            match list.first_token() {
                Some(token) => match env.lookup(token.get_text()) {
                    Some(LispValue::Macro(m)) => Some(share(m)),
                    _ => None,
                },
                None => None,
            }
        },
        _ => None,
    }
}

/// Evaluates `root` in `env`, allowing at most `budget` macro expansions in a
/// row: a macro call met with no budget left evaluates to the error `macro
/// expansion limit reached`, and the macro is not run.
pub fn eval_ast_bounded<C: Callable>(
    root: &LispValue<C>,
    env: &mut Scope<'_, C>,
    budget: u64,
) -> (r: LispValue<C>)
    ensures
        evaluates(root@, old(env)@, budget as nat, r@, final(env)@),
    decreases budget, root, 1nat,
{
    if let Some(m) = macro_at_head(root, env) {
        if budget == 0 {
            return LispValue::Error(String::from_str("macro expansion limit reached"));
        }
        if let LispValue::List(list) = root {
            proof {
                lemma_list_view(*list);
            }
            let ghost before = env@;
            let expansion = m.call(list, env);
            let ghost mid = env@;
            let r = eval_ast_bounded(&expansion, env, budget - 1);
            assert(head_macro(root@, before)->Some_0.yields(
                root@->List_0,
                before,
                expansion@,
                mid,
            ));
            return r;
        }
    }
    match root {
        LispValue::List(list) => {
            proof {
                lemma_list_view(*list);
            }
            eval_list_bounded(list, env, budget)
        },
        LispValue::Unit(atom) => eval_symbol(atom, env),
        _ => root.clone(),
    }
}

/// Evaluates `list` in `env`, allowing at most `budget` macro expansions in a
/// row while its head is evaluated.
pub fn eval_list_bounded<C: Callable>(list: &List<C>, env: &mut Scope<'_, C>, budget: u64) -> (r:
    LispValue<C>)
    ensures
        list_evaluates(list@, old(env)@, budget as nat, r@, final(env)@),
    decreases budget, list, 0nat,
{
    proof {
        lemma_list_view(*list);
    }
    if list.len() == 0 {
        return LispValue::Nil;
    }
    let ghost before = env@;
    let op = eval_ast_bounded(&list.items[0], env, budget);
    let ghost head = op@;
    let ghost mid = env@;
    let r = apply(op, list, env);
    assert(evaluates(list@[0], before, budget as nat, head, mid));
    assert(applies(head, list@, mid, r@, env@));
    r
}

/// Evaluates `root` in `env`: expands a macro call and evaluates the
/// expansion, evaluates any other list as a list and an atom as a symbol,
/// and returns every other value as it is. The scope is changed only by the
/// functions and macros that are called on the way.
pub fn eval_ast<C: Callable>(root: &LispValue<C>, env: &mut Scope<'_, C>) -> (r: LispValue<C>)
    ensures
        evaluates(root@, old(env)@, EXPANSION_LIMIT as nat, r@, final(env)@),
        root@ matches ValueView::Unit(token) ==> r@ == symbol_value(token, old(env)@)
            && final(env)@ == old(env)@,
        !(root@ is List) && !(root@ is Unit) ==> r@ == root@ && final(env)@ == old(env)@,
{
    eval_ast_bounded(root, env, EXPANSION_LIMIT)
}

/// Evaluates `list` in `env`: the empty list is `Nil`; otherwise the first
/// item is evaluated and applied to the whole unevaluated list.
pub fn eval_list<C: Callable>(list: &List<C>, env: &mut Scope<'_, C>) -> (r: LispValue<C>)
    ensures
        list_evaluates(list@, old(env)@, EXPANSION_LIMIT as nat, r@, final(env)@),
        list@.len() == 0 ==> r@ == ValueView::<C>::Nil && final(env)@ == old(env)@,
{
    eval_list_bounded(list, env, EXPANSION_LIMIT)
}

/// How many arguments follow the head of a list of `len` items.
pub open spec fn arguments_given(len: nat) -> nat {
    if len == 0 {
        0
    } else {
        (len - 1) as nat
    }
}

/// The message for a call of `name` that takes `expected` arguments and was
/// given `given`.
pub open spec fn arity_message(name: Seq<char>, expected: nat, given: nat) -> Seq<char> {
    name + " takes "@ + natural_digits(expected) + " args, got "@ + natural_digits(given)
}

/// Checks the number of arguments in the call `list` of the callable `name`,
/// which takes `expected` of them: nothing if the list holds the head and
/// exactly `expected` arguments, otherwise the error to return, which names
/// the callable and both counts.
pub fn check_arity<C>(name: &str, expected: usize, list: &List<C>) -> (r: Option<LispValue<C>>)
    ensures
        list@.len() == expected + 1 ==> r is None,
        list@.len() != expected + 1 ==> r is Some && r->Some_0@ == ValueView::<C>::Error(
            arity_message(name@, expected as nat, arguments_given(list@.len())),
        ),
{
    let len = list.len();
    let given: usize = if len == 0 {
        0
    } else {
        len - 1
    };
    if len != 0 && given == expected {
        return None;
    }
    let mut message = String::from_str(name);
    message.append(" takes ");
    push_natural(&mut message, expected as u64);
    message.append(" args, got ");
    push_natural(&mut message, given as u64);
    Some(LispValue::Error(message))
}

} // verus!
