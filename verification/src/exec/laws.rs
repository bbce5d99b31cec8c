//! What holds of evaluation for every input, proved from the definitions
//! that the evaluator's contracts are stated with.

use crate::exec::eval::{
    applies, decoded, evaluates, head_macro, list_evaluates, not_callable, symbol_value,
    unescaped,
};
use crate::reader::tokenizer::{TokenType, TokenView};
use crate::types::ast::{escaped, printed, ValueView};
use crate::types::callable::Callable;
use crate::types::env::{lemma_bind_then_lookup, ScopeView};
use crate::types::number::{is_digit, is_float_literal, parsed_i64, unsigned_part};
use vstd::prelude::*;

verus! {

/// `text` is one of the three keywords.
pub open spec fn is_keyword(text: Seq<char>) -> bool {
    text == "nil"@ || text == "true"@ || text == "false"@
}

/// No keyword denotes an integer, so a keyword is never read as a number.
pub proof fn law_keywords_are_not_integers(text: Seq<char>)
    requires
        is_keyword(text),
    ensures
        parsed_i64(text) is None,
{
    reveal_strlit("nil");
    reveal_strlit("true");
    reveal_strlit("false");
    assert(!is_digit(text[0]));
}

/// A symbol that no scope binds, that is no keyword, and whose text denotes
/// a signed 64-bit integer evaluates to exactly that integer.
pub proof fn law_integer_symbol<C>(token: TokenView, env: ScopeView<C>, value: i64)
    requires
        token.kind != TokenType::String,
        env.lookup(token.text) is None,
        !is_keyword(token.text),
        parsed_i64(token.text) == Some(value),
    ensures
        symbol_value(token, env) == ValueView::<C>::Int(value),
{
}

/// A symbol that no scope binds, that is no keyword and denotes no signed
/// 64-bit integer evaluates to a floating-point value holding its text if
/// the text is a floating-point literal, and otherwise to an error that
/// names the symbol.
pub proof fn law_float_symbol<C>(token: TokenView, env: ScopeView<C>)
    requires
        token.kind != TokenType::String,
        env.lookup(token.text) is None,
        !is_keyword(token.text),
        parsed_i64(token.text) is None,
    ensures
        is_float_literal(token.text) ==> symbol_value(token, env) == ValueView::<C>::Float(
            token.text,
        ),
        !is_float_literal(token.text) ==> symbol_value(token, env) == ValueView::<C>::Error(
            "could not parse symbol: "@ + token.text,
        ),
{
}

/// While no scope binds them, the symbols `true`, `false` and `nil`
/// evaluate to the two truth values and to the absent value.
pub proof fn law_keyword_symbols<C>(token: TokenView, env: ScopeView<C>)
    requires
        token.kind != TokenType::String,
        env.lookup(token.text) is None,
    ensures
        token.text == "true"@ ==> symbol_value(token, env) == ValueView::<C>::Boolean(true),
        token.text == "false"@ ==> symbol_value(token, env) == ValueView::<C>::Boolean(false),
        token.text == "nil"@ ==> symbol_value(token, env) == ValueView::<C>::Nil,
{
    reveal_strlit("nil");
    reveal_strlit("true");
    reveal_strlit("false");
}

/// Once a name is bound in a scope, a symbol of that name evaluates to the
/// bound value, whatever the name would mean as a literal.
pub proof fn law_binding_wins<C>(token: TokenView, env: ScopeView<C>, value: ValueView<C>)
    requires
        token.kind != TokenType::String,
        env.frames.len() >= 1,
    ensures
        symbol_value(token, env.bind(token.text, value)) == value,
{
    lemma_bind_then_lookup(env, token.text, value, token.text);
}

/// In every scope the empty list evaluates to `Nil` and to nothing else, and
/// leaves the scope as it was.
pub proof fn law_empty_list<C: Callable>(
    before: ScopeView<C>,
    budget: nat,
    out: ValueView<C>,
    after: ScopeView<C>,
)
    ensures
        list_evaluates(Seq::<ValueView<C>>::empty(), before, budget, out, after) <==> out
            == ValueView::<C>::Nil && after == before,
{
}

/// Where the head of a list can evaluate to a value that is neither a
/// function nor an error, the list can evaluate to the error that shows the
/// list, and applying that head gives nothing else and changes nothing.
pub proof fn law_head_not_callable<C: Callable>(
    items: Seq<ValueView<C>>,
    before: ScopeView<C>,
    budget: nat,
    op: ValueView<C>,
    mid: ScopeView<C>,
)
    requires
        items.len() > 0,
        evaluates(items[0], before, budget, op, mid),
        !(op is Function),
        !(op is Error),
    ensures
        list_evaluates(items, before, budget, not_callable(items), mid),
        forall|out: ValueView<C>, after: ScopeView<C>| #[trigger]
            applies(op, items, mid, out, after) ==> out == not_callable(items) && after == mid,
{
    assert(applies(op, items, mid, not_callable(items), mid));
}

/// Where the head of a list can evaluate to an error, the list can evaluate
/// to that same error, and applying that head gives nothing else and changes
/// nothing.
pub proof fn law_head_error_is_passed_on<C: Callable>(
    items: Seq<ValueView<C>>,
    before: ScopeView<C>,
    budget: nat,
    op: ValueView<C>,
    mid: ScopeView<C>,
)
    requires
        items.len() > 0,
        evaluates(items[0], before, budget, op, mid),
        op is Error,
    ensures
        list_evaluates(items, before, budget, op, mid),
        forall|out: ValueView<C>, after: ScopeView<C>| #[trigger]
            applies(op, items, mid, out, after) ==> out == op && after == mid,
{
    assert(applies(op, items, mid, op, mid));
}

/// A list whose head is a symbol bound to a macro is evaluated by running
/// the macro first: its outcomes are exactly the outcomes of evaluating what
/// the macro can return for the whole list, in the scope as the macro left
/// it.
pub proof fn law_macro_runs_first<C: Callable>(
    m: C,
    root: ValueView<C>,
    before: ScopeView<C>,
    budget: nat,
    out: ValueView<C>,
    after: ScopeView<C>,
)
    requires
        head_macro(root, before) == Some(m),
        budget > 0,
    ensures
        evaluates(root, before, budget, out, after) <==> exists|
            expansion: ValueView<C>,
            mid: ScopeView<C>,
        |
            #![trigger m.yields(root->List_0, before, expansion, mid)]
            m.yields(root->List_0, before, expansion, mid) && evaluates(
                expansion,
                mid,
                (budget - 1) as nat,
                out,
                after,
            ),
{
    let m0 = head_macro(root, before)->Some_0;
    if evaluates(root, before, budget, out, after) {
        let (expansion, mid) = choose|expansion: ValueView<C>, mid: ScopeView<C>|
            #![trigger m0.yields(root->List_0, before, expansion, mid)]
            m0.yields(root->List_0, before, expansion, mid) && evaluates(
                expansion,
                mid,
                (budget - 1) as nat,
                out,
                after,
            );
        assert(m.yields(root->List_0, before, expansion, mid));
    }
    if exists|expansion: ValueView<C>, mid: ScopeView<C>|
        #![trigger m.yields(root->List_0, before, expansion, mid)]
        m.yields(root->List_0, before, expansion, mid) && evaluates(
            expansion,
            mid,
            (budget - 1) as nat,
            out,
            after,
        ) {
        let (expansion, mid) = choose|expansion: ValueView<C>, mid: ScopeView<C>|
            #![trigger m.yields(root->List_0, before, expansion, mid)]
            m.yields(root->List_0, before, expansion, mid) && evaluates(
                expansion,
                mid,
                (budget - 1) as nat,
                out,
                after,
            );
        assert(m0.yields(root->List_0, before, expansion, mid));
    }
}

/// The result of a macro call matches the result of evaluating the
/// expansion directly: whatever the expansion evaluates to in the scope the
/// macro left, the call evaluates to as well.
pub proof fn law_macro_call_matches_expansion<C: Callable>(
    m: C,
    root: ValueView<C>,
    before: ScopeView<C>,
    expansion: ValueView<C>,
    mid: ScopeView<C>,
    budget: nat,
    out: ValueView<C>,
    after: ScopeView<C>,
)
    requires
        head_macro(root, before) == Some(m),
        m.yields(root->List_0, before, expansion, mid),
        evaluates(expansion, mid, budget, out, after),
    ensures
        evaluates(root, before, budget + 1, out, after),
{
    let m0 = head_macro(root, before)->Some_0;
    assert(m0.yields(root->List_0, before, expansion, mid));
}

/// A value that is neither a list nor an atom evaluates to itself and to
/// nothing else, and leaves the scope as it was.
pub proof fn law_self_evaluating<C: Callable>(
    root: ValueView<C>,
    before: ScopeView<C>,
    budget: nat,
    out: ValueView<C>,
    after: ScopeView<C>,
)
    requires
        !(root is List),
        !(root is Unit),
    ensures
        evaluates(root, before, budget, out, after) <==> out == root && after == before,
{
}

/// An atom evaluates to its value as a symbol and to nothing else, and
/// leaves the scope as it was.
pub proof fn law_atom_evaluates_as_symbol<C: Callable>(
    token: TokenView,
    before: ScopeView<C>,
    budget: nat,
    out: ValueView<C>,
    after: ScopeView<C>,
)
    ensures
        evaluates(ValueView::Unit(token), before, budget, out, after) <==> out == symbol_value(
            token,
            before,
        ) && after == before,
{
}

/// No backslash in `s` stands directly before the letter `n`.
pub open spec fn has_no_escape(s: Seq<char>) -> bool {
    forall|i: int| #![trigger s[i]] 0 <= i < s.len() - 1 ==> !(s[i] == '\\' && s[i + 1] == 'n')
}

proof fn lemma_escaped_from_the_front(s: Seq<char>)
    requires
        s.len() > 0,
    ensures
        escaped(s) == (if s[0] == '\n' {
            seq!['\\', 'n']
        } else {
            seq![s[0]]
        }) + escaped(s.drop_first()),
    decreases s.len(),
{
    let head = if s[0] == '\n' {
        seq!['\\', 'n']
    } else {
        seq![s[0]]
    };
    if s.len() == 1 {
        assert(s.drop_last() =~= Seq::<char>::empty());
        assert(s.drop_first() =~= Seq::<char>::empty());
    } else {
        let front = s.drop_last();
        lemma_escaped_from_the_front(front);
        assert(front.drop_first() =~= s.drop_first().drop_last());
    }
    assert(escaped(s) =~= head + escaped(s.drop_first()));
}

/// Escaping a text and reading the escapes again gives the text back, as
/// long as the text holds no backslash directly before an `n`: such a pair
/// is written as it stands and would be read as a newline.
pub proof fn law_escapes_read_back(s: Seq<char>)
    requires
        has_no_escape(s),
    ensures
        unescaped(escaped(s)) == s,
    decreases s.len(),
{
    if s.len() > 0 {
        let rest = s.drop_first();
        let written = escaped(s);
        lemma_escaped_from_the_front(s);
        law_escapes_read_back(rest);
        if s[0] == '\n' {
            assert(written.skip(2) =~= escaped(rest));
        } else {
            assert(written.skip(1) =~= escaped(rest));
            if rest.len() > 0 {
                lemma_escaped_from_the_front(rest);
                assert(s[0] == '\\' ==> written[1] != 'n');
            }
        }
        assert(unescaped(written) =~= s);
    }
}

/// A text that is written out and read again as a string token is the same
/// text, as long as it holds no backslash directly before an `n`.
pub proof fn law_text_round_trip<C>(s: Seq<char>)
    requires
        has_no_escape(s),
    ensures
        decoded::<C>(printed(ValueView::<C>::String(s))) == ValueView::<C>::String(s),
{
    let written = printed(ValueView::<C>::String(s));
    law_escapes_read_back(s);
    assert(written.subrange(1, written.len() - 1) =~= escaped(s));
}

} // verus!
