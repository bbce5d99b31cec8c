//! Lexical scopes: bindings from names to values, chained from the innermost
//! scope outwards.

use crate::types::ast::{LispValue, ValueView};
use vstd::prelude::*;

verus! {

/// A scope: its own bindings and a link to the scope that encloses it. The
/// enclosing scope is only ever read through the link.
pub struct Scope<'a, C> {
    bindings: Vec<(String, LispValue<C>)>,
    parent: Option<&'a Scope<'a, C>>,
}

/// What a chain of scopes holds: one map from names to values for each
/// scope, the innermost first. A chain always has at least one frame.
pub struct ScopeView<C> {
    pub frames: Seq<Map<Seq<char>, ValueView<C>>>,
}

impl<C> ScopeView<C> {
    /// A single scope without bindings.
    pub open spec fn root() -> ScopeView<C> {
        ScopeView { frames: seq![Map::empty()] }
    }

    /// A fresh scope without bindings whose enclosing chain is `self`.
    pub open spec fn child(self) -> ScopeView<C> {
        ScopeView { frames: seq![Map::empty()] + self.frames }
    }

    /// The chain that encloses the innermost scope.
    pub open spec fn enclosing(self) -> ScopeView<C> {
        ScopeView { frames: self.frames.drop_first() }
    }

    /// The value bound to `name` in the innermost scope that binds it.
    pub open spec fn lookup(self, name: Seq<char>) -> Option<ValueView<C>>
        decreases self.frames.len(),
    {
        if self.frames.len() == 0 {
            None
        } else if self.frames[0].dom().contains(name) {
            Some(self.frames[0][name])
        } else {
            self.enclosing().lookup(name)
        }
    }

    /// The chain after `name` is bound to `value` in the innermost scope; the
    /// enclosing scopes stay as they are.
    pub open spec fn bind(self, name: Seq<char>, value: ValueView<C>) -> ScopeView<C> {
        ScopeView { frames: self.frames.update(0, self.frames[0].insert(name, value)) }
    }
}

/// No name is bound in a scope that has no bindings and no enclosing scope.
pub proof fn lemma_root_binds_nothing<C>(name: Seq<char>)
    ensures
        ScopeView::<C>::root().lookup(name) is None,
{
    let root = ScopeView::<C>::root();
    assert(root.enclosing().lookup(name) is None);
}

/// After a name is bound, looking it up gives the value it was bound to,
/// whatever an enclosing scope or an earlier binding said; every other name
/// is looked up as before.
pub proof fn lemma_bind_then_lookup<C>(
    env: ScopeView<C>,
    name: Seq<char>,
    value: ValueView<C>,
    other: Seq<char>,
)
    requires
        env.frames.len() >= 1,
    ensures
        env.bind(name, value).lookup(name) == Some(value),
        other != name ==> env.bind(name, value).lookup(other) == env.lookup(other),
{
    let bound = env.bind(name, value);
    assert(bound.enclosing().frames =~= env.enclosing().frames);
}

/// A child scope sees every binding of the chain it was made from, and only
/// those: until it binds a name itself, it looks up every name as its parent
/// does.
pub proof fn lemma_child_sees_parent<C>(parent: ScopeView<C>, name: Seq<char>)
    ensures
        parent.child().lookup(name) == parent.lookup(name),
        parent.child().enclosing() == parent,
{
    let child = parent.child();
    assert(child.enclosing().frames =~= parent.frames);
}

/// A binding made in a child scope is seen by the child and never by its
/// parent: the chain that encloses the child is the parent as it was.
pub proof fn lemma_child_binding_stays_in_child<C>(
    parent: ScopeView<C>,
    name: Seq<char>,
    value: ValueView<C>,
)
    ensures
        parent.child().bind(name, value).lookup(name) == Some(value),
        parent.child().bind(name, value).enclosing() == parent,
        parent.child().bind(name, value).enclosing().lookup(name) == parent.lookup(name),
{
    let child = parent.child();
    lemma_bind_then_lookup(child, name, value, name);
    assert(child.bind(name, value).enclosing().frames =~= parent.frames);
}

/// The map that a list of bindings stands for: of two bindings of one name
/// the earlier one counts.
spec fn frame_of<C>(entries: Seq<(String, LispValue<C>)>) -> Map<
    Seq<char>,
    ValueView<C>,
>
    decreases entries.len(),
{
    if entries.len() == 0 {
        Map::empty()
    } else {
        frame_of(entries.drop_first()).insert(entries[0].0@, entries[0].1@)
    }
}

/// No binding before position `i` has the name `name`.
spec fn unbound_before<C>(
    entries: Seq<(String, LispValue<C>)>,
    name: Seq<char>,
    i: int,
) -> bool {
    forall|j: int| 0 <= j < i && j < entries.len() ==> (#[trigger] entries[j]).0@ != name
}

proof fn lemma_frame_absent<C>(entries: Seq<(String, LispValue<C>)>, name: Seq<char>)
    requires
        unbound_before(entries, name, entries.len() as int),
    ensures
        !frame_of(entries).dom().contains(name),
    decreases entries.len(),
{
    if entries.len() > 0 {
        lemma_frame_absent(entries.drop_first(), name);
    }
}

proof fn lemma_frame_first<C>(entries: Seq<(String, LispValue<C>)>, name: Seq<char>, i: int)
    requires
        0 <= i < entries.len(),
        entries[i].0@ == name,
        unbound_before(entries, name, i),
    ensures
        frame_of(entries).dom().contains(name),
        frame_of(entries)[name] == entries[i].1@,
    decreases entries.len(),
{
    if i > 0 {
        lemma_frame_first(entries.drop_first(), name, i - 1);
    }
}

proof fn lemma_frame_replace<C>(
    entries: Seq<(String, LispValue<C>)>,
    i: int,
    entry: (String, LispValue<C>),
)
    requires
        0 <= i < entries.len(),
        entries[i].0@ == entry.0@,
        unbound_before(entries, entry.0@, i),
    ensures
        frame_of(entries.update(i, entry)) == frame_of(entries).insert(entry.0@, entry.1@),
    decreases entries.len(),
{
    let updated = entries.update(i, entry);
    if i == 0 {
        assert(updated.drop_first() =~= entries.drop_first());
    } else {
        let rest = entries.drop_first();
        lemma_frame_replace(rest, i - 1, entry);
        assert(updated.drop_first() =~= rest.update(i - 1, entry));
    }
}

proof fn lemma_frame_append<C>(entries: Seq<(String, LispValue<C>)>, entry: (String, LispValue<C>))
    requires
        unbound_before(entries, entry.0@, entries.len() as int),
    ensures
        frame_of(entries.push(entry)) == frame_of(entries).insert(entry.0@, entry.1@),
    decreases entries.len(),
{
    let extended = entries.push(entry);
    if entries.len() == 0 {
        assert(extended.drop_first() =~= entries);
    } else {
        let rest = entries.drop_first();
        lemma_frame_append(rest, entry);
        assert(extended.drop_first() =~= rest.push(entry));
    }
}

impl<'a, C> View for Scope<'a, C> {
    type V = ScopeView<C>;

    closed spec fn view(&self) -> ScopeView<C>
        decreases self,
    {
        match self.parent {
            Some(outer) => ScopeView { frames: seq![frame_of(self.bindings@)] + outer@.frames },
            None => ScopeView { frames: seq![frame_of(self.bindings@)] },
        }
    }
}

/// The chain that a scope stands in holds at least the scope itself.
pub proof fn lemma_scope_has_frame<C>(scope: Scope<'_, C>)
    ensures
        scope@.frames.len() >= 1,
{
    lemma_scope_view(scope);
}

proof fn lemma_scope_view<C>(scope: Scope<'_, C>)
    ensures
        scope@.frames.len() >= 1,
        scope@.frames[0] == frame_of(scope.bindings@),
        scope@.enclosing().frames == match scope.parent {
            Some(outer) => outer@.frames,
            None => Seq::empty(),
        },
{
    if let Some(outer) = scope.parent {
        assert(scope@.enclosing().frames =~= outer@.frames);
    }
}

impl<'a, C> Scope<'a, C> {
    /// A scope without bindings and without an enclosing scope.
    pub fn new() -> (r: Scope<'a, C>)
        ensures
            r@ == ScopeView::<C>::root(),
    {
        Scope { bindings: Vec::new(), parent: None }
    }

    /// A scope without bindings that is enclosed by `parent`.
    pub fn child(parent: &'a Scope<'a, C>) -> (r: Scope<'a, C>)
        ensures
            r@ == parent@.child(),
    {
        Scope { bindings: Vec::new(), parent: Some(parent) }
    }

    fn position(&self, name: &String) -> (r: Option<usize>)
        ensures
            match r {
                Some(i) => i < self.bindings.len() && self.bindings[i as int].0@ == name@
                    && unbound_before(self.bindings@, name@, i as int),
                None => unbound_before(self.bindings@, name@, self.bindings.len() as int),
            },
    {
        let mut i: usize = 0;
        while i < self.bindings.len()
            invariant
                i <= self.bindings.len(),
                unbound_before(self.bindings@, name@, i as int),
            decreases self.bindings.len() - i,
        {
            if self.bindings[i].0 == *name {
                return Some(i);
            }
            i += 1;
        }
        None
    }

    /// The value bound to `name` in the innermost scope that binds it, by
    /// reference.
    pub fn lookup(&self, name: &String) -> (r: Option<&LispValue<C>>)
        ensures
            match r {
                Some(value) => self@.lookup(name@) == Some(value@),
                None => self@.lookup(name@) is None,
            },
        decreases self,
    {
        proof {
            lemma_scope_view(*self);
        }
        match self.position(name) {
            Some(i) => {
                proof {
                    lemma_frame_first(self.bindings@, name@, i as int);
                }
                Some(&self.bindings[i].1)
            },
            None => {
                proof {
                    lemma_frame_absent(self.bindings@, name@);
                }
                match self.parent {
                    Some(outer) => outer.lookup(name),
                    None => {
                        assert(self@.enclosing().lookup(name@) is None);
                        None
                    },
                }
            },
        }
    }

    /// A copy of the value bound to `name` in this scope or, failing that, in
    /// the nearest enclosing scope that binds it; `None` if none does.
    pub fn get(&self, name: &String) -> (r: Option<LispValue<C>>)
        ensures
            match r {
                Some(value) => self@.lookup(name@) == Some(value@),
                None => self@.lookup(name@) is None,
            },
    {
        match self.lookup(name) {
            Some(value) => Some(value.clone()),
            None => None,
        }
    }

    /// Binds `name` to `value` in this scope, in place of an earlier binding
    /// of the name in this scope if there is one. Enclosing scopes are not
    /// touched.
    pub fn set(&mut self, name: String, value: LispValue<C>)
        ensures
            final(self)@ == old(self)@.bind(name@, value@),
    {
        let ghost entry = (name, value);
        match self.position(&name) {
            Some(i) => {
                proof {
                    lemma_frame_replace(self.bindings@, i as int, entry);
                }
                self.bindings.set(i, (name, value));
            },
            None => {
                proof {
                    lemma_frame_append(self.bindings@, entry);
                }
                self.bindings.push((name, value));
            },
        }
        proof {
            lemma_scope_view(*self);
            lemma_scope_view(*old(self));
            assert(self@.frames =~= old(self)@.bind(entry.0@, entry.1@).frames);
        }
    }
}

} // verus!
