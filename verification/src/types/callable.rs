//! The callables that a host binds into the environment.

use crate::types::ast::{LispValue, ValueView};
use crate::types::env::{Scope, ScopeView};
use crate::types::list::List;
use vstd::prelude::*;

verus! {

/// A function or macro supplied by the host. The evaluator hands it the
/// whole unevaluated list that it heads, and the scope of the call.
pub trait Callable: Sized {
    /// What the implementation says of its calls: that, handed `list` in a
    /// scope that holds `before`, a call may return `out` and leave the scope
    /// holding `after`. An implementation that says nothing of its calls
    /// keeps this definition, under which every outcome is possible.
    open spec fn yields(
        &self,
        list: Seq<ValueView<Self>>,
        before: ScopeView<Self>,
        out: ValueView<Self>,
        after: ScopeView<Self>,
    ) -> bool {
        true
    }

    /// Runs the callable on `list` in `env`. All that the evaluator states of
    /// a call is what `yields` says of it, so an implementation that gives
    /// `yields` a body of its own has to keep to it.
    fn call(&self, list: &List<Self>, env: &mut Scope<'_, Self>) -> (out: LispValue<Self>)
        ensures
            self.yields(list@, old(env)@, out@, final(env)@),
    ;
}

} // verus!
