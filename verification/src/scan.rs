//! How the scope context changes as a traversal enters loops, closures,
//! async blocks, constant contexts and blocks.
use vstd::prelude::*;
use crate::evidence::{spec_decls, spec_imports, Context, ItemModel};
use crate::table::Table;
use crate::evidence::Kind;

verus! {

/// A loop depth one deeper, stopping at `usize::MAX`.
pub open spec fn deeper(d: usize) -> usize {
    if d < usize::MAX {
        (d + 1) as usize
    } else {
        d
    }
}

impl Context {
    /// Enters the body of a `for`, `while` or `loop` that starts at `at`;
    /// the outermost loop of an execution scope records where it starts.
    pub fn enter_loop(&mut self, at: (usize, usize))
        requires
            old(self).wf(),
        ensures
            final(self).wf(),
            final(self).loop_depth == deeper(old(self).loop_depth),
            final(self).loop_start == if old(self).loop_depth == 0 {
                at
            } else {
                old(self).loop_start
            },
            final(self).bindings == old(self).bindings,
            final(self).origins == old(self).origins,
            final(self).items == old(self).items,
            final(self).in_async == old(self).in_async,
            final(self).in_const == old(self).in_const,
            final(self).execution == old(self).execution,
            final(self).block == old(self).block,
    {
        if self.loop_depth == 0 {
            self.loop_start = at;
        }
        if self.loop_depth < usize::MAX {
            self.loop_depth = self.loop_depth + 1;
        }
    }

    /// Enters a constant context (a `const` or `static` initializer or a
    /// `const` block): no loop of the enclosing code runs it.
    pub fn enter_const(&mut self)
        requires
            old(self).wf(),
        ensures
            final(self).wf(),
            final(self).in_const,
            final(self).loop_depth == 0,
            final(self).bindings == old(self).bindings,
            final(self).origins == old(self).origins,
            final(self).items == old(self).items,
            final(self).in_async == old(self).in_async,
            final(self).loop_start == old(self).loop_start,
            final(self).execution == old(self).execution,
            final(self).block == old(self).block,
    {
        self.in_const = true;
        self.loop_depth = 0;
    }

    /// Enters a closure body starting at `at`: it runs later, elsewhere, so
    /// no guard of the enclosing code is live in it and no loop repeats it;
    /// its parameters get a scope of their own.
    pub fn enter_closure(&mut self, in_async: bool, at: (usize, usize))
        requires
            old(self).wf(),
        ensures
            final(self).wf(),
            !final(self).spec_has_guard(),
            final(self).loop_depth == 0,
            final(self).in_async == in_async,
            final(self).execution == at,
            final(self).bindings@.len() == old(self).bindings@.len() + 1,
            final(self).bindings@.last()@ == Map::<Seq<char>, Kind>::empty(),
            final(self).origins == old(self).origins,
            final(self).items == old(self).items,
            final(self).in_const == old(self).in_const,
            final(self).block == old(self).block,
    {
        self.forget_guards();
        proof {
            crate::laws::law_forgotten_guards_are_gone(*old(self), *self);
            assert(crate::evidence::scope_views(self.bindings@).len() == self.bindings@.len());
            assert(crate::evidence::scope_views(old(self).bindings@).len() == old(self).bindings@.len());
        }
        self.loop_depth = 0;
        self.in_async = in_async;
        self.execution = at;
        let ghost before = *self;
        self.push_scope();
        proof {
            if self.spec_has_guard() {
                let (i, k) = choose|i: int, k: Seq<char>|
                    #![trigger self.bindings@[i]@.contains_key(k)]
                    0 <= i < self.bindings@.len() && self.bindings@[i]@.contains_key(k) && self.bindings@[i]@[k]
                        == Kind::Guard;
                if i < before.bindings@.len() {
                    assert(before.bindings@[i]@.contains_key(k));
                }
            }
        }
    }

    /// Enters an `async` block starting at `at`: it runs when awaited, so no
    /// guard of the enclosing code is live in it and no loop repeats it.
    pub fn enter_async_block(&mut self, at: (usize, usize))
        requires
            old(self).wf(),
        ensures
            final(self).wf(),
            !final(self).spec_has_guard(),
            final(self).in_async,
            final(self).loop_depth == 0,
            final(self).execution == at,
            final(self).bindings@.len() == old(self).bindings@.len(),
            final(self).origins == old(self).origins,
            final(self).items == old(self).items,
            final(self).in_const == old(self).in_const,
            final(self).block == old(self).block,
    {
        self.forget_guards();
        proof {
            crate::laws::law_forgotten_guards_are_gone(*old(self), *self);
            assert(crate::evidence::scope_views(self.bindings@).len() == self.bindings@.len());
            assert(crate::evidence::scope_views(old(self).bindings@).len() == old(self).bindings@.len());
        }
        self.in_async = true;
        self.loop_depth = 0;
        self.execution = at;
    }

    /// Enters a block whose brace is at `at` and whose statements declare
    /// `items`: the items join the scope, and the block gets a binding scope
    /// of its own.
    pub fn enter_block(&mut self, at: (usize, usize), items: &Vec<ItemModel>)
        requires
            old(self).wf(),
        ensures
            final(self).wf(),
            final(self).block == at,
            final(self).bindings@.len() == old(self).bindings@.len() + 1,
            final(self).bindings@.last()@ == Map::<Seq<char>, Kind>::empty(),
            final(self).origins == old(self).origins,
            final(self).in_async == old(self).in_async,
            final(self).in_const == old(self).in_const,
            final(self).loop_depth == old(self).loop_depth,
            final(self).loop_start == old(self).loop_start,
            final(self).execution == old(self).execution,
            final(self).items.maps().names == spec_imports(spec_decls(old(self).items.maps(), items@), items@).names,
            final(self).items.maps().aliases == spec_imports(spec_decls(old(self).items.maps(), items@), items@).aliases,
    {
        self.block = at;
        self.add_items(items);
        self.push_scope();
    }
}

} // verus!
