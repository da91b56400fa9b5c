//! Module finalization: the client directive, the collected imports and the
//! framework's default import.
use vstd::prelude::*;
use crate::module::{
    ImportDecl, ModuleItem, client_directive, decl_imports_default_react, find_client_directive,
    has_client_directive, has_default_react, imports_default_react, is_client_directive,
    is_react_import, react_import,
};

verus! {

/// `after` is `before` with the client directive put first when a
/// substitution succeeded and none is there, and `acc` appended.
pub open spec fn client_step(
    before: Seq<ModuleItem>,
    succeeded: bool,
    acc: Seq<ModuleItem>,
    after: Seq<ModuleItem>,
) -> bool {
    if succeeded && !has_client_directive(before) {
        &&& after.len() == before.len() + acc.len() + 1
        &&& is_client_directive(after[0])
        &&& after.drop_first() == before + acc
    } else {
        after == before + acc
    }
}

/// `after` is `before` with `import React from "react"` appended unless a
/// default import of that name is there (or `present` says one was seen).
pub open spec fn react_step(before: Seq<ModuleItem>, present: bool, after: Seq<ModuleItem>) -> bool {
    if present || has_default_react(before) {
        after == before
    } else {
        &&& after.len() == before.len() + 1
        &&& after.drop_last() == before
        &&& is_react_import(after.last())
    }
}

/// `after` is the finalization of `before`, given whether a substitution
/// succeeded and the imports the substitutions collected.
pub open spec fn finalized(
    before: Seq<ModuleItem>,
    succeeded: bool,
    acc: Seq<ModuleItem>,
    after: Seq<ModuleItem>,
) -> bool {
    exists|mid: Seq<ModuleItem>| client_step(before, succeeded, acc, mid) && react_step(mid, false, after)
}

/// Looks for a default import of the framework.
pub struct FixImportsVisitor {
    pub has_react: bool,
}

impl FixImportsVisitor {
    pub fn new() -> (r: Self)
        ensures
            !r.has_react,
    {
        FixImportsVisitor { has_react: false }
    }

    /// Notes whether `node` imports the framework by default.
    pub fn visit_import_decl(&mut self, node: &ImportDecl)
        ensures
            final(self).has_react == (old(self).has_react || imports_default_react(*node)),
    {
        if decl_imports_default_react(node) {
            self.has_react = true;
        }
    }

    /// Visits the module's imports, then appends the framework's default
    /// import if none was seen.
    pub fn visit_module(&mut self, items: &mut Vec<ModuleItem>)
        ensures
            react_step(old(items)@, old(self).has_react, final(items)@),
            final(self).has_react == (old(self).has_react || has_default_react(old(items)@)),
    {
        let ghost start = self.has_react;
        let mut i: usize = 0;
        while i < items.len()
            invariant
                i <= items@.len(),
                items@ == old(items)@,
                self.has_react == (start || exists|j: int|
                    0 <= j < i && #[trigger] items@[j] is Import && imports_default_react(
                        items@[j]->Import_0,
                    )),
            decreases items@.len() - i,
        {
            if let ModuleItem::Import(d) = &items[i] {
                self.visit_import_decl(d);
            }
            i += 1;
        }
        if !self.has_react {
            items.push(react_import());
            assert(items@.drop_last() =~= old(items)@);
        }
    }
}

/// Puts the client directive first if `succeeded` and none is there, then
/// appends the collected imports, in order.
pub fn insert_client_and_imports(
    items: &mut Vec<ModuleItem>,
    succeeded: bool,
    acc: Vec<ModuleItem>,
)
    ensures
        client_step(old(items)@, succeeded, acc@, final(items)@),
{
    if succeeded && !find_client_directive(items) {
        items.insert(0, client_directive());
    }
    let ghost collected = acc@;
    let mut acc = acc;
    let ghost mid = items@;
    items.append(&mut acc);
    proof {
        if succeeded && !has_client_directive(old(items)@) {
            assert(mid.drop_first() =~= old(items)@);
            assert(items@.drop_first() =~= mid.drop_first() + collected);
        } else {
            assert(items@ =~= old(items)@ + collected);
        }
    }
}

/// Finalizes a module: client directive, collected imports, framework import.
pub fn finalize_module(items: &mut Vec<ModuleItem>, succeeded: bool, acc: Vec<ModuleItem>)
    ensures
        finalized(old(items)@, succeeded, acc@, final(items)@),
{
    insert_client_and_imports(items, succeeded, acc);
    let ghost mid = items@;
    let mut fix = FixImportsVisitor::new();
    fix.visit_module(items);
    assert(client_step(old(items)@, succeeded, acc@, mid) && react_step(mid, false, items@));
}

/// Finalizing an already finalized module, with nothing more collected,
/// changes nothing: neither the client directive nor the framework import
/// is added twice.
pub proof fn lemma_finalize_idempotent(
    m: Seq<ModuleItem>,
    succeeded: bool,
    acc: Seq<ModuleItem>,
    m1: Seq<ModuleItem>,
    m2: Seq<ModuleItem>,
)
    requires
        finalized(m, succeeded, acc, m1),
        finalized(m1, succeeded, Seq::empty(), m2),
    ensures
        m2 == m1,
{
    let mid1 = choose|mid: Seq<ModuleItem>| client_step(m, succeeded, acc, mid) && react_step(mid, false, m1);
    let mid2 = choose|mid: Seq<ModuleItem>|
        client_step(m1, succeeded, Seq::empty(), mid) && react_step(mid, false, m2);
    if succeeded {
        if !has_client_directive(m) {
            assert(is_client_directive(mid1[0]));
        } else {
            let i = choose|i: int| 0 <= i < m.len() && is_client_directive(#[trigger] m[i]);
            assert(mid1[i] == m[i]);
            assert(is_client_directive(mid1[i]));
        }
        let k = choose|i: int| 0 <= i < mid1.len() && is_client_directive(#[trigger] mid1[i]);
        if !has_default_react(mid1) {
            assert(m1[k] == mid1[k]);
        }
        assert(is_client_directive(m1[k]));
    }
    assert(m1 + Seq::<ModuleItem>::empty() =~= m1);
    assert(mid2 == m1);
    if !has_default_react(mid1) {
        let last = m1.len() - 1;
        assert(m1[last] is Import);
        assert(imports_default_react(m1[last]->Import_0)) by {
            assert(m1[last]->Import_0.specifiers@.len() == 1);
        }
    }
    assert(has_default_react(m1));
}

} // verus!
