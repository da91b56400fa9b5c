//! Module items and import declarations, as the transform reads and writes them.
use vstd::prelude::*;

verus! {

/// One binding of an import declaration.
#[derive(Debug, PartialEq, Eq)]
pub enum ImportSpecifier {
    /// `import { imported as local }`; `imported` is absent when it equals `local`.
    Named { local: String, imported: Option<String> },
    /// `import local from ...`
    Default { local: String },
    /// `import * as local from ...`
    Namespace { local: String },
}

/// An import declaration: its bindings and the module it imports from.
#[derive(Debug, PartialEq, Eq)]
pub struct ImportDecl {
    pub specifiers: Vec<ImportSpecifier>,
    pub src: String,
    pub type_only: bool,
}

/// A top-level item of a module.
#[derive(Debug, PartialEq, Eq)]
pub enum ModuleItem {
    /// A bare string-literal expression statement, with the literal's value.
    Literal(String),
    /// An import declaration.
    Import(ImportDecl),
    /// Any other item, by a handle that the host keeps.
    Opaque(u64),
}

/// The directive that marks a module as client-side.
pub const USE_CLIENT: &'static str = "use client";

/// The local name of the framework's default import.
pub const REACT_LOCAL: &'static str = "React";

/// The module the framework's default import comes from.
pub const REACT_SOURCE: &'static str = "react";

pub open spec fn local_of(s: ImportSpecifier) -> Seq<char> {
    match s {
        ImportSpecifier::Named { local, .. } => local@,
        ImportSpecifier::Default { local } => local@,
        ImportSpecifier::Namespace { local } => local@,
    }
}

pub open spec fn is_client_directive(item: ModuleItem) -> bool {
    item is Literal && item->Literal_0@ == USE_CLIENT@
}

pub open spec fn has_client_directive(items: Seq<ModuleItem>) -> bool {
    exists|i: int| 0 <= i < items.len() && is_client_directive(#[trigger] items[i])
}

pub open spec fn is_default_react(s: ImportSpecifier) -> bool {
    s is Default && local_of(s) == REACT_LOCAL@
}

pub open spec fn imports_default_react(decl: ImportDecl) -> bool {
    exists|j: int| 0 <= j < decl.specifiers@.len() && is_default_react(#[trigger] decl.specifiers@[j])
}

pub open spec fn has_default_react(items: Seq<ModuleItem>) -> bool {
    exists|i: int|
        0 <= i < items.len() && #[trigger] items[i] is Import && imports_default_react(
            items[i]->Import_0,
        )
}

/// `import React from "react"`.
pub open spec fn is_react_import(item: ModuleItem) -> bool {
    &&& item is Import
    &&& item->Import_0.specifiers@.len() == 1
    &&& is_default_react(item->Import_0.specifiers@[0])
    &&& item->Import_0.src@ == REACT_SOURCE@
    &&& !item->Import_0.type_only
}

/// Whether `s` is the literal `USE_CLIENT`.
fn is_use_client(s: &String) -> (r: bool)
    ensures
        r == (s@ == USE_CLIENT@),
{
    let target = String::from_str(USE_CLIENT);
    s.eq(&target)
}

/// Whether `s` is `REACT_LOCAL`.
fn is_react_local(s: &String) -> (r: bool)
    ensures
        r == (s@ == REACT_LOCAL@),
{
    let target = String::from_str(REACT_LOCAL);
    s.eq(&target)
}

/// Whether a module already holds the client directive.
pub fn find_client_directive(items: &Vec<ModuleItem>) -> (r: bool)
    ensures
        r == has_client_directive(items@),
{
    let mut i: usize = 0;
    while i < items.len()
        invariant
            i <= items@.len(),
            forall|j: int| 0 <= j < i ==> !is_client_directive(#[trigger] items@[j]),
        decreases items@.len() - i,
    {
        if let ModuleItem::Literal(s) = &items[i] {
            if is_use_client(s) {
                assert(is_client_directive(items@[i as int]));
                return true;
            }
        }
        i += 1;
    }
    false
}

/// Whether an import declaration binds `REACT_LOCAL` as a default import.
pub fn decl_imports_default_react(decl: &ImportDecl) -> (r: bool)
    ensures
        r == imports_default_react(*decl),
{
    let mut j: usize = 0;
    while j < decl.specifiers.len()
        invariant
            j <= decl.specifiers@.len(),
            forall|k: int| 0 <= k < j ==> !is_default_react(#[trigger] decl.specifiers@[k]),
        decreases decl.specifiers@.len() - j,
    {
        if let ImportSpecifier::Default { local } = &decl.specifiers[j] {
            if is_react_local(local) {
                assert(is_default_react(decl.specifiers@[j as int]));
                return true;
            }
        }
        j += 1;
    }
    false
}

/// Builds `import React from "react"`.
pub fn react_import() -> (r: ModuleItem)
    ensures
        is_react_import(r),
{
    let spec = ImportSpecifier::Default { local: String::from_str(REACT_LOCAL) };
    let mut specifiers = Vec::new();
    specifiers.push(spec);
    ModuleItem::Import(
        ImportDecl { specifiers, src: String::from_str(REACT_SOURCE), type_only: false },
    )
}

/// Builds the client directive statement.
pub fn client_directive() -> (r: ModuleItem)
    ensures
        is_client_directive(r),
{
    ModuleItem::Literal(String::from_str(USE_CLIENT))
}

} // verus!
