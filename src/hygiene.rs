//! Hygiene: imported bindings of a fragment get a call-site prefix, and the
//! fragment's identifier references follow the renaming.
use vstd::prelude::*;
use crate::module::{ImportDecl, ImportSpecifier, ModuleItem, local_of};

verus! {

/// A renaming of identifiers; a later pair for the same name replaces an earlier one.
pub struct IdentMap {
    pairs: Vec<(String, String)>,
}

pub open spec fn pairs_map(pairs: Seq<(String, String)>) -> Map<Seq<char>, Seq<char>>
    decreases pairs.len(),
{
    if pairs.len() == 0 {
        Map::empty()
    } else {
        pairs_map(pairs.drop_last()).insert(pairs.last().0@, pairs.last().1@)
    }
}

/// `m` with `prefix + name` recorded for each name of `names`, in order.
pub open spec fn prefixed_all(
    m: Map<Seq<char>, Seq<char>>,
    names: Seq<Seq<char>>,
    prefix: Seq<char>,
) -> Map<Seq<char>, Seq<char>>
    decreases names.len(),
{
    if names.len() == 0 {
        m
    } else {
        prefixed_all(m, names.drop_last(), prefix).insert(names.last(), prefix + names.last())
    }
}

/// The name that `name` becomes under `m`.
pub open spec fn renamed_ident(m: Map<Seq<char>, Seq<char>>, name: Seq<char>) -> Seq<char> {
    if m.contains_key(name) {
        m[name]
    } else {
        name
    }
}

impl IdentMap {
    pub closed spec fn view(&self) -> Map<Seq<char>, Seq<char>> {
        pairs_map(self.pairs@)
    }

    pub fn new() -> (r: Self)
        ensures
            r.view() == Map::<Seq<char>, Seq<char>>::empty(),
    {
        IdentMap { pairs: Vec::new() }
    }

    pub fn insert(&mut self, key: String, value: String)
        ensures
            final(self).view() == old(self).view().insert(key@, value@),
    {
        self.pairs.push((key, value));
        assert(self.pairs@.drop_last() =~= old(self).pairs@);
    }

    /// The name that `name` maps to, if any.
    pub fn get(&self, name: &String) -> (r: Option<&String>)
        ensures
            self.view().contains_key(name@) ==> r is Some && r->0@ == self.view()[name@],
            !self.view().contains_key(name@) ==> r is None,
    {
        let mut i: usize = self.pairs.len();
        while i > 0
            invariant
                i <= self.pairs@.len(),
                forall|j: int| i <= j < self.pairs@.len() ==> (#[trigger] self.pairs@[j]).0@ != name@,
            decreases i,
        {
            let p = &self.pairs[i - 1];
            if p.0.eq(name) {
                proof {
                    lemma_pairs_map_last_match(self.pairs@, (i - 1) as int, name@);
                }
                return Some(&p.1);
            }
            i -= 1;
        }
        proof {
            lemma_pairs_map_no_match(self.pairs@, name@);
        }
        None
    }
}

proof fn lemma_pairs_map_last_match(pairs: Seq<(String, String)>, i: int, key: Seq<char>)
    requires
        0 <= i < pairs.len(),
        pairs[i].0@ == key,
        forall|j: int| i < j < pairs.len() ==> (#[trigger] pairs[j]).0@ != key,
    ensures
        pairs_map(pairs).contains_key(key),
        pairs_map(pairs)[key] == pairs[i].1@,
    decreases pairs.len(),
{
    if i < pairs.len() - 1 {
        let prev = pairs.drop_last();
        assert forall|j: int| i < j < prev.len() implies (#[trigger] prev[j]).0@ != key by {
            assert(prev[j] == pairs[j]);
        }
        lemma_pairs_map_last_match(prev, i, key);
    }
}

proof fn lemma_pairs_map_no_match(pairs: Seq<(String, String)>, key: Seq<char>)
    requires
        forall|j: int| 0 <= j < pairs.len() ==> (#[trigger] pairs[j]).0@ != key,
    ensures
        !pairs_map(pairs).contains_key(key),
    decreases pairs.len(),
{
    if pairs.len() > 0 {
        let prev = pairs.drop_last();
        assert forall|j: int| 0 <= j < prev.len() implies (#[trigger] prev[j]).0@ != key by {
            assert(prev[j] == pairs[j]);
        }
        lemma_pairs_map_no_match(prev, key);
    }
}

/// Renames identifier references of a spliced fragment.
pub struct RenameIdentVisitor {
    pub ident_map: IdentMap,
}

impl RenameIdentVisitor {
    pub fn new(ident_map: IdentMap) -> (r: Self)
        ensures
            r.ident_map.view() == ident_map.view(),
    {
        RenameIdentVisitor { ident_map }
    }

    /// The name that an identifier reference `name` gets: its mapped value if
    /// the map holds one, else `name` itself.
    pub fn rename(&self, name: &String) -> (r: String)
        ensures
            r@ == renamed_ident(self.ident_map.view(), name@),
    {
        match self.ident_map.get(name) {
            Some(v) => v.clone(),
            None => name.clone(),
        }
    }
}

/// `b` is `a` with its local name prefixed; a named binding keeps the
/// exported name it imports.
pub open spec fn specifier_renamed(a: ImportSpecifier, b: ImportSpecifier, prefix: Seq<char>) -> bool {
    match a {
        ImportSpecifier::Named { local, imported } => match b {
            ImportSpecifier::Named { local: bl, imported: bi } => {
                &&& bl@ == prefix + local@
                &&& bi is Some
                &&& bi->0@ == match imported {
                    Some(x) => x@,
                    None => local@,
                }
            },
            _ => false,
        },
        ImportSpecifier::Default { local } => match b {
            ImportSpecifier::Default { local: bl } => bl@ == prefix + local@,
            _ => false,
        },
        ImportSpecifier::Namespace { local } => match b {
            ImportSpecifier::Namespace { local: bl } => bl@ == prefix + local@,
            _ => false,
        },
    }
}

/// `b` is `a` with each binding renamed.
pub open spec fn decl_renamed(a: ImportDecl, b: ImportDecl, prefix: Seq<char>) -> bool {
    &&& b.src == a.src
    &&& b.type_only == a.type_only
    &&& b.specifiers@.len() == a.specifiers@.len()
    &&& forall|j: int|
        0 <= j < a.specifiers@.len() ==> specifier_renamed(
            #[trigger] a.specifiers@[j],
            b.specifiers@[j],
            prefix,
        )
}

/// `b` is `a` with each import declaration renamed and every other item kept.
pub open spec fn items_renamed(a: Seq<ModuleItem>, b: Seq<ModuleItem>, prefix: Seq<char>) -> bool {
    &&& b.len() == a.len()
    &&& forall|i: int|
        0 <= i < a.len() ==> if #[trigger] a[i] is Import {
            b[i] is Import && decl_renamed(a[i]->Import_0, b[i]->Import_0, prefix)
        } else {
            b[i] == a[i]
        }
}

/// The local names that a list of bindings introduces, in order.
pub open spec fn locals(specs: Seq<ImportSpecifier>) -> Seq<Seq<char>> {
    specs.map_values(|s: ImportSpecifier| local_of(s))
}

pub open spec fn item_locals_one(item: ModuleItem) -> Seq<Seq<char>> {
    match item {
        ModuleItem::Import(d) => locals(d.specifiers@),
        _ => Seq::empty(),
    }
}

/// The local names that the import declarations among `items` introduce, in order.
pub open spec fn item_locals(items: Seq<ModuleItem>) -> Seq<Seq<char>>
    decreases items.len(),
{
    if items.len() == 0 {
        Seq::empty()
    } else {
        item_locals(items.drop_last()) + item_locals_one(items.last())
    }
}

pub proof fn lemma_prefixed_all_concat(
    m: Map<Seq<char>, Seq<char>>,
    a: Seq<Seq<char>>,
    b: Seq<Seq<char>>,
    prefix: Seq<char>,
)
    ensures
        prefixed_all(m, a + b, prefix) == prefixed_all(prefixed_all(m, a, prefix), b, prefix),
    decreases b.len(),
{
    if b.len() == 0 {
        assert(a + b =~= a);
    } else {
        assert((a + b).drop_last() =~= a + b.drop_last());
        lemma_prefixed_all_concat(m, a, b.drop_last(), prefix);
    }
}

/// Prefixes the local names of a fragment's imports, and records each
/// renaming.
pub struct RenameImportsVisitor {
    pub prefix: String,
    pub ident_map: IdentMap,
}

impl RenameImportsVisitor {
    pub fn new(prefix: &str) -> (r: Self)
        ensures
            r.prefix@ == prefix@,
            r.ident_map.view() == Map::<Seq<char>, Seq<char>>::empty(),
    {
        RenameImportsVisitor { prefix: String::from_str(prefix), ident_map: IdentMap::new() }
    }

    fn prefixed(&self, name: &String) -> (r: String)
        ensures
            r@ == self.prefix@ + name@,
    {
        let mut r = self.prefix.clone();
        r.append(name.as_str());
        r
    }

    /// Renames one binding and records the renaming.
    pub fn visit_specifier(&mut self, spec: &ImportSpecifier) -> (r: ImportSpecifier)
        ensures
            final(self).prefix@ == old(self).prefix@,
            specifier_renamed(*spec, r, old(self).prefix@),
            final(self).ident_map.view() == old(self).ident_map.view().insert(
                local_of(*spec),
                old(self).prefix@ + local_of(*spec),
            ),
    {
        match spec {
            ImportSpecifier::Named { local, imported } => {
                let renamed = self.prefixed(local);
                self.ident_map.insert(local.clone(), renamed.clone());
                let exported = match imported {
                    Some(x) => x.clone(),
                    None => local.clone(),
                };
                ImportSpecifier::Named { local: renamed, imported: Some(exported) }
            },
            ImportSpecifier::Default { local } => {
                let renamed = self.prefixed(local);
                self.ident_map.insert(local.clone(), renamed.clone());
                ImportSpecifier::Default { local: renamed }
            },
            ImportSpecifier::Namespace { local } => {
                let renamed = self.prefixed(local);
                self.ident_map.insert(local.clone(), renamed.clone());
                ImportSpecifier::Namespace { local: renamed }
            },
        }
    }

    /// Renames every binding of an import declaration.
    pub fn visit_import_decl(&mut self, node: ImportDecl) -> (r: ImportDecl)
        ensures
            final(self).prefix@ == old(self).prefix@,
            decl_renamed(node, r, old(self).prefix@),
            final(self).ident_map.view() == prefixed_all(
                old(self).ident_map.view(),
                locals(node.specifiers@),
                old(self).prefix@,
            ),
    {
        let ghost names = locals(node.specifiers@);
        let mut out: Vec<ImportSpecifier> = Vec::new();
        let mut j: usize = 0;
        assert(names.take(0) =~= Seq::<Seq<char>>::empty());
        while j < node.specifiers.len()
            invariant
                j <= node.specifiers@.len(),
                names == locals(node.specifiers@),
                self.prefix@ == old(self).prefix@,
                out@.len() == j,
                forall|k: int|
                    0 <= k < j ==> specifier_renamed(
                        #[trigger] node.specifiers@[k],
                        out@[k],
                        old(self).prefix@,
                    ),
                self.ident_map.view() == prefixed_all(
                    old(self).ident_map.view(),
                    names.take(j as int),
                    old(self).prefix@,
                ),
            decreases node.specifiers@.len() - j,
        {
            let r = self.visit_specifier(&node.specifiers[j]);
            out.push(r);
            assert(names.take(j + 1).drop_last() =~= names.take(j as int));
            j += 1;
        }
        assert(names.take(j as int) =~= names);
        ImportDecl { specifiers: out, src: node.src, type_only: node.type_only }
    }

    /// Renames the import declarations of a parsed import block; its other
    /// items are kept as they are.
    pub fn visit_module(&mut self, items: Vec<ModuleItem>) -> (r: Vec<ModuleItem>)
        ensures
            final(self).prefix@ == old(self).prefix@,
            items_renamed(items@, r@, old(self).prefix@),
            final(self).ident_map.view() == prefixed_all(
                old(self).ident_map.view(),
                item_locals(items@),
                old(self).prefix@,
            ),
    {
        let ghost orig = items@;
        let mut rest = items;
        let mut out: Vec<ModuleItem> = Vec::new();
        let mut i: usize = 0;
        assert(orig.take(0) =~= Seq::<ModuleItem>::empty());
        assert(orig.skip(0) =~= orig);
        while rest.len() > 0
            invariant
                i + rest@.len() == orig.len(),
                rest@ == orig.skip(i as int),
                self.prefix@ == old(self).prefix@,
                out@.len() == i,
                forall|k: int|
                    0 <= k < i ==> if #[trigger] orig[k] is Import {
                        out@[k] is Import && decl_renamed(
                            orig[k]->Import_0,
                            out@[k]->Import_0,
                            old(self).prefix@,
                        )
                    } else {
                        out@[k] == orig[k]
                    },
                self.ident_map.view() == prefixed_all(
                    old(self).ident_map.view(),
                    item_locals(orig.take(i as int)),
                    old(self).prefix@,
                ),
            decreases rest@.len(),
        {
            let item = rest.remove(0);
            assert(item == orig[i as int]);
            assert(rest@ =~= orig.skip(i + 1));
            assert(orig.take(i + 1).drop_last() =~= orig.take(i as int));
            let ghost before = self.ident_map.view();
            proof {
                lemma_prefixed_all_concat(
                    old(self).ident_map.view(),
                    item_locals(orig.take(i as int)),
                    item_locals_one(item),
                    old(self).prefix@,
                );
            }
            match item {
                ModuleItem::Import(d) => {
                    let renamed = self.visit_import_decl(d);
                    out.push(ModuleItem::Import(renamed));
                },
                other => {
                    assert(item_locals_one(other) =~= Seq::<Seq<char>>::empty());
                    out.push(other);
                },
            }
            i = out.len();
        }
        assert(orig.take(i as int) =~= orig);
        out
    }
}

} // verus!
