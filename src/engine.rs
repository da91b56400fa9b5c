//! The transform orchestrator: per-function decisions and per-module state.
use vstd::prelude::*;
use crate::directive::{BodyStmt, DirectiveScan, directive_text, scan_directive, trim_of};
use crate::finalize::{finalize_module, finalized};
use crate::hygiene::{IdentMap, RenameImportsVisitor, item_locals, items_renamed, prefixed_all};
use crate::module::ModuleItem;
use crate::store::{SubstitutionStore, Substitution, decimal, digit_char, site_key, to_decimal};

verus! {

/// What to do at a site whose directive has no substitution yet.
#[derive(Clone, Copy, Debug, PartialEq, Eq, Structural)]
pub enum PendingPolicy {
    /// Leave the function as it is until a fragment is generated.
    Silent,
    /// Replace the body with a throwing diagnostic at once.
    Diagnostic,
}

/// The replacement body message for a directive with no text.
pub const INCOMPLETE_PROMPT: &'static str = "Incomplete prompt!";

/// The replacement body message for a directive with no substitution, under
/// `PendingPolicy::Diagnostic`.
pub const MISSING_SUBSTITUTION: &'static str = "Waiting for component generation...";

/// The replacement body message for a code fragment that does not parse.
pub const CODE_PARSE_FAILED: &'static str = "Guess ChatGPT isn't great at writing code...";

/// The start of the replacement body message for an import block that does not parse.
pub const IMPORTS_PARSE_FAILED: &'static str = "uh oh: ";

/// The start of every hygiene prefix; the visit index and `_` follow.
pub const IMPORT_PREFIX: &'static str = "__swcPluginUsePromptImport__";

/// The hygiene prefix of the `index`-th directive of a module.
pub open spec fn prefix_of(index: u32) -> Seq<char> {
    IMPORT_PREFIX@ + decimal(index as nat) + seq!['_']
}

/// Builds the hygiene prefix of the `index`-th directive of a module.
pub fn hygiene_prefix(index: u32) -> (r: String)
    ensures
        r@ == prefix_of(index),
{
    let mut r = String::from_str(IMPORT_PREFIX);
    let d = to_decimal(index);
    r.append(d.as_str());
    let u: &str = "_";
    proof {
        reveal_strlit("_");
    }
    r.append(u);
    assert(r@ =~= prefix_of(index));
    r
}

pub open spec fn is_digit(c: char) -> bool {
    '0' <= c && c <= '9'
}

proof fn lemma_decimal_digits(n: nat)
    ensures
        decimal(n).len() >= 1,
        forall|k: int| 0 <= k < decimal(n).len() ==> is_digit(#[trigger] decimal(n)[k]),
    decreases n,
{
    if n >= 10 {
        lemma_decimal_digits(n / 10);
        let d = decimal(n / 10);
        assert forall|k: int| 0 <= k < decimal(n).len() implies is_digit(#[trigger] decimal(n)[k]) by {
            if k < d.len() {
                assert(decimal(n)[k] == d[k]);
            }
        }
    }
}

proof fn lemma_decimal_injective(a: nat, b: nat)
    requires
        decimal(a) == decimal(b),
    ensures
        a == b,
    decreases a,
{
    if a >= 10 {
        lemma_decimal_digits(a / 10);
    }
    if b >= 10 {
        lemma_decimal_digits(b / 10);
    }
    if a >= 10 && b >= 10 {
        assert(decimal(a).drop_last() =~= decimal(a / 10));
        assert(decimal(b).drop_last() =~= decimal(b / 10));
        assert(decimal(a).last() == digit_char(a % 10));
        assert(decimal(b).last() == digit_char(b % 10));
        lemma_digit_char_injective(a % 10, b % 10);
        lemma_decimal_injective(a / 10, b / 10);
    } else if a < 10 && b < 10 {
        assert(decimal(a)[0] == digit_char(a));
        assert(decimal(b)[0] == digit_char(b));
        lemma_digit_char_injective(a, b);
    } else if a < 10 {
        assert(decimal(a).len() == 1);
        assert(decimal(b).len() == decimal(b / 10).len() + 1);
    } else {
        assert(decimal(b).len() == 1);
        assert(decimal(a).len() == decimal(a / 10).len() + 1);
    }
}

proof fn lemma_digit_char_injective(a: nat, b: nat)
    requires
        a < 10,
        b < 10,
        digit_char(a) == digit_char(b),
    ensures
        a == b,
{
}

/// Names renamed under the prefixes of two visit indices coincide only when
/// the indices and the original names do: distinct call sites never collide.
pub proof fn lemma_prefixes_never_collide(i: u32, j: u32, x: Seq<char>, y: Seq<char>)
    requires
        prefix_of(i) + x == prefix_of(j) + y,
    ensures
        i == j,
        x == y,
{
    let p = IMPORT_PREFIX@;
    let di = decimal(i as nat);
    let dj = decimal(j as nat);
    let u = seq!['_'];
    let s = prefix_of(i) + x;
    let t = prefix_of(j) + y;
    lemma_decimal_digits(i as nat);
    lemma_decimal_digits(j as nat);
    assert(s =~= p + (di + (u + x)));
    assert(t =~= p + (dj + (u + y)));
    let si = di + (u + x);
    let tj = dj + (u + y);
    assert(si =~= s.skip(p.len() as int));
    assert(tj =~= t.skip(p.len() as int));
    if di.len() < dj.len() {
        assert(si[di.len() as int] == '_');
        assert(tj[di.len() as int] == dj[di.len() as int]);
        assert(is_digit(dj[di.len() as int]));
        assert(false);
    }
    if dj.len() < di.len() {
        assert(tj[dj.len() as int] == '_');
        assert(si[dj.len() as int] == di[dj.len() as int]);
        assert(is_digit(di[dj.len() as int]));
        assert(false);
    }
    assert(di =~= si.take(di.len() as int));
    assert(dj =~= tj.take(dj.len() as int));
    lemma_decimal_injective(i as nat, j as nat);
    assert(x =~= si.skip(di.len() + 1 as int));
    assert(y =~= tj.skip(dj.len() + 1 as int));
}

/// What becomes of one function's body.
#[derive(Debug, PartialEq, Eq)]
pub enum FnAction {
    /// The body stays as it is.
    Keep,
    /// The body becomes a single statement that throws an error with this message.
    Throw(String),
    /// The body becomes the parsed `code`; an import block, if any, is renamed
    /// with `prefix` first.
    Splice { code: String, imports: Option<String>, prefix: String },
}

/// The decision for a function body, given the directive scan, the store's
/// answer and the visit index the directive gets.
pub open spec fn fn_decision(
    store: Map<(Seq<char>, Seq<char>, Seq<char>), Substitution>,
    policy: PendingPolicy,
    visited: u32,
    body: Seq<BodyStmt>,
    start: u32,
    end: u32,
    r: FnAction,
    visited_after: u32,
) -> bool {
    if body.len() == 0 {
        r is Keep && visited_after == visited
    } else {
        match directive_text(body) {
            None => r is Keep && visited_after == visited,
            Some(rest) => if trim_of(rest).len() == 0 {
                r is Throw && r->Throw_0@ == INCOMPLETE_PROMPT@ && visited_after == visited
            } else {
                let key = site_key(start, end, trim_of(rest));
                &&& visited_after == visited + 1
                &&& if store.contains_key(key) {
                    let s = store[key];
                    match r {
                        FnAction::Splice { code, imports, prefix } => {
                            &&& code@ == s.code@
                            &&& imports is Some == s.imports is Some
                            &&& imports is Some ==> imports->0@ == s.imports->0@
                            &&& prefix@ == prefix_of(visited)
                        },
                        _ => false,
                    }
                } else if policy == PendingPolicy::Silent {
                    r is Keep
                } else {
                    r is Throw && r->Throw_0@ == MISSING_SUBSTITUTION@
                }
            },
        }
    }
}

fn clone_option(o: &Option<String>) -> (r: Option<String>)
    ensures
        r is Some == o is Some,
        r is Some ==> r->0@ == o->0@,
{
    match o {
        Some(s) => Some(s.clone()),
        None => None,
    }
}

/// Substitutes generated fragments for the bodies of functions that carry a
/// prompt directive, and collects what the module needs afterwards.
pub struct SubstitutionVisitor {
    pub substitutions: SubstitutionStore,
    pub policy: PendingPolicy,
    pub imports: Vec<ModuleItem>,
    pub visited: u32,
    pub succeeded: u32,
}

impl SubstitutionVisitor {
    /// A visitor over `substitutions` with nothing visited or collected yet.
    pub fn new(substitutions: SubstitutionStore, policy: PendingPolicy) -> (r: Self)
        ensures
            r.substitutions.view() == substitutions.view(),
            r.policy == policy,
            r.imports@.len() == 0,
            r.visited == 0,
            r.succeeded == 0,
    {
        SubstitutionVisitor { substitutions, policy, imports: Vec::new(), visited: 0, succeeded: 0 }
    }

    /// Decides what becomes of the body of a function spanning `[start, end)`.
    /// A directive with text takes the next visit index.
    pub fn transform_fn_body(&mut self, body: &Vec<BodyStmt>, start: u32, end: u32) -> (r: FnAction)
        requires
            old(self).visited < u32::MAX,
        ensures
            fn_decision(
                old(self).substitutions.view(),
                old(self).policy,
                old(self).visited,
                body@,
                start,
                end,
                r,
                final(self).visited,
            ),
            final(self).substitutions.view() == old(self).substitutions.view(),
            final(self).policy == old(self).policy,
            final(self).imports@ == old(self).imports@,
            final(self).succeeded == old(self).succeeded,
    {
        if body.len() == 0 {
            return FnAction::Keep;
        }
        let prompt = match scan_directive(body) {
            DirectiveScan::NotFound => {
                return FnAction::Keep;
            },
            DirectiveScan::Empty => {
                return FnAction::Throw(String::from_str(INCOMPLETE_PROMPT));
            },
            DirectiveScan::Found(p) => p,
        };
        let visit_index = self.visited;
        self.visited = self.visited + 1;
        match self.substitutions.lookup(start, end, &prompt) {
            Some(subst) => FnAction::Splice {
                code: subst.code.clone(),
                imports: clone_option(&subst.imports),
                prefix: hygiene_prefix(visit_index),
            },
            None => match self.policy {
                PendingPolicy::Silent => FnAction::Keep,
                PendingPolicy::Diagnostic => FnAction::Throw(String::from_str(MISSING_SUBSTITUTION)),
            },
        }
    }

    /// Records the outcome of a splice: on success the renamed imports join
    /// the module's collection; otherwise the failure message comes back.
    pub fn finish_splice(&mut self, renamed_imports: Vec<ModuleItem>, code_parsed: bool) -> (r: Option<String>)
        requires
            old(self).succeeded < u32::MAX,
        ensures
            code_parsed ==> r is None && final(self).imports@ == old(self).imports@ + renamed_imports@
                && final(self).succeeded == old(self).succeeded + 1,
            !code_parsed ==> r is Some && r->0@ == CODE_PARSE_FAILED@ && final(self).imports@
                == old(self).imports@ && final(self).succeeded == old(self).succeeded,
            final(self).substitutions.view() == old(self).substitutions.view(),
            final(self).policy == old(self).policy,
            final(self).visited == old(self).visited,
    {
        if code_parsed {
            let mut renamed_imports = renamed_imports;
            self.imports.append(&mut renamed_imports);
            self.succeeded = self.succeeded + 1;
            None
        } else {
            Some(String::from_str(CODE_PARSE_FAILED))
        }
    }

    /// Finalizes the module once all of its functions have been visited.
    pub fn visit_module(self, items: &mut Vec<ModuleItem>)
        ensures
            finalized(old(items)@, self.succeeded > 0, self.imports@, final(items)@),
    {
        finalize_module(items, self.succeeded > 0, self.imports);
    }
}

/// Renames a parsed import block with `prefix`, or gives the failure message
/// for an import block that did not parse.
pub fn make_imports_from_parsed(parsed: Result<Vec<ModuleItem>, String>, prefix: &str) -> (r: Result<(Vec<ModuleItem>, IdentMap), String>)
    ensures
        parsed is Ok ==> r is Ok && items_renamed(parsed->Ok_0@, r->Ok_0.0@, prefix@)
            && r->Ok_0.1.view() == prefixed_all(Map::empty(), item_locals(parsed->Ok_0@), prefix@),
        parsed is Err ==> r is Err && r->Err_0@ == IMPORTS_PARSE_FAILED@ + parsed->Err_0@,
{
    match parsed {
        Ok(items) => {
            let mut vis = RenameImportsVisitor::new(prefix);
            let renamed = vis.visit_module(items);
            Ok((renamed, vis.ident_map))
        },
        Err(e) => {
            let mut msg = String::from_str(IMPORTS_PARSE_FAILED);
            msg.append(e.as_str());
            Err(msg)
        },
    }
}

/// What a function's body becomes, as values.
pub enum ActionView {
    Keep,
    Throw(Seq<char>),
    Splice(Seq<char>, Option<Seq<char>>, Seq<char>),
}

impl FnAction {
    pub open spec fn view(&self) -> ActionView {
        match self {
            FnAction::Keep => ActionView::Keep,
            FnAction::Throw(m) => ActionView::Throw(m@),
            FnAction::Splice { code, imports, prefix } => ActionView::Splice(
                code@,
                match imports {
                    Some(i) => Some(i@),
                    None => None,
                },
                prefix@,
            ),
        }
    }
}

/// A function whose prologue holds no literal starting with the prompt
/// prefix is left as it is, and takes no visit index.
pub proof fn lemma_no_directive_is_identity(
    store: Map<(Seq<char>, Seq<char>, Seq<char>), Substitution>,
    policy: PendingPolicy,
    visited: u32,
    body: Seq<BodyStmt>,
    start: u32,
    end: u32,
    r: FnAction,
    visited_after: u32,
)
    requires
        directive_text(body) is None,
        fn_decision(store, policy, visited, body, start, end, r, visited_after),
    ensures
        r is Keep,
        visited_after == visited,
{
}

/// A directive with nothing but whitespace after the prefix makes the body a
/// single throw of the incomplete-prompt message, whatever the store holds.
pub proof fn lemma_empty_directive_throws(
    store: Map<(Seq<char>, Seq<char>, Seq<char>), Substitution>,
    policy: PendingPolicy,
    visited: u32,
    body: Seq<BodyStmt>,
    start: u32,
    end: u32,
    r: FnAction,
    visited_after: u32,
)
    requires
        directive_text(body) is Some,
        trim_of(directive_text(body)->0).len() == 0,
        fn_decision(store, policy, visited, body, start, end, r, visited_after),
    ensures
        r is Throw,
        r->Throw_0@ == INCOMPLETE_PROMPT@,
{
}

/// The decision for a function is a function of the store, the policy, the
/// visit index, the body and the span: two passes over the same input and
/// the same cache decide alike.
pub proof fn lemma_decision_deterministic(
    store: Map<(Seq<char>, Seq<char>, Seq<char>), Substitution>,
    policy: PendingPolicy,
    visited: u32,
    body: Seq<BodyStmt>,
    start: u32,
    end: u32,
    r1: FnAction,
    visited1: u32,
    r2: FnAction,
    visited2: u32,
)
    requires
        fn_decision(store, policy, visited, body, start, end, r1, visited1),
        fn_decision(store, policy, visited, body, start, end, r2, visited2),
    ensures
        r1.view() == r2.view(),
        visited1 == visited2,
{
}

} // verus!
