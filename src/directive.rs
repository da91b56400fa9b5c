//! Recognition of the `"use prompt: ..."` directive in a function's prologue.
use vstd::prelude::*;

verus! {

/// One statement of a function body, as far as directive scanning reads it.
#[derive(Debug, PartialEq, Eq)]
pub enum BodyStmt {
    /// A bare string-literal expression statement, with the literal's value.
    Literal(String),
    /// Any other statement.
    Other,
}

/// The outcome of scanning a function body for a prompt directive.
#[derive(Debug, PartialEq, Eq)]
pub enum DirectiveScan {
    /// No prologue literal starts with the prefix.
    NotFound,
    /// The first prologue literal with the prefix has nothing after it but whitespace.
    Empty,
    /// The trimmed, non-empty text after the prefix.
    Found(String),
}

/// The literal prefix that marks a prompt directive.
pub const PROMPT_PREFIX: &'static str = "use prompt:";

pub open spec fn has_prompt_prefix(s: Seq<char>) -> bool {
    s.len() >= PROMPT_PREFIX@.len() && s.subrange(0, PROMPT_PREFIX@.len() as int)
        == PROMPT_PREFIX@
}

/// Text after the prefix of the first literal of the directive prologue (the
/// maximal leading run of string literals) that starts with the prefix.
pub open spec fn directive_text(stmts: Seq<BodyStmt>) -> Option<Seq<char>>
    decreases stmts.len(),
{
    if stmts.len() == 0 {
        None
    } else {
        match stmts[0] {
            BodyStmt::Other => None,
            BodyStmt::Literal(s) => if has_prompt_prefix(s@) {
                Some(s@.skip(PROMPT_PREFIX@.len() as int))
            } else {
                directive_text(stmts.drop_first())
            },
        }
    }
}

/// What `str::trim` returns on a string: it removes leading and trailing
/// whitespace, as Unicode defines it.
pub uninterp spec fn trim_of(s: Seq<char>) -> Seq<char>;

/// The scan outcome for a body whose directive text is `text`.
pub open spec fn scan_spec(text: Option<Seq<char>>, r: DirectiveScan) -> bool {
    match text {
        None => r is NotFound,
        Some(rest) => if trim_of(rest).len() == 0 {
            r is Empty
        } else {
            r is Found && r->Found_0@ == trim_of(rest)
        },
    }
}

/// Relies on `str::trim`: the result is the input without leading and
/// trailing whitespace, and depends on the input alone.
#[verifier::external_body]
fn trim(s: &str) -> (r: String)
    ensures
        r@ == trim_of(s@),
{
    s.trim().to_owned()
}

/// Whether `s` starts with the prompt prefix.
pub fn starts_with_prompt_prefix(s: &str) -> (r: bool)
    ensures
        r == has_prompt_prefix(s@),
{
    let p: &str = PROMPT_PREFIX;
    proof {
        reveal_strlit("use prompt:");
    }
    let n = s.unicode_len();
    let m = p.unicode_len();
    if n < m {
        return false;
    }
    let mut i: usize = 0;
    while i < m
        invariant
            m == p@.len(),
            p@ == PROMPT_PREFIX@,
            m <= n == s@.len(),
            i <= m,
            forall|j: int| 0 <= j < i ==> s@[j] == p@[j],
        decreases m - i,
    {
        if s.get_char(i) != p.get_char(i) {
            assert(s@.subrange(0, m as int)[i as int] != p@[i as int]);
            return false;
        }
        i += 1;
    }
    assert(s@.subrange(0, m as int) =~= p@);
    true
}

/// Classifies the trimmed text after a directive's prefix.
pub fn directive_from_trimmed(trimmed: String) -> (r: DirectiveScan)
    ensures
        trimmed@.len() == 0 ==> r is Empty,
        trimmed@.len() > 0 ==> r is Found && r->Found_0@ == trimmed@,
{
    if trimmed.as_str().unicode_len() == 0 {
        DirectiveScan::Empty
    } else {
        DirectiveScan::Found(trimmed)
    }
}

/// Scans the directive prologue of a function body for the first literal
/// that starts with the prompt prefix.
pub fn scan_directive(stmts: &Vec<BodyStmt>) -> (r: DirectiveScan)
    ensures
        scan_spec(directive_text(stmts@), r),
{
    let mut i: usize = 0;
    assert(stmts@.skip(0) =~= stmts@);
    while i < stmts.len()
        invariant
            i <= stmts@.len(),
            directive_text(stmts@) == directive_text(stmts@.skip(i as int)),
        decreases stmts@.len() - i,
    {
        assert(stmts@.skip(i as int)[0] == stmts@[i as int]);
        assert(stmts@.skip(i as int).drop_first() =~= stmts@.skip(i + 1));
        match &stmts[i] {
            BodyStmt::Other => {
                return DirectiveScan::NotFound;
            },
            BodyStmt::Literal(s) => {
                if starts_with_prompt_prefix(s.as_str()) {
                    proof {
                        reveal_strlit("use prompt:");
                    }
                    let n = s.as_str().unicode_len();
                    let rest = s.as_str().substring_char(11, n);
                    assert(rest@ =~= s@.skip(PROMPT_PREFIX@.len() as int));
                    return directive_from_trimmed(trim(rest));
                }
            },
        }
        i += 1;
    }
    assert(stmts@.skip(i as int).len() == 0);
    DirectiveScan::NotFound
}

} // verus!
