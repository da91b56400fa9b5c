//! The substitution store: generated fragments keyed by the start offset,
//! end offset and prompt text of the function they replace.
use vstd::prelude::*;

verus! {

/// A generated replacement: statements, and optionally an import block.
#[derive(Debug, PartialEq, Eq)]
pub struct Substitution {
    pub code: String,
    pub imports: Option<String>,
}

/// One entry of the cache: offsets as the decimal strings the cache holds.
#[derive(Debug, PartialEq, Eq)]
pub struct StoreEntry {
    pub start: String,
    pub end: String,
    pub prompt: String,
    pub substitution: Substitution,
}

pub type StoreKey = (Seq<char>, Seq<char>, Seq<char>);

pub open spec fn entry_key(e: StoreEntry) -> StoreKey {
    (e.start@, e.end@, e.prompt@)
}

/// The mapping that a list of entries stands for: a later entry with the
/// same key replaces an earlier one.
pub open spec fn entries_map(entries: Seq<StoreEntry>) -> Map<StoreKey, Substitution>
    decreases entries.len(),
{
    if entries.len() == 0 {
        Map::empty()
    } else {
        entries_map(entries.drop_last()).insert(
            entry_key(entries.last()),
            entries.last().substitution,
        )
    }
}

/// The character of a decimal digit.
pub open spec fn digit_char(d: nat) -> char {
    if d == 0 { '0' }
    else if d == 1 { '1' }
    else if d == 2 { '2' }
    else if d == 3 { '3' }
    else if d == 4 { '4' }
    else if d == 5 { '5' }
    else if d == 6 { '6' }
    else if d == 7 { '7' }
    else if d == 8 { '8' }
    else { '9' }
}

/// The decimal representation of `n`, without sign or leading zeros.
pub open spec fn decimal(n: nat) -> Seq<char>
    decreases n,
{
    if n < 10 {
        seq![digit_char(n)]
    } else {
        decimal(n / 10).push(digit_char(n % 10))
    }
}

fn digit_str(d: u32) -> (r: &'static str)
    requires
        d < 10,
    ensures
        r@ == seq![digit_char(d as nat)],
{
    proof {
        reveal_strlit("0");
        reveal_strlit("1");
        reveal_strlit("2");
        reveal_strlit("3");
        reveal_strlit("4");
        reveal_strlit("5");
        reveal_strlit("6");
        reveal_strlit("7");
        reveal_strlit("8");
        reveal_strlit("9");
    }
    let r = match d {
        0 => "0",
        1 => "1",
        2 => "2",
        3 => "3",
        4 => "4",
        5 => "5",
        6 => "6",
        7 => "7",
        8 => "8",
        _ => "9",
    };
    assert(r@ =~= seq![digit_char(d as nat)]);
    r
}

/// Writes `n` in decimal, as offsets are written in the cache's keys.
pub fn to_decimal(n: u32) -> (r: String)
    ensures
        r@ == decimal(n as nat),
    decreases n,
{
    if n < 10 {
        String::from_str(digit_str(n))
    } else {
        let mut s = to_decimal(n / 10);
        s.append(digit_str(n % 10));
        s
    }
}

/// The read-only view of the cache for one transform pass.
pub struct SubstitutionStore {
    entries: Vec<StoreEntry>,
}

impl SubstitutionStore {
    pub closed spec fn view(&self) -> Map<StoreKey, Substitution> {
        entries_map(self.entries@)
    }

    /// A store with no entries: the cache of a pass that has none.
    pub fn new() -> (r: Self)
        ensures
            r.view() == Map::<StoreKey, Substitution>::empty(),
    {
        SubstitutionStore { entries: Vec::new() }
    }

    /// Adds an entry; it replaces an entry with the same key.
    pub fn insert(&mut self, entry: StoreEntry)
        ensures
            final(self).view() == old(self).view().insert(entry_key(entry), entry.substitution),
    {
        let ghost e = entry;
        self.entries.push(entry);
        assert(self.entries@.drop_last() =~= old(self).entries@);
    }

    /// Looks up an entry by its exact key strings.
    pub fn get(&self, start: &String, end: &String, prompt: &String) -> (r: Option<&Substitution>)
        ensures
            self.view().contains_key((start@, end@, prompt@)) ==> r == Some(
                &self.view()[(start@, end@, prompt@)],
            ),
            !self.view().contains_key((start@, end@, prompt@)) ==> r is None,
    {
        let ghost key = (start@, end@, prompt@);
        let mut i: usize = self.entries.len();
        while i > 0
            invariant
                i <= self.entries@.len(),
                key == (start@, end@, prompt@),
                forall|j: int|
                    i <= j < self.entries@.len() ==> entry_key(#[trigger] self.entries@[j]) != key,
            decreases i,
        {
            let e = &self.entries[i - 1];
            if e.start.eq(start) && e.end.eq(end) && e.prompt.eq(prompt) {
                assert(entry_key(self.entries@[i - 1]) == key);
                proof {
                    lemma_entries_map_last_match(self.entries@, (i - 1) as int, key);
                }
                return Some(&e.substitution);
            }
            i -= 1;
        }
        proof {
            lemma_entries_map_no_match(self.entries@, key);
        }
        None
    }

    /// Looks up the substitution for a function spanning `[start, end)` whose
    /// directive text is `prompt`: equality on all three parts.
    pub fn lookup(&self, start: u32, end: u32, prompt: &String) -> (r: Option<&Substitution>)
        ensures
            self.view().contains_key(site_key(start, end, prompt@)) ==> r == Some(
                &self.view()[site_key(start, end, prompt@)],
            ),
            !self.view().contains_key(site_key(start, end, prompt@)) ==> r is None,
    {
        let s = to_decimal(start);
        let e = to_decimal(end);
        self.get(&s, &e, prompt)
    }
}

/// The key under which the cache files the substitution for a site.
pub open spec fn site_key(start: u32, end: u32, prompt: Seq<char>) -> StoreKey {
    (decimal(start as nat), decimal(end as nat), prompt)
}

proof fn lemma_entries_map_last_match(entries: Seq<StoreEntry>, i: int, key: StoreKey)
    requires
        0 <= i < entries.len(),
        entry_key(entries[i]) == key,
        forall|j: int| i < j < entries.len() ==> entry_key(#[trigger] entries[j]) != key,
    ensures
        entries_map(entries).contains_key(key),
        entries_map(entries)[key] == entries[i].substitution,
    decreases entries.len(),
{
    if i < entries.len() - 1 {
        let prev = entries.drop_last();
        assert forall|j: int| i < j < prev.len() implies entry_key(#[trigger] prev[j]) != key by {
            assert(prev[j] == entries[j]);
        }
        lemma_entries_map_last_match(prev, i, key);
    }
}

proof fn lemma_entries_map_no_match(entries: Seq<StoreEntry>, key: StoreKey)
    requires
        forall|j: int| 0 <= j < entries.len() ==> entry_key(#[trigger] entries[j]) != key,
    ensures
        !entries_map(entries).contains_key(key),
    decreases entries.len(),
{
    if entries.len() > 0 {
        let prev = entries.drop_last();
        assert forall|j: int| 0 <= j < prev.len() implies entry_key(#[trigger] prev[j]) != key by {
            assert(prev[j] == entries[j]);
        }
        lemma_entries_map_no_match(prev, key);
    }
}

} // verus!
