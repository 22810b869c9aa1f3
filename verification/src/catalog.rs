//! The theme catalog: an ordered list of `(name, repository URL)`
//! entries, looked up by name without regard to letter case; the first
//! match wins and duplicate names are allowed.

use vstd::prelude::*;

verus! {

/// The lower-case form that the external case folding produces for the
/// character sequence `s`.
pub uninterp spec fn lower_of(s: Seq<char>) -> Seq<char>;

/// Relies on str::to_lowercase: the result depends on the characters
/// alone.
#[verifier::external_body]
fn lowercase(s: &str) -> (r: String)
    ensures
        r@ == lower_of(s@),
{
    s.to_lowercase()
}

/// One theme known to the catalog, identified by `name` and fetched from
/// `repository_url`. Immutable once constructed.
pub struct ThemeEntry {
    pub name: String,
    pub repository_url: String,
}

/// Whether `e` is a hit for the requested name `key`, compared without
/// regard to letter case.
pub open spec fn entry_matches(e: ThemeEntry, key: Seq<char>) -> bool {
    lower_of(e.name@) == lower_of(key)
}

/// The ordered theme catalog.
pub struct ThemeCatalog {
    pub entries: Vec<ThemeEntry>,
}

/// Whether `names` lists exactly the catalog names, in catalog order.
pub open spec fn lists_names(entries: Seq<ThemeEntry>, names: Seq<String>) -> bool {
    names.len() == entries.len() && forall|j: int|
        0 <= j < entries.len() ==> names[j]@ == entries[j].name@
}

impl ThemeCatalog {
    /// An empty catalog.
    pub fn new() -> (c: ThemeCatalog)
        ensures
            c.entries@.len() == 0,
    {
        ThemeCatalog { entries: Vec::new() }
    }

    /// Appends one entry, keeping the earlier ones and their order.
    pub fn add(&mut self, entry: ThemeEntry)
        ensures
            final(self).entries@ == old(self).entries@.push(entry),
    {
        self.entries.push(entry);
    }

    /// The first entry whose name equals `name` without regard to letter
    /// case, or nothing when no entry matches.
    pub fn find(&self, name: &str) -> (r: Option<&ThemeEntry>)
        ensures
            match r {
                Some(e) => exists|i: int|
                    0 <= i < self.entries@.len() && *e == self.entries@[i] && entry_matches(
                        self.entries@[i],
                        name@,
                    ) && (forall|j: int| 0 <= j < i ==> !entry_matches(self.entries@[j], name@)),
                None => forall|i: int|
                    0 <= i < self.entries@.len() ==> !entry_matches(self.entries@[i], name@),
            },
    {
        let key = lowercase(name);
        let mut i: usize = 0;
        while i < self.entries.len()
            invariant
                0 <= i <= self.entries@.len(),
                key@ == lower_of(name@),
                forall|j: int| 0 <= j < i ==> !entry_matches(self.entries@[j], name@),
            decreases self.entries@.len() - i,
        {
            let entry_key = lowercase(self.entries[i].name.as_str());
            if entry_key == key {
                proof {
                    assert(entry_matches(self.entries@[i as int], name@));
                }
                return Some(&self.entries[i]);
            }
            i = i + 1;
        }
        None
    }

    /// Every catalog name, in catalog order.
    pub fn list(&self) -> (names: Vec<String>)
        ensures
            lists_names(self.entries@, names@),
    {
        let mut names: Vec<String> = Vec::new();
        let mut i: usize = 0;
        while i < self.entries.len()
            invariant
                0 <= i <= self.entries@.len(),
                names@.len() == i,
                forall|j: int| 0 <= j < i ==> names@[j]@ == self.entries@[j].name@,
            decreases self.entries@.len() - i,
        {
            names.push(self.entries[i].name.clone());
            i = i + 1;
        }
        names
    }
}

} // verus!
