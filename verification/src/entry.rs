//! The entries of the list of recently opened files.

use vstd::prelude::*;
use vstd::laws_eq::{obeys_eq, obeys_eq_spec_properties};

verus! {

/// A recently opened file, by its path. Two entries are equal when their
/// paths are the same text.
#[derive(Clone, Debug)]
pub struct RecentEntry {
    pub path: String,
}

impl View for RecentEntry {
    type V = Seq<char>;

    open spec fn view(&self) -> Seq<char> {
        self.path@
    }
}

impl PartialEq for RecentEntry {
    fn eq(&self, other: &RecentEntry) -> (same: bool) {
        self.path == other.path
    }
}

impl Eq for RecentEntry {

}

impl vstd::std_specs::cmp::PartialEqSpecImpl for RecentEntry {
    open spec fn obeys_eq_spec() -> bool {
        true
    }

    open spec fn eq_spec(&self, other: &RecentEntry) -> bool {
        self.path@ == other.path@
    }
}

impl RecentEntry {
    /// The entry for the file at `path`.
    pub fn new(path: String) -> (entry: RecentEntry)
        ensures
            entry.path == path,
    {
        RecentEntry { path }
    }

    /// The path of the file.
    pub fn as_str(&self) -> (path: &str)
        ensures
            path@ == self@,
    {
        self.path.as_str()
    }

    /// The path of the file, as a text of its own.
    pub fn to_string(&self) -> (path: String)
        ensures
            path@ == self@,
    {
        self.path.clone()
    }
}

/// Equality of entries is an equivalence: it holds both ways round, and of
/// the first and third of three entries when it holds of the first and second
/// and of the second and third.
pub proof fn lemma_entries_obey_eq()
    ensures
        obeys_eq::<RecentEntry>(),
{
    reveal(obeys_eq_spec_properties);
}

} // verus!
