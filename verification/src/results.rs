//! The collected results of a scan.

use vstd::prelude::*;

use crate::entry::{EntryKind, ScandirResult};

verus! {

/// The entries and the errors that a scan collected.
#[derive(Debug)]
pub struct ScandirResults {
    pub results: Vec<ScandirResult>,
    pub errors: Vec<(String, String)>,
}

/// The category an entry is listed under: symbolic links first, then
/// directories, then files; everything else (errors included) is "other".
pub open spec fn category(r: ScandirResult) -> EntryKind {
    if r.spec_is_symlink() {
        EntryKind::Symlink
    } else if r.spec_is_dir() {
        EntryKind::Dir
    } else if r.spec_is_file() {
        EntryKind::File
    } else {
        EntryKind::Other
    }
}

/// The entries of `s` in category `k`, in their order.
pub open spec fn select(s: Seq<ScandirResult>, k: EntryKind) -> Seq<ScandirResult>
    decreases s.len(),
{
    if s.len() == 0 {
        Seq::empty()
    } else if category(s.last()) == k {
        select(s.drop_last(), k).push(s.last())
    } else {
        select(s.drop_last(), k)
    }
}

/// Every entry is listed in exactly one category: the four lists together
/// hold as many entries as the results.
pub proof fn lemma_categories_partition(s: Seq<ScandirResult>)
    ensures
        select(s, EntryKind::Dir).len() + select(s, EntryKind::File).len() + select(
            s,
            EntryKind::Symlink,
        ).len() + select(s, EntryKind::Other).len() == s.len(),
    decreases s.len(),
{
    if s.len() > 0 {
        lemma_categories_partition(s.drop_last());
    }
}

/// An entry listed under category `k` is of that category.
pub proof fn lemma_select_members(s: Seq<ScandirResult>, k: EntryKind)
    ensures
        forall|i: int| 0 <= i < select(s, k).len() ==> category(#[trigger] select(s, k)[i]) == k,
    decreases s.len(),
{
    if s.len() > 0 {
        lemma_select_members(s.drop_last(), k);
    }
}

fn category_of(r: &ScandirResult) -> (k: EntryKind)
    ensures
        k == category(*r),
{
    if r.is_symlink() {
        EntryKind::Symlink
    } else if r.is_dir() {
        EntryKind::Dir
    } else if r.is_file() {
        EntryKind::File
    } else {
        EntryKind::Other
    }
}

impl ScandirResults {
    /// No entries and no errors.
    pub fn new() -> (r: ScandirResults)
        ensures
            r.results@.len() == 0,
            r.errors@.len() == 0,
    {
        ScandirResults { results: Vec::new(), errors: Vec::new() }
    }

    /// Adds one result: an error goes to the errors, anything else to the entries.
    pub fn push_entry(&mut self, entry: ScandirResult)
        ensures
            match entry {
                ScandirResult::Error(e) => final(self).errors@ == old(self).errors@.push(e)
                    && final(self).results@ == old(self).results@,
                _ => final(self).results@ == old(self).results@.push(entry)
                    && final(self).errors@ == old(self).errors@,
            },
    {
        match entry {
            ScandirResult::Error(e) => self.errors.push(e),
            other => self.results.push(other),
        }
    }

    /// Appends copies of the entries and errors of `other`.
    pub fn extend(&mut self, other: &ScandirResults)
        ensures
            final(self).results@ == old(self).results@ + other.results@,
            final(self).errors@ == old(self).errors@ + other.errors@,
    {
        let ghost r0 = self.results@;
        let ghost e0 = self.errors@;
        for i in 0..other.results.len()
            invariant
                self.results@ == r0 + other.results@.take(i as int),
                self.errors@ == e0,
        {
            self.results.push(other.results[i].clone());
            assert(r0 + other.results@.take(i + 1) =~= (r0 + other.results@.take(i as int)).push(
                other.results@[i as int],
            ));
        }
        for i in 0..other.errors.len()
            invariant
                self.results@ == r0 + other.results@.take(other.results@.len() as int),
                self.errors@ == e0 + other.errors@.take(i as int),
        {
            let (p, m) = &other.errors[i];
            self.errors.push((p.clone(), m.clone()));
            assert(e0 + other.errors@.take(i + 1) =~= (e0 + other.errors@.take(i as int)).push(
                other.errors@[i as int],
            ));
        }
        assert(other.results@.take(other.results@.len() as int) =~= other.results@);
        assert(other.errors@.take(other.errors@.len() as int) =~= other.errors@);
    }

    /// The number of entries and errors.
    pub fn len(&self) -> (r: usize)
        requires
            self.results@.len() + self.errors@.len() <= usize::MAX,
        ensures
            r == self.results@.len() + self.errors@.len(),
    {
        self.results.len() + self.errors.len()
    }

    /// Whether there is neither an entry nor an error.
    pub fn is_empty(&self) -> (r: bool)
        ensures
            r == (self.results@.len() == 0 && self.errors@.len() == 0),
    {
        self.results.len() == 0 && self.errors.len() == 0
    }

    /// Removes all entries and errors.
    pub fn clear(&mut self)
        ensures
            final(self).results@.len() == 0,
            final(self).errors@.len() == 0,
    {
        self.results.clear();
        self.errors.clear();
    }

    fn select_kind(&self, k: EntryKind) -> (r: Vec<&ScandirResult>)
        ensures
            r@.map_values(|x: &ScandirResult| *x) == select(self.results@, k),
    {
        let mut out: Vec<&ScandirResult> = Vec::new();
        for i in 0..self.results.len()
            invariant
                out@.map_values(|x: &ScandirResult| *x) == select(self.results@.take(i as int), k),
        {
            let e = &self.results[i];
            assert(self.results@.take(i + 1).drop_last() =~= self.results@.take(i as int));
            if category_of(e) == k {
                out.push(e);
            }
            assert(out@.map_values(|x: &ScandirResult| *x) =~= select(self.results@.take(i + 1), k));
        }
        assert(self.results@.take(self.results@.len() as int) =~= self.results@);
        out
    }

    /// The directories among the entries.
    pub fn dirs(&self) -> (r: Vec<&ScandirResult>)
        ensures
            r@.map_values(|x: &ScandirResult| *x) == select(self.results@, EntryKind::Dir),
    {
        self.select_kind(EntryKind::Dir)
    }

    /// The files among the entries.
    pub fn files(&self) -> (r: Vec<&ScandirResult>)
        ensures
            r@.map_values(|x: &ScandirResult| *x) == select(self.results@, EntryKind::File),
    {
        self.select_kind(EntryKind::File)
    }

    /// The symbolic links among the entries.
    pub fn symlinks(&self) -> (r: Vec<&ScandirResult>)
        ensures
            r@.map_values(|x: &ScandirResult| *x) == select(self.results@, EntryKind::Symlink),
    {
        self.select_kind(EntryKind::Symlink)
    }

    /// The entries that are neither directories, files nor symbolic links.
    pub fn other(&self) -> (r: Vec<&ScandirResult>)
        ensures
            r@.map_values(|x: &ScandirResult| *x) == select(self.results@, EntryKind::Other),
    {
        self.select_kind(EntryKind::Other)
    }
}

impl Clone for ScandirResults {
    fn clone(&self) -> (r: Self)
        ensures
            r.results@ == self.results@,
            r.errors@ == self.errors@,
    {
        let mut r = ScandirResults::new();
        r.extend(self);
        assert(r.results@ =~= self.results@);
        assert(r.errors@ =~= self.errors@);
        r
    }
}

} // verus!
