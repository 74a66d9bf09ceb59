//! The decisions of a scan that returns one result per entry.

use vstd::prelude::*;

use crate::entry::{create_entry, entry_path_defined, entry_result, DirEntryInfo, EntryKind, ScandirResult};
use crate::options::ReturnType;
use crate::results::ScandirResults;
use crate::text::byte_len;
use crate::toc::texts;
use crate::walk::listing_reported;

verus! {

/// The most errors a collecting scan stores.
pub const MAX_STORED_ERRORS: usize = 1000;

/// Counts the files a walk has seen against the most it may collect.
pub struct FileBudget {
    pub max_file_cnt: usize,
    pub file_cnt: usize,
}

impl FileBudget {
    /// No file seen yet.
    pub fn new(max_file_cnt: usize) -> (r: FileBudget)
        ensures
            r.max_file_cnt == max_file_cnt,
            r.file_cnt == 0,
    {
        FileBudget { max_file_cnt, file_cnt: 0 }
    }

    /// Whether one more file can be counted without overflow.
    pub open spec fn can_count(&self) -> bool {
        self.file_cnt < usize::MAX
    }

    /// Counts an entry that the walk yielded (directories do not count) and
    /// says whether the walk goes on: it stops as soon as the maximum number
    /// of files (when that is not 0) has been reached.
    pub fn count(&mut self, is_dir: bool) -> (go_on: bool)
        requires
            !is_dir ==> old(self).can_count(),
        ensures
            final(self).max_file_cnt == old(self).max_file_cnt,
            final(self).file_cnt == if is_dir {
                old(self).file_cnt as int
            } else {
                old(self).file_cnt + 1
            },
            go_on == (is_dir || !limit_reached(final(self).max_file_cnt, final(self).file_cnt as int)),
    {
        if !is_dir {
            self.file_cnt = self.file_cnt + 1;
            if self.max_file_cnt > 0 && self.file_cnt >= self.max_file_cnt {
                return false;
            }
        }
        true
    }
}

/// Whether `file_cnt` files reach the maximum `max_file_cnt` (0: no maximum).
pub open spec fn limit_reached(max_file_cnt: usize, file_cnt: int) -> bool {
    max_file_cnt > 0 && file_cnt >= max_file_cnt
}

/// Whether the listing of a directory that the walk read is reported: its
/// path is valid UTF-8 and lies at or below the root.
pub fn dir_is_reported(root_dir: &str, root_dir_is_utf8: bool, root_path_len: usize) -> (r: bool)
    requires
        byte_len(root_dir@) < usize::MAX,
    ensures
        r == (root_dir_is_utf8 && listing_reported(root_dir@, root_path_len as int)),
{
    root_dir_is_utf8 && root_dir.len() + 1 >= root_path_len
}

/// An error result of the scan, not tied to a path.
pub open spec fn unplaced_error(m: Seq<char>, r: ScandirResult) -> bool {
    r matches ScandirResult::Error((p, e)) && p@.len() == 0 && e@ == m
}

/// The results of one directory's (already filtered) children, in order:
/// first one error per message of `errors`, then one result per child.
pub open spec fn dir_results_of(
    errors: Seq<Seq<char>>,
    children: Seq<Result<DirEntryInfo, String>>,
    root_path_len: int,
    return_type: ReturnType,
    r: Seq<ScandirResult>,
) -> bool {
    &&& r.len() == errors.len() + children.len()
    &&& forall|i: int| 0 <= i < errors.len() ==> unplaced_error(errors[i], #[trigger] r[i])
    &&& forall|i: int|
        0 <= i < children.len() ==> match #[trigger] children[i] {
            Ok(info) => entry_result(info, root_path_len, return_type, r[errors.len() + i]),
            Err(m) => unplaced_error(m@, r[errors.len() + i]),
        }
}

/// The results of one directory that a streaming scan sends.
pub fn dir_results(
    errors: Vec<String>,
    children: &Vec<Result<DirEntryInfo, String>>,
    root_path_len: usize,
    return_type: &ReturnType,
) -> (r: Vec<ScandirResult>)
    requires
        forall|i: int|
            0 <= i < children@.len() ==> (#[trigger] children@[i] matches Ok(info) ==> entry_path_defined(
                info,
                root_path_len as int,
            )),
    ensures
        dir_results_of(texts(errors@), children@, root_path_len as int, *return_type, r@),
{
    let ghost errs = texts(errors@);
    let ghost es = errors@;
    let mut out: Vec<ScandirResult> = Vec::new();
    for e in it: errors.into_iter()
        invariant
            it.seq() == es,
            errs == texts(it.seq()),
            out@.len() == it.index(),
            forall|i: int| 0 <= i < it.index() ==> unplaced_error(errs[i], #[trigger] out@[i]),
    {
        out.push(ScandirResult::Error((String::new(), e)));
    }
    let n = out.len();
    for i in 0..children.len()
        invariant
            n == errs.len(),
            out@.len() == n + i,
            forall|k: int|
                0 <= k < children@.len() ==> (#[trigger] children@[k] matches Ok(info) ==> entry_path_defined(
                    info,
                    root_path_len as int,
                )),
            forall|k: int| 0 <= k < n ==> unplaced_error(errs[k], #[trigger] out@[k]),
            forall|k: int|
                0 <= k < i ==> match #[trigger] children@[k] {
                    Ok(info) => entry_result(info, root_path_len as int, *return_type, out@[n + k]),
                    Err(m) => unplaced_error(m@, out@[n + k]),
                },
    {
        match &children[i] {
            Ok(dir_entry) => {
                out.push(create_entry(root_path_len, return_type, dir_entry));
            },
            Err(e) => {
                out.push(ScandirResult::Error((String::new(), e.clone())));
            },
        }
    }
    out
}

/// The results of a scan whose root is not a directory: the root entry alone.
pub fn root_entry_results(root_path_len: usize, return_type: &ReturnType, dir_entry: &DirEntryInfo) -> (r: ScandirResults)
    requires
        entry_path_defined(*dir_entry, root_path_len as int),
    ensures
        r.errors@.len() == 0,
        r.results@.len() == 1,
        entry_result(*dir_entry, root_path_len as int, *return_type, r.results@[0]),
{
    let mut results = ScandirResults::new();
    results.push_entry(create_entry(root_path_len, return_type, dir_entry));
    results
}

/// The errors `errs` as unplaced error pairs.
pub open spec fn unplaced_pairs(errs: Seq<Seq<char>>) -> Seq<(Seq<char>, Seq<char>)> {
    errs.map_values(|e: Seq<char>| (Seq::<char>::empty(), e))
}

/// The texts of error pairs.
pub open spec fn pair_texts(s: Seq<(String, String)>) -> Seq<(Seq<char>, Seq<char>)> {
    s.map_values(|p: (String, String)| (p.0@, p.1@))
}

/// The number of results in `s` that are not directories (the files held).
pub open spec fn files_held(s: Seq<ScandirResult>) -> nat
    decreases s.len(),
{
    if s.len() == 0 {
        0
    } else {
        files_held(s.drop_last()) + if s.last().spec_is_dir() {
            0nat
        } else {
            1nat
        }
    }
}

/// Collects the results of a scan while the walk runs, holding at most the
/// maximum number of files and `MAX_STORED_ERRORS` errors.
pub struct DirectCollector {
    pub results: ScandirResults,
    pub budget: FileBudget,
    pub root_path_len: usize,
    pub return_type: ReturnType,
}

impl DirectCollector {
    /// What every step keeps: the budget counts the files held, no more files
    /// than the maximum are held, and no more than `MAX_STORED_ERRORS` errors.
    pub open spec fn wf(&self) -> bool {
        &&& files_held(self.results.results@) == self.budget.file_cnt
        &&& (self.budget.max_file_cnt > 0 ==> self.budget.file_cnt <= self.budget.max_file_cnt)
        &&& self.results.errors@.len() <= MAX_STORED_ERRORS
    }

    /// Nothing collected yet.
    pub fn new(root_path_len: usize, return_type: ReturnType, max_file_cnt: usize) -> (r: DirectCollector)
        ensures
            r.wf(),
            r.results.results@.len() == 0,
            r.results.errors@.len() == 0,
            r.budget.file_cnt == 0,
            r.budget.max_file_cnt == max_file_cnt,
            r.root_path_len == root_path_len,
            r.return_type == return_type,
    {
        DirectCollector {
            results: ScandirResults::new(),
            budget: FileBudget::new(max_file_cnt),
            root_path_len,
            return_type,
        }
    }

    /// Takes one entry that the walk yielded. A file is refused once the
    /// maximum number of files is held; otherwise the entry's result is kept
    /// and a file counts against the budget. Says whether the walk goes on:
    /// not once the maximum number of files is held.
    pub fn on_entry(&mut self, dir_entry: &DirEntryInfo) -> (go_on: bool)
        requires
            old(self).wf(),
            entry_path_defined(*dir_entry, old(self).root_path_len as int),
            dir_entry.kind != EntryKind::Dir && old(self).budget.max_file_cnt == 0 ==> old(
                self,
            ).budget.can_count(),
        ensures
            final(self).wf(),
            final(self).root_path_len == old(self).root_path_len,
            final(self).return_type == old(self).return_type,
            final(self).results.errors@ == old(self).results.errors@,
            final(self).budget.max_file_cnt == old(self).budget.max_file_cnt,
            if dir_entry.kind != EntryKind::Dir && limit_reached(
                old(self).budget.max_file_cnt,
                old(self).budget.file_cnt as int,
            ) {
                &&& final(self).results.results@ == old(self).results.results@
                &&& final(self).budget.file_cnt == old(self).budget.file_cnt
                &&& !go_on
            } else {
                &&& final(self).results.results@.len() == old(self).results.results@.len() + 1
                &&& final(self).results.results@.drop_last() == old(self).results.results@
                &&& entry_result(
                    *dir_entry,
                    old(self).root_path_len as int,
                    old(self).return_type,
                    final(self).results.results@.last(),
                )
                &&& final(self).budget.file_cnt == if dir_entry.kind == EntryKind::Dir {
                    old(self).budget.file_cnt as int
                } else {
                    old(self).budget.file_cnt + 1
                }
                &&& go_on == (dir_entry.kind == EntryKind::Dir || !limit_reached(
                    final(self).budget.max_file_cnt,
                    final(self).budget.file_cnt as int,
                ))
            },
    {
        let is_dir = dir_entry.kind == EntryKind::Dir;
        if !is_dir && self.budget.max_file_cnt > 0 && self.budget.file_cnt >= self.budget.max_file_cnt {
            return false;
        }
        let r = create_entry(self.root_path_len, &self.return_type, dir_entry);
        assert(r.spec_is_dir() == is_dir);
        self.results.push_entry(r);
        assert(self.results.results@.drop_last() =~= old(self).results.results@);
        self.budget.count(is_dir)
    }

    /// Takes one error that the walk yielded: it is kept while fewer than
    /// `MAX_STORED_ERRORS` are stored.
    pub fn on_error(&mut self, message: String)
        ensures
            final(self).root_path_len == old(self).root_path_len,
            final(self).return_type == old(self).return_type,
            final(self).budget == old(self).budget,
            final(self).results.results@ == old(self).results.results@,
            pair_texts(final(self).results.errors@) == if old(self).results.errors@.len() < MAX_STORED_ERRORS {
                pair_texts(old(self).results.errors@).push((Seq::<char>::empty(), message@))
            } else {
                pair_texts(old(self).results.errors@)
            },
            old(self).wf() ==> final(self).wf(),
    {
        if self.results.errors.len() < MAX_STORED_ERRORS {
            self.results.errors.push((String::new(), message));
            assert(pair_texts(self.results.errors@) =~= pair_texts(old(self).results.errors@).push(
                (Seq::<char>::empty(), message@),
            ));
        }
    }

    /// The collected results, with as many of the errors met while filtering
    /// as fit below `MAX_STORED_ERRORS` added.
    pub fn finish(self, filter_errors: Vec<String>) -> (r: ScandirResults)
        requires
            self.wf(),
        ensures
            r.results@ == self.results.results@,
            pair_texts(r.errors@) == if self.results.errors@.len() < MAX_STORED_ERRORS {
                pair_texts(self.results.errors@) + unplaced_pairs(texts(filter_errors@)).take(
                    vstd::math::min(
                        filter_errors@.len() as int,
                        MAX_STORED_ERRORS - self.results.errors@.len(),
                    ),
                )
            } else {
                pair_texts(self.results.errors@)
            },
            r.errors@.len() <= MAX_STORED_ERRORS,
            files_held(r.results@) == self.budget.file_cnt,
            self.budget.max_file_cnt > 0 ==> files_held(r.results@) <= self.budget.max_file_cnt,
    {
        let mut results = self.results;
        if results.errors.len() < MAX_STORED_ERRORS {
            let room = MAX_STORED_ERRORS - results.errors.len();
            let ghost e0 = pair_texts(results.errors@);
            let ghost fe = unplaced_pairs(texts(filter_errors@));
            let ghost fes = filter_errors@;
            let mut taken: usize = 0;
            for e in it: filter_errors.into_iter()
                invariant
                    it.seq() == fes,
                    fe == unplaced_pairs(texts(fes)),
                    taken == vstd::math::min(it.index(), room as int),
                    pair_texts(results.errors@) == e0 + fe.take(taken as int),
                    results.results@ == self.results.results@,
            {
                if taken < room {
                    let ghost before = results.errors@;
                    assert(taken == it.index());
                    assert(fe[taken as int] == (Seq::<char>::empty(), e@));
                    results.errors.push((String::new(), e));
                    assert(pair_texts(results.errors@) =~= pair_texts(before).push((Seq::<char>::empty(), e@)));
                    assert(fe.take(taken + 1) =~= fe.take(taken as int).push(fe[taken as int]));
                    assert(pair_texts(results.errors@) =~= e0 + fe.take(taken + 1));
                    taken = taken + 1;
                }
            }
        }
        results
    }
}

} // verus!
