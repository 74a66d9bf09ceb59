//! Statistics over the results of a scan.

use vstd::prelude::*;

use crate::entry::ScandirResult;
use crate::entry::EntryKind;
use crate::results::{select, ScandirResults};

verus! {

/// Counts and sizes of the entries of a scan.
#[derive(Debug)]
pub struct Statistics {
    pub dirs: i32,
    pub files: i32,
    pub slinks: i32,
    pub hlinks: i32,
    pub devices: i32,
    pub pipes: i32,
    pub size: u64,
    pub usage: u64,
    pub errors: Vec<String>,
}

impl Statistics {
    /// All counts zero, no errors.
    pub fn new() -> (r: Statistics)
        ensures
            r.dirs == 0 && r.files == 0 && r.slinks == 0 && r.hlinks == 0,
            r.devices == 0 && r.pipes == 0 && r.size == 0 && r.usage == 0,
            r.errors@.len() == 0,
    {
        Statistics {
            dirs: 0,
            files: 0,
            slinks: 0,
            hlinks: 0,
            devices: 0,
            pipes: 0,
            size: 0,
            usage: 0,
            errors: Vec::new(),
        }
    }
}

/// Totals over a sequence of entries, as mathematical integers.
pub struct Totals {
    pub dirs: int,
    pub files: int,
    pub slinks: int,
    pub hlinks: int,
    pub devices: int,
    pub pipes: int,
    pub size: int,
    pub usage: int,
}

/// The size and usage that a directory, link or special entry counts for.
pub open spec fn block_size() -> int {
    4096
}

/// A file that has more than one hard link and extended metadata.
pub open spec fn is_linked_file(r: ScandirResult) -> bool {
    r.spec_is_file() && (r matches ScandirResult::DirEntryExt(e) && e.st_nlink > 1)
}

/// The inode of an entry with extended metadata.
pub open spec fn inode(r: ScandirResult) -> u64 {
    match r {
        ScandirResult::DirEntryExt(e) => e.st_ino,
        _ => 0,
    }
}

/// Whether `r` is a further hard link of an inode that an earlier entry of
/// `before` already counted.
pub open spec fn is_repeat_link(before: Seq<ScandirResult>, r: ScandirResult) -> bool {
    is_linked_file(r) && exists|j: int| 0 <= j < before.len() && is_linked_file(#[trigger] before[j])
        && inode(before[j]) == inode(r)
}

/// The disk usage of a file's blocks (512 bytes each), as a `u64` shift
/// computes it.
pub open spec fn block_usage(blocks: u64) -> int {
    (blocks * 512) % 0x1_0000_0000_0000_0000
}

/// What one entry `r`, following the entries `before`, adds to the totals.
pub open spec fn add_entry(t: Totals, before: Seq<ScandirResult>, r: ScandirResult) -> Totals {
    if r.spec_is_file() {
        let usage = match r {
            ScandirResult::DirEntryExt(e) => block_usage(e.st_blocks),
            _ => 0,
        };
        if is_repeat_link(before, r) {
            Totals { hlinks: t.hlinks + 1, size: t.size + r.spec_size(), usage: t.usage + usage, ..t }
        } else {
            Totals { files: t.files + 1, size: t.size + r.spec_size(), usage: t.usage + usage, ..t }
        }
    } else if r.spec_is_dir() {
        Totals { dirs: t.dirs + 1, size: t.size + block_size(), usage: t.usage + block_size(), ..t }
    } else if r.spec_is_symlink() {
        Totals { slinks: t.slinks + 1, size: t.size + block_size(), usage: t.usage + block_size(), ..t }
    } else {
        let (devices, pipes) = match r {
            ScandirResult::DirEntryExt(e) => if e.st_rdev > 0 {
                (t.devices + 1, t.pipes)
            } else if e.st_mode & 4096 != 0 {
                (t.devices, t.pipes + 1)
            } else {
                (t.devices, t.pipes)
            },
            _ => (t.devices, t.pipes),
        };
        Totals { devices, pipes, size: t.size + block_size(), usage: t.usage + block_size(), ..t }
    }
}

/// The totals of a sequence of entries.
pub open spec fn totals(s: Seq<ScandirResult>) -> Totals
    decreases s.len(),
{
    if s.len() == 0 {
        Totals { dirs: 0, files: 0, slinks: 0, hlinks: 0, devices: 0, pipes: 0, size: 0, usage: 0 }
    } else {
        add_entry(totals(s.drop_last()), s.drop_last(), s.last())
    }
}

/// Counts never exceed the number of entries, and size and usage only grow.
proof fn lemma_totals_bounds(s: Seq<ScandirResult>, k: int)
    requires
        0 <= k <= s.len(),
    ensures
        0 <= totals(s).dirs <= s.len(),
        0 <= totals(s).files <= s.len(),
        0 <= totals(s).slinks <= s.len(),
        0 <= totals(s).hlinks <= s.len(),
        0 <= totals(s).devices <= s.len(),
        0 <= totals(s).pipes <= s.len(),
        0 <= totals(s.take(k)).size <= totals(s).size,
        0 <= totals(s.take(k)).usage <= totals(s).usage,
    decreases s.len(),
{
    if s.len() > 0 {
        if k == s.len() {
            assert(s.take(k) =~= s);
            lemma_totals_bounds(s.drop_last(), k - 1);
        } else {
            assert(s.drop_last().take(k) =~= s.take(k));
            lemma_totals_bounds(s.drop_last(), k);
        }
    } else {
        assert(s.take(k) =~= s);
    }
}

/// An entry that says it is at most one of directory, file and symbolic link
/// (as every entry `create_entry` makes does).
pub open spec fn single_kind(r: ScandirResult) -> bool {
    &&& !(r.spec_is_dir() && r.spec_is_file())
    &&& !(r.spec_is_dir() && r.spec_is_symlink())
    &&& !(r.spec_is_file() && r.spec_is_symlink())
}

/// For entries of a single kind, the statistics agree with the categories:
/// as many directories and links as listed, and the files listed are counted
/// either as files or as further hard links.
pub proof fn law_statistics_match_categories(s: Seq<ScandirResult>)
    requires
        forall|i: int| 0 <= i < s.len() ==> single_kind(#[trigger] s[i]),
    ensures
        totals(s).dirs == select(s, EntryKind::Dir).len(),
        totals(s).slinks == select(s, EntryKind::Symlink).len(),
        totals(s).files + totals(s).hlinks == select(s, EntryKind::File).len(),
        totals(s).devices + totals(s).pipes <= select(s, EntryKind::Other).len(),
    decreases s.len(),
{
    if s.len() > 0 {
        assert(single_kind(s[s.len() - 1]));
        assert forall|i: int| 0 <= i < s.drop_last().len() implies single_kind(#[trigger] s.drop_last()[i]) by {
            assert(s.drop_last()[i] == s[i]);
        }
        law_statistics_match_categories(s.drop_last());
    }
}

/// The number of file entries of `s`.
pub open spec fn count_files(s: Seq<ScandirResult>) -> nat
    decreases s.len(),
{
    if s.len() == 0 {
        0
    } else {
        count_files(s.drop_last()) + if s.last().spec_is_file() {
            1nat
        } else {
            0nat
        }
    }
}

/// The number of entries of `s` that are directories and not files.
pub open spec fn count_dirs(s: Seq<ScandirResult>) -> nat
    decreases s.len(),
{
    if s.len() == 0 {
        0
    } else {
        count_dirs(s.drop_last()) + if !s.last().spec_is_file() && s.last().spec_is_dir() {
            1nat
        } else {
            0nat
        }
    }
}

/// The number of entries of `s` that are symbolic links and neither files
/// nor directories.
pub open spec fn count_symlinks(s: Seq<ScandirResult>) -> nat
    decreases s.len(),
{
    if s.len() == 0 {
        0
    } else {
        count_symlinks(s.drop_last()) + if !s.last().spec_is_file() && !s.last().spec_is_dir()
            && s.last().spec_is_symlink() {
            1nat
        } else {
            0nat
        }
    }
}

/// The sum of the sizes of the file entries of `s`.
pub open spec fn file_sizes(s: Seq<ScandirResult>) -> int
    decreases s.len(),
{
    if s.len() == 0 {
        0
    } else {
        file_sizes(s.drop_last()) + if s.last().spec_is_file() {
            s.last().spec_size() as int
        } else {
            0
        }
    }
}

/// The disk usage of the blocks of the file entries of `s` (nothing for a
/// file without extended metadata).
pub open spec fn file_usage(s: Seq<ScandirResult>) -> int
    decreases s.len(),
{
    if s.len() == 0 {
        0
    } else {
        file_usage(s.drop_last()) + match s.last() {
            ScandirResult::DirEntryExt(e) => if s.last().spec_is_file() {
                block_usage(e.st_blocks)
            } else {
                0
            },
            _ => 0,
        }
    }
}

/// The number of files of `s` with more than one hard link.
pub open spec fn count_linked(s: Seq<ScandirResult>) -> nat
    decreases s.len(),
{
    if s.len() == 0 {
        0
    } else {
        count_linked(s.drop_last()) + if is_linked_file(s.last()) {
            1nat
        } else {
            0nat
        }
    }
}

/// The distinct inodes of the files of `s` with more than one hard link.
pub open spec fn linked_inodes(s: Seq<ScandirResult>) -> Set<u64>
    decreases s.len(),
{
    if s.len() == 0 {
        Set::empty()
    } else if is_linked_file(s.last()) {
        linked_inodes(s.drop_last()).insert(inode(s.last()))
    } else {
        linked_inodes(s.drop_last())
    }
}

/// The statistics counted by the flags of the entries: files and further
/// hard links together are the file entries; a directory counts unless it
/// is a file, a link unless it is a file or a directory; size is the files'
/// sizes and usage their blocks, plus 4096 for every other entry.
pub proof fn law_statistics_by_flags(s: Seq<ScandirResult>)
    ensures
        totals(s).files + totals(s).hlinks == count_files(s),
        totals(s).dirs == count_dirs(s),
        totals(s).slinks == count_symlinks(s),
        count_files(s) <= s.len(),
        totals(s).size == file_sizes(s) + block_size() * (s.len() - count_files(s)),
        totals(s).usage == file_usage(s) + block_size() * (s.len() - count_files(s)),
    decreases s.len(),
{
    if s.len() > 0 {
        law_statistics_by_flags(s.drop_last());
        assert(block_size() * (s.len() - count_files(s)) == block_size() * (s.drop_last().len() - count_files(
            s.drop_last(),
        )) + if s.last().spec_is_file() {
            0
        } else {
            block_size()
        }) by (nonlinear_arith)
            requires
                s.len() == s.drop_last().len() + 1,
                count_files(s) == count_files(s.drop_last()) + if s.last().spec_is_file() {
                    1nat
                } else {
                    0nat
                },
        ;
    }
}

/// Devices and pipes are counted among the entries that are neither files,
/// directories nor links, from their extended metadata: one with a device
/// number adds a device; one without a device number whose mode has the FIFO
/// bit (4096) adds a pipe; any other entry adds to neither.
pub proof fn law_devices_and_pipes(s: Seq<ScandirResult>, r: ScandirResult)
    ensures
        ({
            let other = !r.spec_is_file() && !r.spec_is_dir() && !r.spec_is_symlink();
            let device = other && (r matches ScandirResult::DirEntryExt(e) && e.st_rdev > 0);
            let pipe = other && (r matches ScandirResult::DirEntryExt(e) && e.st_rdev == 0 && e.st_mode
                & 4096 != 0);
            &&& totals(s.push(r)).devices == totals(s).devices + if device {
                1int
            } else {
                0int
            }
            &&& totals(s.push(r)).pipes == totals(s).pipes + if pipe {
                1int
            } else {
                0int
            }
        }),
{
    assert(s.push(r).drop_last() =~= s);
}

/// Which inodes `linked_inodes` holds: those of the linked files of `s`.
proof fn lemma_linked_inodes(s: Seq<ScandirResult>)
    ensures
        linked_inodes(s).finite(),
        forall|ino: u64|
            linked_inodes(s).contains(ino) <==> exists|j: int|
                0 <= j < s.len() && is_linked_file(#[trigger] s[j]) && inode(s[j]) == ino,
    decreases s.len(),
{
    if s.len() > 0 {
        let d = s.drop_last();
        lemma_linked_inodes(d);
        assert forall|ino: u64|
            linked_inodes(s).contains(ino) <==> exists|j: int|
                0 <= j < s.len() && is_linked_file(#[trigger] s[j]) && inode(s[j]) == ino by {
            if linked_inodes(d).contains(ino) {
                let j = choose|j: int| 0 <= j < d.len() && is_linked_file(#[trigger] d[j]) && inode(d[j]) == ino;
                assert(s[j] == d[j]);
            }
            if exists|j: int| 0 <= j < s.len() && is_linked_file(#[trigger] s[j]) && inode(s[j]) == ino {
                let j = choose|j: int| 0 <= j < s.len() && is_linked_file(#[trigger] s[j]) && inode(s[j]) == ino;
                if j < d.len() {
                    assert(d[j] == s[j]);
                } else {
                    assert(s[j] == s.last());
                }
            }
        }
    }
}

/// Each hard-linked inode is counted once as a file: the further hard links
/// are the linked files less their distinct inodes.
pub proof fn law_hard_links_counted_once(s: Seq<ScandirResult>)
    ensures
        linked_inodes(s).finite(),
        linked_inodes(s).len() <= count_linked(s),
        totals(s).hlinks == count_linked(s) - linked_inodes(s).len(),
    decreases s.len(),
{
    lemma_linked_inodes(s);
    if s.len() > 0 {
        let d = s.drop_last();
        let r = s.last();
        law_hard_links_counted_once(d);
        lemma_linked_inodes(d);
        if is_linked_file(r) {
            if linked_inodes(d).contains(inode(r)) {
                let j = choose|j: int| 0 <= j < d.len() && is_linked_file(#[trigger] d[j]) && inode(d[j]) == inode(r);
                assert(is_repeat_link(d, r));
                assert(linked_inodes(s) =~= linked_inodes(d));
            } else {
                assert(!is_repeat_link(d, r));
            }
        } else {
            assert(!is_repeat_link(d, r));
        }
    }
}

/// The inodes of the linked files among the first `n` entries.
pub open spec fn seen_inodes(s: Seq<ScandirResult>, n: int) -> Set<u64> {
    Set::new(|ino: u64| exists|j: int| 0 <= j < n && is_linked_file(#[trigger] s[j]) && inode(s[j]) == ino)
}

/// Whether the statistics hold the totals `t` (and no errors).
pub open spec fn statistics_of(st: Statistics, t: Totals) -> bool {
    &&& st.dirs == t.dirs
    &&& st.files == t.files
    &&& st.slinks == t.slinks
    &&& st.hlinks == t.hlinks
    &&& st.devices == t.devices
    &&& st.pipes == t.pipes
    &&& st.size == t.size
    &&& st.usage == t.usage
    &&& st.errors@.len() == 0
}

/// The totals must fit the fields of `Statistics`.
pub open spec fn totals_fit(s: Seq<ScandirResult>) -> bool {
    &&& s.len() <= i32::MAX
    &&& totals(s).size <= u64::MAX
    &&& totals(s).usage <= u64::MAX
}

impl ScandirResults {
    /// Whether the statistics of the entries fit their fields: no more
    /// entries than an `i32` counts, and size and usage within a `u64`.
    pub fn statistics_fit(&self) -> (r: bool)
        ensures
            r == totals_fit(self.results@),
    {
        let ghost s = self.results@;
        if self.results.len() > 2147483647 {
            return false;
        }
        let mut size: u64 = 0;
        let mut usage: u64 = 0;
        for i in 0..self.results.len()
            invariant
                s == self.results@,
                s.len() <= i32::MAX,
                size == totals(s.take(i as int)).size,
                usage == totals(s.take(i as int)).usage,
        {
            let entry = &self.results[i];
            let ghost before = s.take(i as int);
            assert(s.take(i + 1).drop_last() =~= before);
            assert(s.take(i + 1).last() == *entry);
            proof {
                lemma_totals_bounds(s, i + 1);
            }
            let (add_size, add_usage): (u64, u64) = if entry.is_file() {
                match entry.ext() {
                    Some(ext) => {
                        let blocks = ext.st_blocks;
                        let u = blocks << 9;
                        assert(u == (blocks * 512) % 0x1_0000_0000_0000_0000) by (bit_vector)
                            requires
                                u == blocks << 9,
                        ;
                        (entry.size(), u)
                    },
                    None => (entry.size(), 0),
                }
            } else {
                (4096, 4096)
            };
            match size.checked_add(add_size) {
                Some(n) => size = n,
                None => return false,
            }
            match usage.checked_add(add_usage) {
                Some(n) => usage = n,
                None => return false,
            }
        }
        assert(s.take(s.len() as int) =~= s);
        true
    }

    /// Counts the entries by type. A file with more than one hard link is
    /// counted once; each further entry for the same inode counts as a hard
    /// link instead of a file. Directories, links and other entries count 4096
    /// bytes of size and usage; files their size, and their blocks as usage.
    pub fn statistics(&self) -> (r: Statistics)
        requires
            totals_fit(self.results@),
        ensures
            statistics_of(r, totals(self.results@)),
    {
        broadcast use vstd::std_specs::hash::group_hash_axioms;

        let ghost s = self.results@;
        let mut statistics = Statistics::new();
        let mut file_indexes: std::collections::HashSet<u64> = std::collections::HashSet::new();
        proof {
            lemma_totals_bounds(s, 0);
        }
        for i in 0..self.results.len()
            invariant
                s == self.results@,
                totals_fit(s),
                statistics_of(statistics, totals(s.take(i as int))),
                file_indexes@ == seen_inodes(s, i as int),
        {
            let entry = &self.results[i];
            let ghost before = s.take(i as int);
            assert(s.take(i + 1).drop_last() =~= before);
            assert(s.take(i + 1).last() == *entry);
            proof {
                lemma_totals_bounds(before, 0);
                lemma_totals_bounds(s.take(i + 1), i as int);
                lemma_totals_bounds(s, i + 1);
                assert(s.take(i + 1).take(i as int) =~= before);
            }
            if entry.is_file() {
                statistics.files = statistics.files + 1;
                statistics.size = statistics.size + entry.size();
                if let Some(ext) = entry.ext() {
                    let blocks = ext.st_blocks;
                    let usage = blocks << 9;
                    assert(usage == (blocks * 512) % 0x1_0000_0000_0000_0000) by (bit_vector)
                        requires
                            usage == blocks << 9,
                    ;
                    statistics.usage = statistics.usage + usage;
                    if ext.st_nlink > 1 {
                        if file_indexes.contains(&ext.st_ino) {
                            statistics.hlinks = statistics.hlinks + 1;
                            statistics.files = statistics.files - 1;
                            proof {
                                assert(seen_inodes(s, i as int).contains(ext.st_ino));
                                let j = choose|j: int|
                                    0 <= j < i && is_linked_file(#[trigger] s[j]) && inode(s[j])
                                        == ext.st_ino;
                                assert(before[j] == s[j]);
                            }
                            assert(is_repeat_link(before, *entry));
                        } else {
                            file_indexes.insert(ext.st_ino);
                            assert(!is_repeat_link(before, *entry));
                        }
                    }
                }
            } else if entry.is_dir() {
                statistics.dirs = statistics.dirs + 1;
                statistics.size = statistics.size + 4096;
                statistics.usage = statistics.usage + 4096;
            } else if entry.is_symlink() {
                statistics.slinks = statistics.slinks + 1;
                statistics.size = statistics.size + 4096;
                statistics.usage = statistics.usage + 4096;
            } else {
                if let Some(ext) = entry.ext() {
                    if ext.st_rdev > 0 {
                        statistics.devices = statistics.devices + 1;
                    } else if (ext.st_mode & 4096) != 0 {
                        statistics.pipes = statistics.pipes + 1;
                    }
                }
                statistics.size = statistics.size + 4096;
                statistics.usage = statistics.usage + 4096;
            }
            assert(file_indexes@ =~= seen_inodes(s, i + 1));
        }
        assert(s.take(s.len() as int) =~= s);
        statistics
    }
}

} // verus!
