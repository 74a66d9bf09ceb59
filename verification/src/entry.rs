//! The entries a walk finds, and the results a scan makes of them.

use vstd::prelude::*;

use crate::options::ReturnType;
use crate::text::{byte_len, join_with_slash, root_prefix_len, str_suffix, suffix_from};
use crate::walk::{below_root, lemma_below_root};

verus! {

/// `std::time::SystemTime`, a point in time, carried opaquely.
#[verifier::external_type_specification]
#[verifier::external_body]
pub struct ExSystemTime(std::time::SystemTime);

/// The type of a directory entry.
#[derive(Clone, Copy, Debug, PartialEq, Eq, Structural)]
pub enum EntryKind {
    Dir,
    File,
    Symlink,
    Other,
}

/// Metadata read for every entry.
#[derive(Clone, Copy, Debug)]
pub struct EntryMeta {
    /// Size in bytes.
    pub size: u64,
    /// Birth time, where the file system keeps one.
    pub created: Option<std::time::SystemTime>,
    /// Change time of the inode.
    pub changed: Option<std::time::SystemTime>,
    /// Last modification.
    pub modified: Option<std::time::SystemTime>,
    /// Last access.
    pub accessed: Option<std::time::SystemTime>,
}

/// Extended (`stat`) metadata.
#[derive(Clone, Copy, Debug, PartialEq, Eq, Structural)]
pub struct EntryMetaExt {
    pub st_mode: u32,
    pub st_ino: u64,
    pub st_dev: u64,
    pub st_nlink: u64,
    pub st_blksize: u64,
    pub st_blocks: u64,
    pub st_uid: u32,
    pub st_gid: u32,
    pub st_rdev: u64,
}

/// One entry found by the walk. Names are given in their lossy UTF-8 form,
/// with a flag that says whether the original name was valid UTF-8.
#[derive(Clone, Debug)]
pub struct DirEntryInfo {
    pub file_name: String,
    pub file_name_is_utf8: bool,
    pub parent_path: String,
    pub parent_path_is_utf8: bool,
    pub kind: EntryKind,
    pub metadata: Option<EntryMeta>,
    pub metadata_ext: Option<EntryMetaExt>,
}


/// A scanned entry with the basic metadata.
#[derive(Debug)]
pub struct DirEntry {
    /// Path relative to the root of the scan.
    pub path: String,
    pub is_symlink: bool,
    pub is_dir: bool,
    pub is_file: bool,
    /// Change time of the inode.
    pub st_ctime: Option<std::time::SystemTime>,
    pub st_mtime: Option<std::time::SystemTime>,
    pub st_atime: Option<std::time::SystemTime>,
    /// Birth time, where the file system keeps one.
    pub st_btime: Option<std::time::SystemTime>,
    pub st_size: u64,
}

/// A scanned entry with the extended (`stat`) metadata.
#[derive(Debug)]
pub struct DirEntryExt {
    /// Path relative to the root of the scan.
    pub path: String,
    pub is_symlink: bool,
    pub is_dir: bool,
    pub is_file: bool,
    /// Change time of the inode.
    pub st_ctime: Option<std::time::SystemTime>,
    pub st_mtime: Option<std::time::SystemTime>,
    pub st_atime: Option<std::time::SystemTime>,
    /// Birth time, where the file system keeps one.
    pub st_btime: Option<std::time::SystemTime>,
    pub st_mode: u32,
    pub st_ino: u64,
    pub st_dev: u64,
    pub st_nlink: u64,
    pub st_size: u64,
    pub st_blksize: u64,
    pub st_blocks: u64,
    pub st_uid: u32,
    pub st_gid: u32,
    pub st_rdev: u64,
}

/// One result of a scan: an entry, or an error as (path, message).
#[derive(Debug)]
pub enum ScandirResult {
    DirEntry(DirEntry),
    DirEntryExt(DirEntryExt),
    Error((String, String)),
}

impl Clone for DirEntry {
    fn clone(&self) -> (r: Self)
        ensures
            r == *self,
    {
        DirEntry {
            path: self.path.clone(),
            is_symlink: self.is_symlink,
            is_dir: self.is_dir,
            is_file: self.is_file,
            st_ctime: self.st_ctime,
            st_mtime: self.st_mtime,
            st_atime: self.st_atime,
            st_btime: self.st_btime,
            st_size: self.st_size,
        }
    }
}

impl Clone for DirEntryExt {
    fn clone(&self) -> (r: Self)
        ensures
            r == *self,
    {
        DirEntryExt {
            path: self.path.clone(),
            is_symlink: self.is_symlink,
            is_dir: self.is_dir,
            is_file: self.is_file,
            st_ctime: self.st_ctime,
            st_mtime: self.st_mtime,
            st_atime: self.st_atime,
            st_btime: self.st_btime,
            st_mode: self.st_mode,
            st_ino: self.st_ino,
            st_dev: self.st_dev,
            st_nlink: self.st_nlink,
            st_size: self.st_size,
            st_blksize: self.st_blksize,
            st_blocks: self.st_blocks,
            st_uid: self.st_uid,
            st_gid: self.st_gid,
            st_rdev: self.st_rdev,
        }
    }
}

impl Clone for ScandirResult {
    fn clone(&self) -> (r: Self)
        ensures
            r == *self,
    {
        match self {
            ScandirResult::DirEntry(e) => ScandirResult::DirEntry(e.clone()),
            ScandirResult::DirEntryExt(e) => ScandirResult::DirEntryExt(e.clone()),
            ScandirResult::Error((p, m)) => ScandirResult::Error((p.clone(), m.clone())),
        }
    }
}

impl ScandirResult {
    pub open spec fn spec_is_dir(&self) -> bool {
        match self {
            ScandirResult::DirEntry(e) => e.is_dir,
            ScandirResult::DirEntryExt(e) => e.is_dir,
            ScandirResult::Error(_) => false,
        }
    }

    pub open spec fn spec_is_file(&self) -> bool {
        match self {
            ScandirResult::DirEntry(e) => e.is_file,
            ScandirResult::DirEntryExt(e) => e.is_file,
            ScandirResult::Error(_) => false,
        }
    }

    pub open spec fn spec_is_symlink(&self) -> bool {
        match self {
            ScandirResult::DirEntry(e) => e.is_symlink,
            ScandirResult::DirEntryExt(e) => e.is_symlink,
            ScandirResult::Error(_) => false,
        }
    }

    pub open spec fn spec_size(&self) -> u64 {
        match self {
            ScandirResult::DirEntry(e) => e.st_size,
            ScandirResult::DirEntryExt(e) => e.st_size,
            ScandirResult::Error(_) => 0,
        }
    }

    pub open spec fn spec_path(&self) -> Seq<char> {
        match self {
            ScandirResult::DirEntry(e) => e.path@,
            ScandirResult::DirEntryExt(e) => e.path@,
            ScandirResult::Error((p, _)) => p@,
        }
    }

    /// The path of the entry, or of the error.
    pub fn path(&self) -> (r: &str)
        ensures
            r@ == self.spec_path(),
    {
        match self {
            ScandirResult::DirEntry(e) => e.path.as_str(),
            ScandirResult::DirEntryExt(e) => e.path.as_str(),
            ScandirResult::Error((p, _)) => p.as_str(),
        }
    }

    /// The error, when this result is one.
    pub fn error(&self) -> (r: Option<&(String, String)>)
        ensures
            match self {
                ScandirResult::Error(e) => r == Some(e),
                _ => r is None,
            },
    {
        match self {
            ScandirResult::Error(e) => Some(e),
            _ => None,
        }
    }

    #[verifier::when_used_as_spec(spec_is_dir)]
    pub fn is_dir(&self) -> (r: bool)
        ensures
            r == self.spec_is_dir(),
    {
        match self {
            ScandirResult::DirEntry(e) => e.is_dir,
            ScandirResult::DirEntryExt(e) => e.is_dir,
            ScandirResult::Error(_) => false,
        }
    }

    #[verifier::when_used_as_spec(spec_is_file)]
    pub fn is_file(&self) -> (r: bool)
        ensures
            r == self.spec_is_file(),
    {
        match self {
            ScandirResult::DirEntry(e) => e.is_file,
            ScandirResult::DirEntryExt(e) => e.is_file,
            ScandirResult::Error(_) => false,
        }
    }

    #[verifier::when_used_as_spec(spec_is_symlink)]
    pub fn is_symlink(&self) -> (r: bool)
        ensures
            r == self.spec_is_symlink(),
    {
        match self {
            ScandirResult::DirEntry(e) => e.is_symlink,
            ScandirResult::DirEntryExt(e) => e.is_symlink,
            ScandirResult::Error(_) => false,
        }
    }

    /// The size in bytes (0 for an error).
    #[verifier::when_used_as_spec(spec_size)]
    pub fn size(&self) -> (r: u64)
        ensures
            r == self.spec_size(),
    {
        match self {
            ScandirResult::DirEntry(e) => e.st_size,
            ScandirResult::DirEntryExt(e) => e.st_size,
            ScandirResult::Error(_) => 0,
        }
    }

    /// The extended entry, when this result is one.
    pub fn ext(&self) -> (r: Option<&DirEntryExt>)
        ensures
            match self {
                ScandirResult::DirEntryExt(e) => r == Some(e),
                _ => r is None,
            },
    {
        match self {
            ScandirResult::DirEntryExt(e) => Some(e),
            _ => None,
        }
    }
}

/// Whether `create_entry` can cut the root prefix from the entry's parent
/// path: the cut must fall on a character boundary when the parent path is
/// longer than the prefix (and the length of the parent path fits a `usize`,
/// as that of every string in memory does).
pub open spec fn entry_path_defined(info: DirEntryInfo, root_path_len: int) -> bool {
    &&& byte_len(info.parent_path@) <= usize::MAX
    &&& byte_len(info.parent_path@) > root_path_len ==> str_suffix(info.parent_path@, root_path_len) is Some
}

/// The path of an entry relative to the root: the parent path without the
/// root prefix, `/`, and the name; just the name for entries directly in the
/// root (or the root itself).
pub open spec fn entry_path(info: DirEntryInfo, root_path_len: int) -> Seq<char> {
    if byte_len(info.parent_path@) > root_path_len {
        str_suffix(info.parent_path@, root_path_len).unwrap() + seq!['/'] + info.file_name@
    } else {
        info.file_name@
    }
}

/// An entry found in a directory `rel` below the root gets the path
/// `rel/name` (and `create_entry` can cut the root prefix from its parent
/// path); an entry found in the root itself gets its bare name.
pub proof fn law_entry_path_relative(info: DirEntryInfo, root: Seq<char>, rel: Seq<char>)
    ensures
        info.parent_path@ == below_root(root, rel) && byte_len(info.parent_path@) <= usize::MAX
            ==> entry_path_defined(info, root_prefix_len(root) as int),
        info.parent_path@ == below_root(root, rel) && rel.len() > 0 ==> entry_path(
            info,
            root_prefix_len(root) as int,
        ) == rel + seq!['/'] + info.file_name@,
        info.parent_path@ == root ==> entry_path(info, root_prefix_len(root) as int) == info.file_name@,
{
    lemma_below_root(root, rel);
    assert(rel.len() > 0 ==> byte_len(rel) > 0);
}

/// The extended metadata an entry reports: what was read, else the defaults
/// (all zero but a block size of 4096). Extended metadata counts only when the
/// basic metadata was read too.
pub open spec fn ext_fields(info: DirEntryInfo) -> EntryMetaExt {
    match (info.metadata, info.metadata_ext) {
        (Some(_), Some(x)) => x,
        _ => EntryMetaExt {
            st_mode: 0,
            st_ino: 0,
            st_dev: 0,
            st_nlink: 0,
            st_blksize: 4096,
            st_blocks: 0,
            st_uid: 0,
            st_gid: 0,
            st_rdev: 0,
        },
    }
}

/// The basic metadata an entry reports: what was read, else no times and size 0.
pub open spec fn meta_fields(info: DirEntryInfo) -> EntryMeta {
    match info.metadata {
        Some(m) => m,
        None => EntryMeta { size: 0, created: None, changed: None, modified: None, accessed: None },
    }
}

/// The result `create_entry` makes of `info`.
pub open spec fn entry_result(info: DirEntryInfo, root_path_len: int, return_type: ReturnType, r: ScandirResult) -> bool {
    let m = meta_fields(info);
    let x = ext_fields(info);
    match return_type {
        ReturnType::Base => r matches ScandirResult::DirEntry(e) && {
            &&& e.path@ == entry_path(info, root_path_len)
            &&& e.is_symlink == (info.kind == EntryKind::Symlink)
            &&& e.is_dir == (info.kind == EntryKind::Dir)
            &&& e.is_file == (info.kind == EntryKind::File)
            &&& e.st_ctime == m.changed
            &&& e.st_mtime == m.modified
            &&& e.st_atime == m.accessed
            &&& e.st_btime == m.created
            &&& e.st_size == m.size
        },
        ReturnType::Ext => r matches ScandirResult::DirEntryExt(e) && {
            &&& e.path@ == entry_path(info, root_path_len)
            &&& e.is_symlink == (info.kind == EntryKind::Symlink)
            &&& e.is_dir == (info.kind == EntryKind::Dir)
            &&& e.is_file == (info.kind == EntryKind::File)
            &&& e.st_ctime == m.changed
            &&& e.st_mtime == m.modified
            &&& e.st_atime == m.accessed
            &&& e.st_btime == m.created
            &&& e.st_size == m.size
            &&& e.st_mode == x.st_mode
            &&& e.st_ino == x.st_ino
            &&& e.st_dev == x.st_dev
            &&& e.st_nlink == x.st_nlink
            &&& e.st_blksize == x.st_blksize
            &&& e.st_blocks == x.st_blocks
            &&& e.st_uid == x.st_uid
            &&& e.st_gid == x.st_gid
            &&& e.st_rdev == x.st_rdev
        },
    }
}

/// What a scan result says of its entry: the variant of the return type, the
/// type flags of the entry's kind, and its times and size as read (the
/// change time as `st_ctime`, modification as `st_mtime`, access as
/// `st_atime`, birth as `st_btime`), or no times and size 0 when nothing was
/// read; an extended result also carries the `stat` fields as read.
pub proof fn law_entry_result_fields(info: DirEntryInfo, root_path_len: int, return_type: ReturnType, r: ScandirResult)
    requires
        entry_result(info, root_path_len, return_type, r),
    ensures
        match r {
            ScandirResult::DirEntry(e) => {
                &&& return_type == ReturnType::Base
                &&& e.is_dir == (info.kind == EntryKind::Dir) && e.is_file == (info.kind == EntryKind::File)
                    && e.is_symlink == (info.kind == EntryKind::Symlink)
                &&& info.metadata matches Some(m) ==> e.st_ctime == m.changed && e.st_mtime == m.modified
                    && e.st_atime == m.accessed && e.st_btime == m.created && e.st_size == m.size
                &&& info.metadata is None ==> e.st_ctime is None && e.st_mtime is None && e.st_atime is None
                    && e.st_btime is None && e.st_size == 0
            },
            ScandirResult::DirEntryExt(e) => {
                &&& return_type == ReturnType::Ext
                &&& e.is_dir == (info.kind == EntryKind::Dir) && e.is_file == (info.kind == EntryKind::File)
                    && e.is_symlink == (info.kind == EntryKind::Symlink)
                &&& info.metadata matches Some(m) ==> e.st_ctime == m.changed && e.st_mtime == m.modified
                    && e.st_atime == m.accessed && e.st_btime == m.created && e.st_size == m.size
                &&& info.metadata is None ==> e.st_ctime is None && e.st_mtime is None && e.st_atime is None
                    && e.st_btime is None && e.st_size == 0
                &&& info.metadata is Some ==> (info.metadata_ext matches Some(x) ==> e.st_mode == x.st_mode
                    && e.st_ino == x.st_ino && e.st_dev == x.st_dev && e.st_nlink == x.st_nlink
                    && e.st_blksize == x.st_blksize && e.st_blocks == x.st_blocks && e.st_uid == x.st_uid
                    && e.st_gid == x.st_gid && e.st_rdev == x.st_rdev)
            },
            ScandirResult::Error(_) => false,
        },
{
}

/// The path a scan result gives its entry: `rel/name` for an entry found in
/// the directory `rel` below the root, the bare name for one found in the
/// root itself.
pub proof fn law_entry_result_path(
    info: DirEntryInfo,
    root: Seq<char>,
    rel: Seq<char>,
    return_type: ReturnType,
    r: ScandirResult,
)
    requires
        entry_result(info, root_prefix_len(root) as int, return_type, r),
    ensures
        ({
            let path = match r {
                ScandirResult::DirEntry(e) => e.path@,
                ScandirResult::DirEntryExt(e) => e.path@,
                ScandirResult::Error(_) => Seq::empty(),
            };
            &&& info.parent_path@ == below_root(root, rel) && rel.len() > 0 ==> path == rel + seq!['/']
                + info.file_name@
            &&& info.parent_path@ == root ==> path == info.file_name@
        }),
{
    law_entry_path_relative(info, root, rel);
}

fn relative_path(root_path_len: usize, info: &DirEntryInfo) -> (r: String)
    requires
        entry_path_defined(*info, root_path_len as int),
    ensures
        r@ == entry_path(*info, root_path_len as int),
{
    let parent = info.parent_path.as_str();
    if parent.len() > root_path_len {
        match suffix_from(parent, root_path_len) {
            Some(relative) => join_with_slash(relative, info.file_name.as_str()),
            None => info.file_name.as_str().to_owned(),
        }
    } else {
        info.file_name.as_str().to_owned()
    }
}

/// Turns one entry found by the walk into a scan result of the requested
/// return type, with its path relative to the root.
pub fn create_entry(root_path_len: usize, return_type: &ReturnType, dir_entry: &DirEntryInfo) -> (r: ScandirResult)
    requires
        entry_path_defined(*dir_entry, root_path_len as int),
    ensures
        entry_result(*dir_entry, root_path_len as int, *return_type, r),
{
    let mut st_ctime: Option<std::time::SystemTime> = None;
    let mut st_mtime: Option<std::time::SystemTime> = None;
    let mut st_atime: Option<std::time::SystemTime> = None;
    let mut st_btime: Option<std::time::SystemTime> = None;
    let mut st_mode: u32 = 0;
    let mut st_ino: u64 = 0;
    let mut st_dev: u64 = 0;
    let mut st_nlink: u64 = 0;
    let mut st_size: u64 = 0;
    let mut st_blksize: u64 = 4096;
    let mut st_blocks: u64 = 0;
    let mut st_uid: u32 = 0;
    let mut st_gid: u32 = 0;
    let mut st_rdev: u64 = 0;
    if let Some(metadata) = &dir_entry.metadata {
        st_ctime = metadata.changed;
        st_btime = metadata.created;
        st_mtime = metadata.modified;
        st_atime = metadata.accessed;
        st_size = metadata.size;
        if let Some(ext) = &dir_entry.metadata_ext {
            st_mode = ext.st_mode;
            st_ino = ext.st_ino;
            st_dev = ext.st_dev;
            st_nlink = ext.st_nlink;
            st_blksize = ext.st_blksize;
            st_blocks = ext.st_blocks;
            st_uid = ext.st_uid;
            st_gid = ext.st_gid;
            st_rdev = ext.st_rdev;
        }
    }
    let is_symlink = dir_entry.kind == EntryKind::Symlink;
    let is_dir = dir_entry.kind == EntryKind::Dir;
    let is_file = dir_entry.kind == EntryKind::File;
    let path = relative_path(root_path_len, dir_entry);
    match return_type {
        ReturnType::Base => ScandirResult::DirEntry(
            DirEntry { path, is_symlink, is_dir, is_file, st_ctime, st_mtime, st_atime, st_btime, st_size },
        ),
        ReturnType::Ext => ScandirResult::DirEntryExt(
            DirEntryExt {
                path,
                is_symlink,
                is_dir,
                is_file,
                st_ctime,
                st_mtime,
                st_atime,
                st_btime,
                st_mode,
                st_ino,
                st_dev,
                st_nlink,
                st_size,
                st_blksize,
                st_blocks,
                st_uid,
                st_gid,
                st_rdev,
            },
        ),
    }
}

} // verus!
