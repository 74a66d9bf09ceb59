//! Scan options and their builders.

use vstd::prelude::*;

verus! {

/// Which kind of entries a scan returns: plain or with extended metadata.
#[derive(Clone, Copy, Debug, PartialEq, Eq, Structural)]
pub enum ReturnType {
    Base,
    Ext,
}

/// The options of a scan.
#[derive(Clone, Debug)]
pub struct Options {
    pub root_path: String,
    pub sorted: bool,
    pub skip_hidden: bool,
    pub max_depth: usize,
    pub max_file_cnt: usize,
    pub dir_include: Option<Vec<String>>,
    pub dir_exclude: Option<Vec<String>>,
    pub file_include: Option<Vec<String>>,
    pub file_exclude: Option<Vec<String>>,
    pub case_sensitive: bool,
    pub follow_links: bool,
    pub return_type: ReturnType,
}

/// A limit given by the user, where 0 stands for "no limit".
pub open spec fn limit_value(n: usize) -> usize {
    if n == 0 {
        usize::MAX
    } else {
        n
    }
}

/// The return type selected by the `extended` flag.
pub open spec fn return_type_of(extended: bool) -> ReturnType {
    if extended {
        ReturnType::Ext
    } else {
        ReturnType::Base
    }
}

/// The options a new scan starts with: everything unlimited, no filters, not
/// sorted, case insensitive, links not followed, plain entries.
pub open spec fn default_options(root_path: Seq<char>, skip_hidden: bool, o: Options) -> bool {
    &&& o.root_path@ == root_path
    &&& !o.sorted
    &&& o.skip_hidden == skip_hidden
    &&& o.max_depth == usize::MAX
    &&& o.max_file_cnt == usize::MAX
    &&& o.dir_include is None
    &&& o.dir_exclude is None
    &&& o.file_include is None
    &&& o.file_exclude is None
    &&& !o.case_sensitive
    &&& !o.follow_links
    &&& o.return_type == ReturnType::Base
}

impl Options {
    /// The options of a new scan of `root_path`.
    pub fn new(root_path: String, skip_hidden: bool) -> (r: Options)
        ensures
            default_options(root_path@, skip_hidden, r),
    {
        Options {
            root_path,
            sorted: false,
            skip_hidden,
            max_depth: usize::MAX,
            max_file_cnt: usize::MAX,
            dir_include: None,
            dir_exclude: None,
            file_include: None,
            file_exclude: None,
            case_sensitive: false,
            follow_links: false,
            return_type: ReturnType::Base,
        }
    }

    /// Set the maximum depth; 0 means no limit.
    pub fn set_max_depth(&mut self, depth: usize)
        ensures
            *final(self) == (Options { max_depth: limit_value(depth), ..*old(self) }),
    {
        self.max_depth = if depth == 0 {
            usize::MAX
        } else {
            depth
        };
    }

    /// Set the maximum number of files to collect; 0 means no limit.
    pub fn set_max_file_cnt(&mut self, max_file_cnt: usize)
        ensures
            *final(self) == (Options { max_file_cnt: limit_value(max_file_cnt), ..*old(self) }),
    {
        self.max_file_cnt = if max_file_cnt == 0 {
            usize::MAX
        } else {
            max_file_cnt
        };
    }

    /// Select plain (`false`) or extended (`true`) entries.
    pub fn set_extended(&mut self, extended: bool)
        ensures
            *final(self) == (Options { return_type: return_type_of(extended), ..*old(self) }),
    {
        self.return_type = if extended {
            ReturnType::Ext
        } else {
            ReturnType::Base
        };
    }
}

} // verus!
