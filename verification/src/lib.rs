//! Directory scanning: the filters, result types, statistics and decisions of
//! a fast directory walker. The walk of the file system itself is left to the
//! caller, who hands each directory's entries to this library.
//!
//! - `filter`: include and exclude glob patterns on directory and file names.
//! - `entry`, `results`, `stats`: the entries of a scan, their results and
//!   statistics.
//! - `toc`, `walk`: tables of contents (names by type) and their merging.
//! - `scan`, `scan_store`, `walk_store`: what a walk does with each entry and
//!   what it keeps between calls.
//! - `codec`: the `speedy`, `bincode` and JSON forms of tables of contents.

pub mod codec;
pub mod entry;
pub mod error;
pub mod filter;
pub mod glob;
pub mod options;
pub mod results;
pub mod scan;
pub mod scan_store;
pub mod stats;
pub mod text;
pub mod toc;
pub mod walk;
pub mod walk_store;

pub use entry::{DirEntry, DirEntryExt, DirEntryInfo, EntryKind, ScandirResult};
pub use error::{ErrorKind, ScandirError};
pub use filter::{child_kept, create_filter, filter_children, filter_dir, filter_direntry, Filter};
pub use options::{Options, ReturnType};
pub use results::ScandirResults;
pub use stats::Statistics;
pub use text::get_root_path_len;
pub use toc::Toc;
