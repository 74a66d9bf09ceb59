//! The decisions of a walk that lists names by directory.

use vstd::prelude::*;

use crate::entry::{DirEntryInfo, EntryKind};
use crate::text::{
    byte_len, ends_with_byte, lemma_suffix_after, lemma_utf8_concat, lemma_utf8_slash, root_prefix_len,
    slash_byte, str_suffix, suffix_from,
};
use crate::scan::MAX_STORED_ERRORS;
use crate::toc::{cap_errors, capped, capped_toc, empty_toc, texts, toc_extended, Toc, TocView};

verus! {

/// `t` with the name of `info` added to the list of its type.
pub open spec fn toc_with_entry(t: TocView, info: DirEntryInfo) -> TocView {
    let name = info.file_name@;
    match info.kind {
        EntryKind::Symlink => TocView { symlinks: t.symlinks.push(name), ..t },
        EntryKind::Dir => TocView { dirs: t.dirs.push(name), ..t },
        EntryKind::File => TocView { files: t.files.push(name), ..t },
        EntryKind::Other => TocView { other: t.other.push(name), ..t },
    }
}

/// Adds the name of an entry to the list of its type.
pub fn update_toc(dir_entry: &DirEntryInfo, toc: &mut Toc)
    ensures
        final(toc)@ == toc_with_entry(old(toc)@, *dir_entry),
{
    let key = dir_entry.file_name.clone();
    let ghost t0 = toc@;
    match dir_entry.kind {
        EntryKind::Symlink => {
            toc.symlinks.push(key);
            assert(toc@.symlinks =~= t0.symlinks.push(dir_entry.file_name@));
        },
        EntryKind::Dir => {
            toc.dirs.push(key);
            assert(toc@.dirs =~= t0.dirs.push(dir_entry.file_name@));
        },
        EntryKind::File => {
            toc.files.push(key);
            assert(toc@.files =~= t0.files.push(dir_entry.file_name@));
        },
        EntryKind::Other => {
            toc.other.push(key);
            assert(toc@.other =~= t0.other.push(dir_entry.file_name@));
        },
    }
    assert(toc@ == toc_with_entry(t0, *dir_entry));
}

/// The table of one directory's children, after the given errors: names by
/// type, and the message of each child that is an error.
pub open spec fn children_toc(start: TocView, children: Seq<Result<DirEntryInfo, String>>) -> TocView
    decreases children.len(),
{
    if children.len() == 0 {
        start
    } else {
        let t = children_toc(start, children.drop_last());
        match children.last() {
            Ok(info) => toc_with_entry(t, info),
            Err(m) => TocView { errors: t.errors.push(m@), ..t },
        }
    }
}

/// The number of children that are entries (not errors).
pub open spec fn count_entries(children: Seq<Result<DirEntryInfo, String>>) -> nat
    decreases children.len(),
{
    if children.len() == 0 {
        0
    } else {
        count_entries(children.drop_last()) + if children.last() is Ok {
            1nat
        } else {
            0nat
        }
    }
}

/// Every child is listed once, under its kind: a child entry's name goes at
/// the end of the list of its kind (directories to `dirs`, files to `files`,
/// links to `symlinks`, anything else to `other`) and the other lists stay
/// as they were; an error's message goes at the end of `errors`. So the four
/// name lists grow by exactly the number of child entries.
pub proof fn law_children_listed_by_kind(start: TocView, children: Seq<Result<DirEntryInfo, String>>)
    ensures
        forall|info: DirEntryInfo| {
            let t = children_toc(start, children);
            let u = #[trigger] children_toc(start, children.push(Ok(info)));
            &&& u.dirs == if info.kind == EntryKind::Dir {
                t.dirs.push(info.file_name@)
            } else {
                t.dirs
            }
            &&& u.files == if info.kind == EntryKind::File {
                t.files.push(info.file_name@)
            } else {
                t.files
            }
            &&& u.symlinks == if info.kind == EntryKind::Symlink {
                t.symlinks.push(info.file_name@)
            } else {
                t.symlinks
            }
            &&& u.other == if info.kind == EntryKind::Other {
                t.other.push(info.file_name@)
            } else {
                t.other
            }
            &&& u.errors == t.errors
        },
        forall|m: String| {
            let t = children_toc(start, children);
            let u = #[trigger] children_toc(start, children.push(Err(m)));
            u.dirs == t.dirs && u.files == t.files && u.symlinks == t.symlinks && u.other == t.other
                && u.errors == t.errors.push(m@)
        },
        ({
            let t = children_toc(start, children);
            t.dirs.len() + t.files.len() + t.symlinks.len() + t.other.len() == start.dirs.len()
                + start.files.len() + start.symlinks.len() + start.other.len() + count_entries(children)
        }),
    decreases children.len(),
{
    assert forall|info: DirEntryInfo|
        #[trigger] children_toc(start, children.push(Ok(info))) == toc_with_entry(
            children_toc(start, children),
            info,
        ) by {
        assert(children.push(Ok(info)).drop_last() =~= children);
        assert(children.push(Ok(info)).last() == Ok::<DirEntryInfo, String>(info));
    }
    assert forall|m: String|
        #[trigger] children_toc(start, children.push(Err(m))) == ({
            let t = children_toc(start, children);
            TocView { errors: t.errors.push(m@), ..t }
        }) by {
        assert(children.push(Err(m)).drop_last() =~= children);
        assert(children.push(Err(m)).last() == Err::<DirEntryInfo, String>(m));
    }
    if children.len() > 0 {
        law_children_listed_by_kind(start, children.drop_last());
    }
}

/// Whether a directory read by the walk lies at or below the root, so that its
/// listing is reported: its path is at least the root prefix less one byte long.
pub open spec fn listing_reported(root_dir: Seq<char>, root_path_len: int) -> bool {
    byte_len(root_dir) + 1 >= root_path_len
}

/// The key a directory's listing is reported under: its path without the
/// root prefix, or empty for the root itself.
pub open spec fn listing_key(root_dir: Seq<char>, root_path_len: int) -> Seq<char> {
    if byte_len(root_dir) > root_path_len {
        str_suffix(root_dir, root_path_len).unwrap()
    } else {
        Seq::empty()
    }
}

/// The path of `rel` below `root`: the root, a separator unless the root
/// already ends in one, and `rel`.
pub open spec fn below_root(root: Seq<char>, rel: Seq<char>) -> Seq<char> {
    if ends_with_byte(root, slash_byte()) {
        root + rel
    } else {
        root + seq!['/'] + rel
    }
}

/// The root prefix of `below_root(root, rel)` is as long as the root path
/// plus its separator, and cutting it leaves `rel`.
pub proof fn lemma_below_root(root: Seq<char>, rel: Seq<char>)
    ensures
        byte_len(below_root(root, rel)) == root_prefix_len(root) + byte_len(rel),
        str_suffix(below_root(root, rel), root_prefix_len(root) as int) == Some(rel),
{
    if ends_with_byte(root, slash_byte()) {
        lemma_utf8_concat(root, rel);
        lemma_suffix_after(root, rel);
    } else {
        let head = root + seq!['/'];
        assert(below_root(root, rel) == head + rel);
        lemma_utf8_concat(root, seq!['/']);
        lemma_utf8_slash();
        lemma_utf8_concat(head, rel);
        lemma_suffix_after(head, rel);
    }
}

/// Every directory below the root has its listing reported under its path
/// relative to the root; the root itself under the empty key.
pub proof fn law_listing_key_is_relative_path(root: Seq<char>, rel: Seq<char>)
    ensures
        listing_reported(below_root(root, rel), root_prefix_len(root) as int),
        listing_key(below_root(root, rel), root_prefix_len(root) as int) == rel,
        listing_reported(root, root_prefix_len(root) as int),
        listing_key(root, root_prefix_len(root) as int) == Seq::<char>::empty(),
{
    lemma_below_root(root, rel);
}

/// What `dir_listing` needs of its input: a path whose length fits a `usize`
/// (the length plus one too) and, where it is longer than the root prefix, a
/// character boundary at the end of the prefix.
pub open spec fn listing_defined(root_dir: Seq<char>, root_path_len: int) -> bool {
    &&& byte_len(root_dir) < usize::MAX
    &&& byte_len(root_dir) > root_path_len ==> str_suffix(root_dir, root_path_len) is Some
}

/// The listing of one directory that the walk read: `None` when the
/// directory's path is not valid UTF-8 or lies above the root; else its key
/// and the table of its (already filtered) children, after the given errors.
pub fn dir_listing(
    root_dir: &str,
    root_dir_is_utf8: bool,
    root_path_len: usize,
    errors: Vec<String>,
    children: &Vec<Result<DirEntryInfo, String>>,
) -> (r: Option<(String, Toc)>)
    requires
        listing_defined(root_dir@, root_path_len as int),
    ensures
        match r {
            None => !root_dir_is_utf8 || !listing_reported(root_dir@, root_path_len as int),
            Some((key, toc)) => root_dir_is_utf8 && listing_reported(root_dir@, root_path_len as int)
                && key@ == listing_key(root_dir@, root_path_len as int) && toc@ == children_toc(
                TocView { errors: texts(errors@), ..empty_toc() },
                children@,
            ),
        },
{
    if !root_dir_is_utf8 {
        return None;
    }
    if root_dir.len() + 1 < root_path_len {
        return None;
    }
    let mut toc = Toc::new();
    toc.errors = errors;
    let ghost start = toc@;
    assert(start == TocView { errors: texts(errors@), ..empty_toc() });
    for i in 0..children.len()
        invariant
            toc@ == children_toc(start, children@.take(i as int)),
    {
        assert(children@.take(i + 1).drop_last() =~= children@.take(i as int));
        match &children[i] {
            Ok(dir_entry) => update_toc(dir_entry, &mut toc),
            Err(e) => {
                let ghost t0 = toc@;
                toc.errors.push(e.clone());
                assert(toc@.errors =~= t0.errors.push(e@));
                assert(toc@ == TocView { errors: t0.errors.push(e@), ..t0 });
            },
        }
    }
    assert(children@.take(children@.len() as int) =~= children@);
    let key = if root_dir.len() > root_path_len {
        match suffix_from(root_dir, root_path_len) {
            Some(t) => t.to_owned(),
            None => String::new(),
        }
    } else {
        String::new()
    };
    Some((key, toc))
}

/// The listing reported when the root of a walk is not a directory: the
/// root entry alone, under the empty key.
pub fn root_entry_listing(dir_entry: &DirEntryInfo) -> (r: (String, Toc))
    ensures
        r.0@.len() == 0,
        r.1@ == toc_with_entry(empty_toc(), *dir_entry),
{
    let mut toc = Toc::new();
    update_toc(dir_entry, &mut toc);
    (String::new(), toc)
}

/// The texts of a list of (key, table) pairs.
pub open spec fn listing_views(s: Seq<(String, Toc)>) -> Seq<(Seq<char>, TocView)> {
    s.map_values(|e: (String, Toc)| (e.0@, e.1@))
}

/// All listings merged into one table, each placed below its key.
pub open spec fn merged(s: Seq<(Seq<char>, TocView)>) -> TocView
    decreases s.len(),
{
    if s.len() == 0 {
        empty_toc()
    } else {
        toc_extended(merged(s.drop_last()), s.last().0, s.last().1)
    }
}

/// Merges the listings of all directories into one table, each directory's
/// names placed below its key, keeping at most `MAX_STORED_ERRORS` errors.
pub fn merge_listings(entries: &Vec<(String, Toc)>) -> (r: Toc)
    ensures
        r@ == capped_toc(merged(listing_views(entries@))),
        r.errors@.len() <= MAX_STORED_ERRORS,
{
    let ghost v = listing_views(entries@);
    let mut toc = Toc::new();
    for i in 0..entries.len()
        invariant
            v == listing_views(entries@),
            toc@ == merged(v.take(i as int)),
    {
        let (root_dir, dir_toc) = &entries[i];
        assert(v.take(i + 1).drop_last() =~= v.take(i as int));
        toc.extend(root_dir.as_str(), dir_toc);
    }
    assert(v.take(v.len() as int) =~= v);
    let ghost full = toc@;
    cap_errors(&mut toc.errors);
    assert(toc@ == capped_toc(full));
    toc
}

/// The listings with the given errors added to the first one's errors (or in
/// a new listing under the empty key when there is none), keeping at most
/// `MAX_STORED_ERRORS` errors there.
pub open spec fn with_errors_attached(s: Seq<(Seq<char>, TocView)>, errors: Seq<Seq<char>>) -> Seq<(Seq<char>, TocView)> {
    if errors.len() == 0 {
        s
    } else if s.len() == 0 {
        seq![(Seq::empty(), TocView { errors: capped(errors), ..empty_toc() })]
    } else {
        s.update(0, (s[0].0, TocView { errors: capped(s[0].1.errors + errors), ..s[0].1 }))
    }
}

/// Every listing of `s` holds at most `MAX_STORED_ERRORS` errors.
pub open spec fn errors_bounded(s: Seq<(Seq<char>, TocView)>) -> bool {
    forall|i: int| 0 <= i < s.len() ==> (#[trigger] s[i]).1.errors.len() <= MAX_STORED_ERRORS
}

/// Adds the errors met while filtering to the first listing (the root's), or
/// to a new listing under the empty key when there is no listing.
pub fn attach_filter_errors(entries: &mut Vec<(String, Toc)>, errors: Vec<String>)
    ensures
        listing_views(final(entries)@) == with_errors_attached(listing_views(old(entries)@), texts(errors@)),
        errors_bounded(listing_views(old(entries)@)) ==> errors_bounded(listing_views(final(entries)@)),
{
    if errors.len() == 0 {
        return;
    }
    if entries.len() == 0 {
        let mut toc = Toc::new();
        toc.errors = errors;
        cap_errors(&mut toc.errors);
        entries.push((String::new(), toc));
        assert(listing_views(entries@) =~= with_errors_attached(listing_views(old(entries)@), texts(errors@)));
    } else {
        let ghost errs = errors@;
        let (key, mut toc) = entries.remove(0);
        let mut errors = errors;
        let ghost e0 = toc.errors@;
        toc.errors.append(&mut errors);
        assert(texts(toc.errors@) =~= texts(e0) + texts(errs));
        cap_errors(&mut toc.errors);
        entries.insert(0, (key, toc));
        assert(listing_views(entries@) =~= with_errors_attached(listing_views(old(entries)@), texts(errs)));
    }
}

/// A copy of a listing.
pub fn copy_listing(e: &(String, Toc)) -> (r: (String, Toc))
    ensures
        r.0@ == e.0@,
        r.1@ == e.1@,
{
    (e.0.clone(), e.1.clone())
}

} // verus!
