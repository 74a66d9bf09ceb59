//! Include and exclude filters on directory and file names.

use vstd::prelude::*;

use crate::entry::{DirEntryInfo, EntryKind};
use crate::error::{ErrorKind, ScandirError};
use crate::glob::{glob_compile_error, matches_under, GlobPattern, MatchOptions};
use crate::options::Options;
use crate::walk::{below_root, lemma_below_root};
use crate::text::{ends_with_byte, ends_with_slash, join_with_slash, root_prefix_len, slash_byte, str_suffix, suffix_from, utf8_of};

verus! {

/// The compiled filters of a scan.
pub struct Filter {
    pub dir_include: Vec<GlobPattern>,
    pub dir_exclude: Vec<GlobPattern>,
    pub file_include: Vec<GlobPattern>,
    pub file_exclude: Vec<GlobPattern>,
    pub options: Option<MatchOptions>,
}

/// The texts that a list of patterns was compiled from.
pub open spec fn sources(v: Seq<GlobPattern>) -> Seq<Seq<char>> {
    v.map_values(|p: GlobPattern| p@)
}

/// The texts of an optional list of strings (none when absent).
pub open spec fn list_texts(o: Option<Vec<String>>) -> Seq<Seq<char>> {
    match o {
        Some(v) => v@.map_values(|s: String| s@),
        None => Seq::empty(),
    }
}

/// The error of the first pattern of `v` that does not compile, if any.
pub open spec fn first_compile_error(v: Seq<Seq<char>>) -> Option<Seq<char>>
    decreases v.len(),
{
    if v.len() == 0 {
        None
    } else {
        match first_compile_error(v.drop_last()) {
            Some(m) => Some(m),
            None => glob_compile_error(v.last()),
        }
    }
}

/// A prefix that already holds an error fixes the first error of the whole list.
proof fn lemma_first_error_prefix(v: Seq<Seq<char>>, k: int)
    requires
        0 <= k <= v.len(),
        first_compile_error(v.take(k)) is Some,
    ensures
        first_compile_error(v) == first_compile_error(v.take(k)),
    decreases v.len(),
{
    if k == v.len() {
        assert(v.take(k) =~= v);
    } else {
        assert(v.drop_last().take(k) =~= v.take(k));
        lemma_first_error_prefix(v.drop_last(), k);
    }
}

/// Compiles each pattern of `v` in order, stopping at the first that fails.
fn compile_patterns(v: &Vec<String>) -> (r: Result<Vec<GlobPattern>, String>)
    ensures
        match r {
            Ok(ps) => first_compile_error(v@.map_values(|s: String| s@)) is None
                && sources(ps@) == v@.map_values(|s: String| s@),
            Err(m) => first_compile_error(v@.map_values(|s: String| s@)) == Some(m@),
        },
{
    let ghost texts = v@.map_values(|s: String| s@);
    let mut out: Vec<GlobPattern> = Vec::new();
    for i in 0..v.len()
        invariant
            texts == v@.map_values(|s: String| s@),
            out@.len() == i,
            forall|j: int| 0 <= j < i ==> (#[trigger] out@[j])@ == texts[j],
            first_compile_error(texts.take(i as int)) is None,
    {
        assert(texts.take(i + 1).drop_last() =~= texts.take(i as int));
        match GlobPattern::new(v[i].as_str()) {
            Ok(p) => {
                out.push(p);
            },
            Err(m) => {
                proof {
                    lemma_first_error_prefix(texts, i + 1);
                }
                return Err(m);
            },
        }
    }
    assert(texts.take(v.len() as int) =~= texts);
    assert(sources(out@) =~= texts);
    Ok(out)
}

/// Compiles an optional list; an absent list gives no patterns.
fn compile_list(o: &Option<Vec<String>>) -> (r: Result<Vec<GlobPattern>, String>)
    ensures
        match r {
            Ok(ps) => first_compile_error(list_texts(*o)) is None && sources(ps@) == list_texts(*o),
            Err(m) => first_compile_error(list_texts(*o)) == Some(m@),
        },
{
    match o {
        Some(v) => compile_patterns(v),
        None => {
            let out: Vec<GlobPattern> = Vec::new();
            assert(sources(out@) =~= list_texts(*o));
            Ok(out)
        },
    }
}

/// The match options of a scan: `None` (the defaults) when case sensitive,
/// else case insensitive matching.
pub open spec fn filter_options(case_sensitive: bool) -> Option<MatchOptions> {
    if case_sensitive {
        None
    } else {
        Some(MatchOptions { case_sensitive: false, ..MatchOptions::default_spec() })
    }
}

/// The message of the error that `create_filter` reports, if it reports one:
/// the first list (in the order dir_include, dir_exclude, file_include,
/// file_exclude) that holds a pattern that does not compile names the error.
pub open spec fn create_filter_error(o: Options) -> Option<Seq<char>> {
    if let Some(m) = first_compile_error(list_texts(o.dir_include)) {
        Some("dir_include: "@ + m)
    } else if let Some(m) = first_compile_error(list_texts(o.dir_exclude)) {
        Some("dir_exclude: "@ + m)
    } else if let Some(m) = first_compile_error(list_texts(o.file_include)) {
        Some("file_include: "@ + m)
    } else if let Some(m) = first_compile_error(list_texts(o.file_exclude)) {
        Some("file_exclude: "@ + m)
    } else {
        None
    }
}

/// Whether the options ask for no filter at all.
pub open spec fn no_patterns(o: Options) -> bool {
    &&& list_texts(o.dir_include).len() == 0
    &&& list_texts(o.dir_exclude).len() == 0
    &&& list_texts(o.file_include).len() == 0
    &&& list_texts(o.file_exclude).len() == 0
}

/// Whether `f` holds exactly the patterns and match options that `o` asks for.
pub open spec fn filter_of(o: Options, f: Filter) -> bool {
    &&& sources(f.dir_include@) == list_texts(o.dir_include)
    &&& sources(f.dir_exclude@) == list_texts(o.dir_exclude)
    &&& sources(f.file_include@) == list_texts(o.file_include)
    &&& sources(f.file_exclude@) == list_texts(o.file_exclude)
    &&& f.options == filter_options(o.case_sensitive)
}

fn prefixed_error(prefix: &str, m: String) -> (r: ScandirError)
    ensures
        r.kind == ErrorKind::InvalidInput,
        r.message@ == prefix@ + m@,
{
    let mut message = prefix.to_owned();
    message.append(m.as_str());
    ScandirError { kind: ErrorKind::InvalidInput, message }
}

/// Compiles the filters that `options` asks for. Fails with `InvalidInput`
/// on the first pattern that does not compile; gives `None` when there are
/// no patterns at all.
pub fn create_filter(options: &Options) -> (r: Result<Option<Filter>, ScandirError>)
    ensures
        match r {
            Err(e) => create_filter_error(*options) == Some(e.message@) && e.kind
                == ErrorKind::InvalidInput,
            Ok(None) => create_filter_error(*options) is None && no_patterns(*options),
            Ok(Some(f)) => create_filter_error(*options) is None && !no_patterns(*options)
                && filter_of(*options, f),
        },
{
    let dir_include = match compile_list(&options.dir_include) {
        Ok(v) => v,
        Err(m) => {
            return Err(prefixed_error("dir_include: ", m));
        },
    };
    let dir_exclude = match compile_list(&options.dir_exclude) {
        Ok(v) => v,
        Err(m) => {
            return Err(prefixed_error("dir_exclude: ", m));
        },
    };
    let file_include = match compile_list(&options.file_include) {
        Ok(v) => v,
        Err(m) => {
            return Err(prefixed_error("file_include: ", m));
        },
    };
    let file_exclude = match compile_list(&options.file_exclude) {
        Ok(v) => v,
        Err(m) => {
            return Err(prefixed_error("file_exclude: ", m));
        },
    };
    let match_options = if options.case_sensitive {
        None
    } else {
        Some(MatchOptions { case_sensitive: false, ..MatchOptions::new() })
    };
    if dir_include.len() == 0 && dir_exclude.len() == 0 && file_include.len() == 0
        && file_exclude.len() == 0 {
        return Ok(None);
    }
    Ok(
        Some(
            Filter {
                dir_include,
                dir_exclude,
                file_include,
                file_exclude,
                options: match_options,
            },
        ),
    )
}

/// Whether the UTF-8 form of a pattern ends in `/**` (matches a directory and
/// everything below it).
pub open spec fn is_recursive_suffix(p: Seq<char>) -> bool {
    let b = utf8_of(p);
    b.len() >= 3 && b.subrange(b.len() - 3, b.len() as int) == seq![0x2fu8, 0x2au8, 0x2au8]
}

/// Matching under optional options (`None`: the defaults).
pub open spec fn matches_opt(p: Seq<char>, text: Seq<char>, options: Option<MatchOptions>) -> bool {
    match options {
        Some(o) => matches_under(p, text, o),
        None => matches_under(p, text, MatchOptions::default_spec()),
    }
}

/// Whether pattern `p` matches `key`. A pattern that ends in `/**` also
/// matches a key without a trailing `/` when it matches the key with one.
pub open spec fn pattern_matches_key(p: Seq<char>, key: Seq<char>, options: Option<MatchOptions>) -> bool {
    ||| (is_recursive_suffix(p) && !ends_with_byte(key, slash_byte()) && matches_opt(
        p,
        key.push('/'),
        options,
    ))
    ||| matches_opt(p, key, options)
}

/// The verdict of a pattern list on `key`: `empty` when the list or the key
/// is empty, else whether some pattern matches.
pub open spec fn list_verdict(
    key: Seq<char>,
    patterns: Seq<Seq<char>>,
    options: Option<MatchOptions>,
    empty: bool,
) -> bool {
    if patterns.len() == 0 || key.len() == 0 {
        empty
    } else {
        exists|i: int| 0 <= i < patterns.len() && pattern_matches_key(#[trigger] patterns[i], key, options)
    }
}

fn has_recursive_suffix(p: &GlobPattern) -> (r: bool)
    ensures
        r == is_recursive_suffix(p@),
{
    let b = p.as_str().as_bytes();
    let n = b.len();
    if n >= 3 && b[n - 3] == 0x2f && b[n - 2] == 0x2a && b[n - 1] == 0x2a {
        assert(b@.subrange(n - 3, n as int) =~= seq![0x2fu8, 0x2au8, 0x2au8]);
        true
    } else {
        assert(n >= 3 ==> b@.subrange(n - 3, n as int)[0] == b@[n - 3]);
        assert(n >= 3 ==> b@.subrange(n - 3, n as int)[1] == b@[n - 2]);
        assert(n >= 3 ==> b@.subrange(n - 3, n as int)[2] == b@[n - 1]);
        false
    }
}

fn match_one(p: &GlobPattern, key: &str, options: Option<MatchOptions>) -> (r: bool)
    ensures
        r == matches_opt(p@, key@, options),
{
    match options {
        Some(o) => p.matches_with(key, o),
        None => p.matches(key),
    }
}

/// Whether `key` passes a pattern list: `empty` when the list or the key is
/// empty, else whether one of the patterns matches the key.
pub fn filter_direntry(
    key: &str,
    filter: &Vec<GlobPattern>,
    options: Option<MatchOptions>,
    empty: bool,
) -> (r: bool)
    ensures
        r == list_verdict(key@, sources(filter@), options, empty),
{
    let ghost srcs = sources(filter@);
    if filter.len() == 0 || key.is_empty() {
        return empty;
    }
    let key_ends_with_slash = ends_with_slash(key);
    for i in 0..filter.len()
        invariant
            srcs == sources(filter@),
            srcs.len() == filter@.len(),
            key@.len() > 0,
            key_ends_with_slash == ends_with_byte(key@, slash_byte()),
            forall|j: int| 0 <= j < i ==> !pattern_matches_key(#[trigger] srcs[j], key@, options),
    {
        let f = &filter[i];
        assert(srcs[i as int] == f@);
        if has_recursive_suffix(f) && !key_ends_with_slash {
            let key_with_slash = join_with_slash(key, "");
            proof {
                reveal_strlit("");
                assert(key_with_slash@ =~= key@.push('/'));
            }
            if match_one(f, key_with_slash.as_str(), options) {
                assert(pattern_matches_key(srcs[i as int], key@, options));
                return true;
            }
        }
        if match_one(f, key, options) {
            assert(pattern_matches_key(srcs[i as int], key@, options));
            return true;
        }
    }
    false
}

/// The key a directory is filtered by: its parent path without the root
/// prefix (empty when that cut does not fall on a character boundary), a `/`,
/// and its name.
pub open spec fn dir_key(info: DirEntryInfo, root_path_len: int) -> Seq<char> {
    let parent_suffix = match str_suffix(info.parent_path@, root_path_len) {
        Some(t) => t,
        None => Seq::empty(),
    };
    parent_suffix + seq!['/'] + info.file_name@
}

/// Whether a directory passes the directory filters. Directories whose name or
/// parent path is not valid UTF-8 always pass.
pub open spec fn dir_passes(info: DirEntryInfo, f: Filter, root_path_len: int) -> bool {
    if f.dir_include@.len() == 0 && f.dir_exclude@.len() == 0 {
        true
    } else if !info.file_name_is_utf8 || !info.parent_path_is_utf8 {
        true
    } else {
        let key = dir_key(info, root_path_len);
        !list_verdict(key, sources(f.dir_exclude@), f.options, false) && list_verdict(
            key,
            sources(f.dir_include@),
            f.options,
            true,
        )
    }
}

/// A directory found in the directory `rel` below the root is filtered by
/// the key `rel/name`: its path relative to the root with a leading `/`
/// (just `/name` in the root itself when the root ends in `/`).
pub proof fn law_dir_key_relative(info: DirEntryInfo, root: Seq<char>, rel: Seq<char>)
    ensures
        info.parent_path@ == below_root(root, rel) ==> dir_key(info, root_prefix_len(root) as int) == rel
            + seq!['/'] + info.file_name@,
{
    lemma_below_root(root, rel);
}

/// The directory filters decide by pattern matches on the directory's key:
/// without directory patterns, or for a name or parent path that is not
/// valid UTF-8, every directory passes; otherwise a directory passes exactly
/// when no exclude pattern matches its key and, when there are include
/// patterns, one of them matches it.
pub proof fn law_dir_filter_verdict(info: DirEntryInfo, f: Filter, root_path_len: int)
    ensures
        (f.dir_include@.len() == 0 && f.dir_exclude@.len() == 0) || !info.file_name_is_utf8
            || !info.parent_path_is_utf8 ==> dir_passes(info, f, root_path_len),
        !(f.dir_include@.len() == 0 && f.dir_exclude@.len() == 0) && info.file_name_is_utf8
            && info.parent_path_is_utf8 ==> (dir_passes(info, f, root_path_len) <==> {
            let key = dir_key(info, root_path_len);
            &&& forall|i: int|
                0 <= i < f.dir_exclude@.len() ==> !pattern_matches_key(
                    (#[trigger] f.dir_exclude@[i])@,
                    key,
                    f.options,
                )
            &&& (f.dir_include@.len() == 0 || exists|i: int|
                0 <= i < f.dir_include@.len() && pattern_matches_key(
                    (#[trigger] f.dir_include@[i])@,
                    key,
                    f.options,
                ))
        }),
{
    let key = dir_key(info, root_path_len);
    assert(key.len() > 0);
    let ex = sources(f.dir_exclude@);
    let inc = sources(f.dir_include@);
    assert(forall|i: int| 0 <= i < f.dir_exclude@.len() ==> #[trigger] ex[i] == f.dir_exclude@[i]@);
    assert(forall|i: int| 0 <= i < f.dir_include@.len() ==> #[trigger] inc[i] == f.dir_include@[i]@);
    if exists|i: int| 0 <= i < f.dir_include@.len() && pattern_matches_key((#[trigger] f.dir_include@[i])@, key, f.options) {
        let i = choose|i: int| 0 <= i < f.dir_include@.len() && pattern_matches_key((#[trigger] f.dir_include@[i])@, key, f.options);
        assert(pattern_matches_key(inc[i], key, f.options));
    }
    if exists|i: int| 0 <= i < inc.len() && pattern_matches_key(#[trigger] inc[i], key, f.options) {
        let i = choose|i: int| 0 <= i < inc.len() && pattern_matches_key(#[trigger] inc[i], key, f.options);
        assert(pattern_matches_key(f.dir_include@[i]@, key, f.options));
    }
    assert(ex.len() == f.dir_exclude@.len());
    assert(inc.len() == f.dir_include@.len());
    if exists|i: int| 0 <= i < ex.len() && pattern_matches_key(#[trigger] ex[i], key, f.options) {
        let i = choose|i: int| 0 <= i < ex.len() && pattern_matches_key(#[trigger] ex[i], key, f.options);
        assert(pattern_matches_key(f.dir_exclude@[i]@, key, f.options));
    } else {
        assert forall|i: int| 0 <= i < f.dir_exclude@.len() implies !pattern_matches_key(
            (#[trigger] f.dir_exclude@[i])@,
            key,
            f.options,
        ) by {
            assert(ex[i] == f.dir_exclude@[i]@);
        }
    }
}

/// Whether a file (any entry that is not a directory) passes the file
/// filters: its name must be valid UTF-8, not excluded, and included.
pub open spec fn file_passes(info: DirEntryInfo, f: Filter) -> bool {
    &&& info.file_name_is_utf8
    &&& !list_verdict(info.file_name@, sources(f.file_exclude@), f.options, false)
    &&& list_verdict(info.file_name@, sources(f.file_include@), f.options, true)
}

/// Whether a child of a directory stays after filtering; errors never stay.
pub open spec fn child_stays(c: Result<DirEntryInfo, String>, f: Filter, root_path_len: int) -> bool {
    match c {
        Err(_) => false,
        Ok(info) => if info.kind == EntryKind::Dir {
            dir_passes(info, f, root_path_len)
        } else {
            file_passes(info, f)
        },
    }
}

/// The children that stay, in their order.
pub open spec fn staying_children(
    s: Seq<Result<DirEntryInfo, String>>,
    f: Filter,
    root_path_len: int,
) -> Seq<Result<DirEntryInfo, String>>
    decreases s.len(),
{
    if s.len() == 0 {
        Seq::empty()
    } else {
        let rest = staying_children(s.drop_last(), f, root_path_len);
        if child_stays(s.last(), f, root_path_len) {
            rest.push(s.last())
        } else {
            rest
        }
    }
}

/// The messages of the children that are errors, in their order.
pub open spec fn error_texts(s: Seq<Result<DirEntryInfo, String>>) -> Seq<Seq<char>>
    decreases s.len(),
{
    if s.len() == 0 {
        Seq::empty()
    } else {
        match s.last() {
            Err(m) => error_texts(s.drop_last()).push(m@),
            Ok(_) => error_texts(s.drop_last()),
        }
    }
}

/// The file filters decide by pattern matches on the name: a name that is
/// not valid UTF-8 never passes; otherwise a file passes exactly when no
/// exclude pattern matches its (non-empty) name and, when there are include
/// patterns, one of them matches it. A child error never stays; a directory
/// child stays by the directory filters and any other child by the file
/// filters.
pub proof fn law_file_filter_verdict(info: DirEntryInfo, f: Filter, root_path_len: int)
    ensures
        !info.file_name_is_utf8 ==> !file_passes(info, f),
        info.file_name_is_utf8 && info.file_name@.len() > 0 ==> (file_passes(info, f) <==> {
            let key = info.file_name@;
            &&& forall|i: int|
                0 <= i < f.file_exclude@.len() ==> !pattern_matches_key(
                    (#[trigger] f.file_exclude@[i])@,
                    key,
                    f.options,
                )
            &&& (f.file_include@.len() == 0 || exists|i: int|
                0 <= i < f.file_include@.len() && pattern_matches_key(
                    (#[trigger] f.file_include@[i])@,
                    key,
                    f.options,
                ))
        }),
        forall|m: String| !child_stays(Err(m), f, root_path_len),
        info.kind == EntryKind::Dir ==> (child_stays(Ok(info), f, root_path_len) == dir_passes(info, f, root_path_len)),
        info.kind != EntryKind::Dir ==> (child_stays(Ok(info), f, root_path_len) == file_passes(info, f)),
{
    let key = info.file_name@;
    let ex = sources(f.file_exclude@);
    let inc = sources(f.file_include@);
    assert(forall|i: int| 0 <= i < f.file_exclude@.len() ==> #[trigger] ex[i] == f.file_exclude@[i]@);
    assert(forall|i: int| 0 <= i < f.file_include@.len() ==> #[trigger] inc[i] == f.file_include@[i]@);
    assert(ex.len() == f.file_exclude@.len());
    assert(inc.len() == f.file_include@.len());
    if exists|i: int| 0 <= i < f.file_include@.len() && pattern_matches_key((#[trigger] f.file_include@[i])@, key, f.options) {
        let i = choose|i: int| 0 <= i < f.file_include@.len() && pattern_matches_key((#[trigger] f.file_include@[i])@, key, f.options);
        assert(pattern_matches_key(inc[i], key, f.options));
    }
    if exists|i: int| 0 <= i < inc.len() && pattern_matches_key(#[trigger] inc[i], key, f.options) {
        let i = choose|i: int| 0 <= i < inc.len() && pattern_matches_key(#[trigger] inc[i], key, f.options);
        assert(pattern_matches_key(f.file_include@[i]@, key, f.options));
    }
    if exists|i: int| 0 <= i < ex.len() && pattern_matches_key(#[trigger] ex[i], key, f.options) {
        let i = choose|i: int| 0 <= i < ex.len() && pattern_matches_key(#[trigger] ex[i], key, f.options);
        assert(pattern_matches_key(f.file_exclude@[i]@, key, f.options));
    } else {
        assert forall|i: int| 0 <= i < f.file_exclude@.len() implies !pattern_matches_key(
            (#[trigger] f.file_exclude@[i])@,
            key,
            f.options,
        ) by {
            assert(ex[i] == f.file_exclude@[i]@);
        }
    }
}

/// Filtering keeps only entries that pass, in their order, drops every
/// error, and reports each error once.
pub proof fn law_filtered_children_pass(s: Seq<Result<DirEntryInfo, String>>, f: Filter, root_path_len: int)
    ensures
        forall|i: int|
            0 <= i < staying_children(s, f, root_path_len).len() ==> child_stays(
                #[trigger] staying_children(s, f, root_path_len)[i],
                f,
                root_path_len,
            ),
        staying_children(s, f, root_path_len).len() + error_texts(s).len() <= s.len(),
    decreases s.len(),
{
    if s.len() > 0 {
        law_filtered_children_pass(s.drop_last(), f, root_path_len);
    }
}

/// Whether a directory passes the directory filters.
pub fn filter_dir(root_path_len: usize, dir_entry: &DirEntryInfo, filter_ref: &Filter) -> (r: bool)
    ensures
        r == dir_passes(*dir_entry, *filter_ref, root_path_len as int),
{
    if filter_ref.dir_include.len() == 0 && filter_ref.dir_exclude.len() == 0 {
        return true;
    }
    if !dir_entry.file_name_is_utf8 || !dir_entry.parent_path_is_utf8 {
        return true;
    }
    let parent_suffix = match suffix_from(dir_entry.parent_path.as_str(), root_path_len) {
        Some(t) => t,
        None => "",
    };
    proof {
        reveal_strlit("");
    }
    let key = join_with_slash(parent_suffix, dir_entry.file_name.as_str());
    assert(key@ =~= dir_key(*dir_entry, root_path_len as int));
    if filter_direntry(key.as_str(), &filter_ref.dir_exclude, filter_ref.options, false)
        || !filter_direntry(key.as_str(), &filter_ref.dir_include, filter_ref.options, true) {
        return false;
    }
    true
}

/// Whether one child of a directory stays after filtering.
pub fn child_kept(child: &Result<DirEntryInfo, String>, filter_ref: &Filter, root_path_len: usize) -> (r: bool)
    ensures
        r == child_stays(*child, *filter_ref, root_path_len as int),
{
    match child {
        Err(_) => false,
        Ok(dir_entry) => {
            if dir_entry.kind == EntryKind::Dir {
                filter_dir(root_path_len, dir_entry, filter_ref)
            } else {
                if !dir_entry.file_name_is_utf8 {
                    return false;
                }
                let key = dir_entry.file_name.as_str();
                if filter_direntry(key, &filter_ref.file_exclude, filter_ref.options, false)
                    || !filter_direntry(key, &filter_ref.file_include, filter_ref.options, true) {
                    return false;
                }
                true
            }
        },
    }
}

/// Filters the children of one directory in place: without a filter nothing
/// changes; with one, only the entries that pass stay, in their order. Returns
/// the messages of the children that were errors (none without a filter).
pub fn filter_children(
    children: &mut Vec<Result<DirEntryInfo, String>>,
    filter: &Option<Filter>,
    root_path_len: usize,
) -> (errors: Vec<String>)
    ensures
        match filter {
            None => final(children)@ == old(children)@ && errors@.len() == 0,
            Some(f) => final(children)@ == staying_children(old(children)@, *f, root_path_len as int)
                && errors@.map_values(|s: String| s@) == error_texts(old(children)@),
        },
{
    let mut errors: Vec<String> = Vec::new();
    if let Some(filter_ref) = filter {
        let mut old: Vec<Result<DirEntryInfo, String>> = Vec::new();
        std::mem::swap(&mut old, children);
        let ghost olds = old@;
        for c in it: old.into_iter()
            invariant
                it.seq() == olds,
                children@ == staying_children(olds.take(it.index()), *filter_ref, root_path_len as int),
                errors@.map_values(|s: String| s@) == error_texts(olds.take(it.index())),
        {
            let ghost i = it.index();
            assert(olds.take(i + 1).drop_last() =~= olds.take(i));
            assert(olds.take(i + 1).last() == c);
            let keep = child_kept(&c, filter_ref, root_path_len);
            match c {
                Err(e) => {
                    errors.push(e);
                },
                Ok(d) => {
                    if keep {
                        children.push(Ok(d));
                    }
                },
            }
            assert(errors@.map_values(|s: String| s@) =~= error_texts(olds.take(i + 1)));
        }
        assert(olds.take(olds.len() as int) =~= olds);
    }
    errors
}

} // verus!
