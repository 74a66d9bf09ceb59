//! The table of contents of a directory: its entries' names by type.

use vstd::prelude::*;

use crate::scan::MAX_STORED_ERRORS;
use crate::text::join_with_slash;

verus! {

/// The names found in a directory (or a whole tree), by entry type, and the
/// errors met on the way.
#[derive(Debug)]
pub struct Toc {
    pub dirs: Vec<String>,
    pub files: Vec<String>,
    pub symlinks: Vec<String>,
    pub other: Vec<String>,
    pub errors: Vec<String>,
}

/// The texts of a list of strings.
pub open spec fn texts(v: Seq<String>) -> Seq<Seq<char>> {
    v.map_values(|s: String| s@)
}

/// A table of contents as five lists of texts.
pub struct TocView {
    pub dirs: Seq<Seq<char>>,
    pub files: Seq<Seq<char>>,
    pub symlinks: Seq<Seq<char>>,
    pub other: Seq<Seq<char>>,
    pub errors: Seq<Seq<char>>,
}

impl View for Toc {
    type V = TocView;

    open spec fn view(&self) -> TocView {
        TocView {
            dirs: texts(self.dirs@),
            files: texts(self.files@),
            symlinks: texts(self.symlinks@),
            other: texts(self.other@),
            errors: texts(self.errors@),
        }
    }
}

/// The empty table.
pub open spec fn empty_toc() -> TocView {
    TocView {
        dirs: Seq::empty(),
        files: Seq::empty(),
        symlinks: Seq::empty(),
        other: Seq::empty(),
        errors: Seq::empty(),
    }
}

/// At most the first `MAX_STORED_ERRORS` items of `s`.
pub open spec fn capped<T>(s: Seq<T>) -> Seq<T> {
    if s.len() <= MAX_STORED_ERRORS {
        s
    } else {
        s.take(MAX_STORED_ERRORS as int)
    }
}

/// `t` with at most the first `MAX_STORED_ERRORS` of its errors.
pub open spec fn capped_toc(t: TocView) -> TocView {
    TocView { errors: capped(t.errors), ..t }
}

/// Drops the errors beyond the first `MAX_STORED_ERRORS`.
pub fn cap_errors(v: &mut Vec<String>)
    ensures
        texts(final(v)@) == capped(texts(old(v)@)),
        final(v)@.len() <= MAX_STORED_ERRORS,
{
    v.truncate(MAX_STORED_ERRORS);
    assert(texts(v@) =~= capped(texts(old(v)@)));
}

/// The items of `items` placed below `root`: `root/item` for each, or the
/// items unchanged when `root` is empty.
pub open spec fn prefixed(root: Seq<char>, items: Seq<Seq<char>>) -> Seq<Seq<char>> {
    if root.len() == 0 {
        items
    } else {
        items.map_values(|x: Seq<char>| root + seq!['/'] + x)
    }
}

/// `t` with the entries of `other`, placed below `root`, appended to each list.
pub open spec fn toc_extended(t: TocView, root: Seq<char>, other: TocView) -> TocView {
    TocView {
        dirs: t.dirs + prefixed(root, other.dirs),
        files: t.files + prefixed(root, other.files),
        symlinks: t.symlinks + prefixed(root, other.symlinks),
        other: t.other + prefixed(root, other.other),
        errors: t.errors + prefixed(root, other.errors),
    }
}

/// The path `b` placed below `a` (either may be empty).
pub open spec fn joined(a: Seq<char>, b: Seq<char>) -> Seq<char> {
    if a.len() == 0 {
        b
    } else if b.len() == 0 {
        a
    } else {
        a + seq!['/'] + b
    }
}

/// Placing items below `b` and then below `a` places them below `a/b`.
pub proof fn law_prefixed_nested(a: Seq<char>, b: Seq<char>, items: Seq<Seq<char>>)
    ensures
        prefixed(a, prefixed(b, items)) == prefixed(joined(a, b), items),
{
    if a.len() > 0 && b.len() > 0 {
        assert forall|i: int| 0 <= i < items.len() implies prefixed(a, prefixed(b, items))[i]
            == prefixed(joined(a, b), items)[i] by {
            assert(a + seq!['/'] + (b + seq!['/'] + items[i]) =~= (a + seq!['/'] + b) + seq!['/']
                + items[i]);
        }
        assert(prefixed(a, prefixed(b, items)) =~= prefixed(joined(a, b), items));
    }
}

/// Extending a table by the entries of a table that was itself built below
/// `b`, placed below `a`, is extending it by the original entries placed
/// below `a/b`.
pub proof fn law_extend_nested(t: TocView, a: Seq<char>, b: Seq<char>, o: TocView)
    ensures
        toc_extended(t, a, toc_extended(empty_toc(), b, o)) == toc_extended(t, joined(a, b), o),
{
    law_prefixed_nested(a, b, o.dirs);
    law_prefixed_nested(a, b, o.files);
    law_prefixed_nested(a, b, o.symlinks);
    law_prefixed_nested(a, b, o.other);
    law_prefixed_nested(a, b, o.errors);
    let inner = toc_extended(empty_toc(), b, o);
    assert(inner.dirs =~= prefixed(b, o.dirs));
    assert(inner.files =~= prefixed(b, o.files));
    assert(inner.symlinks =~= prefixed(b, o.symlinks));
    assert(inner.other =~= prefixed(b, o.other));
    assert(inner.errors =~= prefixed(b, o.errors));
}

/// Extending by an empty table changes nothing.
pub proof fn law_extend_by_empty(t: TocView, root: Seq<char>)
    ensures
        toc_extended(t, root, empty_toc()) == t,
{
    assert(toc_extended(t, root, empty_toc()).dirs =~= t.dirs);
    assert(toc_extended(t, root, empty_toc()).files =~= t.files);
    assert(toc_extended(t, root, empty_toc()).symlinks =~= t.symlinks);
    assert(toc_extended(t, root, empty_toc()).other =~= t.other);
    assert(toc_extended(t, root, empty_toc()).errors =~= t.errors);
}

/// Extending keeps every entry there was and adds each entry of the other
/// table once: the lists' lengths add up.
pub proof fn law_extend_lengths(t: TocView, root: Seq<char>, o: TocView)
    ensures
        toc_extended(t, root, o).dirs.len() == t.dirs.len() + o.dirs.len(),
        toc_extended(t, root, o).files.len() == t.files.len() + o.files.len(),
        toc_extended(t, root, o).symlinks.len() == t.symlinks.len() + o.symlinks.len(),
        toc_extended(t, root, o).other.len() == t.other.len() + o.other.len(),
        toc_extended(t, root, o).errors.len() == t.errors.len() + o.errors.len(),
        forall|i: int| 0 <= i < t.dirs.len() ==> toc_extended(t, root, o).dirs[i] == t.dirs[i],
        forall|i: int| 0 <= i < t.files.len() ==> toc_extended(t, root, o).files[i] == t.files[i],
{
}

/// A copy of a list of strings.
pub fn copy_strings(v: &Vec<String>) -> (r: Vec<String>)
    ensures
        r@ == v@,
{
    let mut r: Vec<String> = Vec::new();
    for i in 0..v.len()
        invariant
            r@ == v@.take(i as int),
    {
        r.push(v[i].clone());
        assert(v@.take(i + 1) =~= v@.take(i as int).push(v@[i as int]));
    }
    assert(v@.take(v@.len() as int) =~= v@);
    r
}

/// Appends the items of `src`, placed below `root`, to `dst`.
fn append_prefixed(dst: &mut Vec<String>, root: &str, src: &Vec<String>)
    ensures
        texts(final(dst)@) == texts(old(dst)@) + prefixed(root@, texts(src@)),
{
    let ghost d0 = texts(dst@);
    for i in 0..src.len()
        invariant
            texts(dst@) == d0 + prefixed(root@, texts(src@.take(i as int))),
    {
        let ghost before = dst@;
        let item = if root.is_empty() {
            src[i].clone()
        } else {
            join_with_slash(root, src[i].as_str())
        };
        let ghost item_text = item@;
        dst.push(item);
        let ghost pre = texts(src@.take(i as int));
        assert(texts(src@.take(i + 1)) =~= pre.push(src@[i as int]@));
        assert(prefixed(root@, pre.push(src@[i as int]@)) =~= prefixed(root@, pre).push(item_text));
        assert(texts(dst@) =~= texts(before).push(item_text));
    }
    assert(src@.take(src@.len() as int) =~= src@);
}

impl Toc {
    /// An empty table.
    pub fn new() -> (r: Toc)
        ensures
            r@ == empty_toc(),
    {
        let r = Toc {
            dirs: Vec::new(),
            files: Vec::new(),
            symlinks: Vec::new(),
            other: Vec::new(),
            errors: Vec::new(),
        };
        assert(r@.dirs =~= Seq::<Seq<char>>::empty());
        assert(r@.files =~= Seq::<Seq<char>>::empty());
        assert(r@.symlinks =~= Seq::<Seq<char>>::empty());
        assert(r@.other =~= Seq::<Seq<char>>::empty());
        assert(r@.errors =~= Seq::<Seq<char>>::empty());
        r
    }

    /// Takes an owned table as it is.
    pub fn from_owned(toc: Toc) -> (r: Toc)
        ensures
            r == toc,
    {
        toc
    }

    /// A copy of the directory names.
    pub fn dirs(&self) -> (r: Vec<String>)
        ensures
            r@ == self.dirs@,
    {
        copy_strings(&self.dirs)
    }

    /// A copy of the file names.
    pub fn files(&self) -> (r: Vec<String>)
        ensures
            r@ == self.files@,
    {
        copy_strings(&self.files)
    }

    /// A copy of the symbolic link names.
    pub fn symlinks(&self) -> (r: Vec<String>)
        ensures
            r@ == self.symlinks@,
    {
        copy_strings(&self.symlinks)
    }

    /// A copy of the names of other entries.
    pub fn other(&self) -> (r: Vec<String>)
        ensures
            r@ == self.other@,
    {
        copy_strings(&self.other)
    }

    /// A copy of the errors.
    pub fn errors(&self) -> (r: Vec<String>)
        ensures
            r@ == self.errors@,
    {
        copy_strings(&self.errors)
    }

    /// Whether all five lists are empty.
    pub fn is_empty(&self) -> (r: bool)
        ensures
            r == (self.dirs@.len() == 0 && self.files@.len() == 0 && self.symlinks@.len() == 0
                && self.other@.len() == 0 && self.errors@.len() == 0),
    {
        self.dirs.len() == 0 && self.files.len() == 0 && self.symlinks.len() == 0
            && self.other.len() == 0 && self.errors.len() == 0
    }

    /// Appends the entries of `other` to this table, each placed below
    /// `root_dir` (`root_dir/name`), or as they are when `root_dir` is empty.
    pub fn extend(&mut self, root_dir: &str, other: &Toc)
        ensures
            final(self)@ == toc_extended(old(self)@, root_dir@, other@),
    {
        append_prefixed(&mut self.dirs, root_dir, &other.dirs);
        append_prefixed(&mut self.files, root_dir, &other.files);
        append_prefixed(&mut self.symlinks, root_dir, &other.symlinks);
        append_prefixed(&mut self.other, root_dir, &other.other);
        append_prefixed(&mut self.errors, root_dir, &other.errors);
    }
}

impl Clone for Toc {
    fn clone(&self) -> (r: Self)
        ensures
            r.dirs@ == self.dirs@,
            r.files@ == self.files@,
            r.symlinks@ == self.symlinks@,
            r.other@ == self.other@,
            r.errors@ == self.errors@,
    {
        Toc {
            dirs: copy_strings(&self.dirs),
            files: copy_strings(&self.files),
            symlinks: copy_strings(&self.symlinks),
            other: copy_strings(&self.other),
            errors: copy_strings(&self.errors),
        }
    }
}

impl Default for Toc {
    fn default() -> (r: Self)
        ensures
            r@ == empty_toc(),
    {
        Toc::new()
    }
}

} // verus!
