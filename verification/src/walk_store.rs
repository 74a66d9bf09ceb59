//! What a walk keeps of its results between calls.

use vstd::prelude::*;

use crate::stats::Statistics;
use crate::scan::MAX_STORED_ERRORS;
use crate::scan_store::errors_kept_after;
use crate::toc::{cap_errors, capped, capped_toc, texts, Toc, TocView};
use crate::toc::law_extend_lengths;
use crate::walk::{copy_listing, listing_views, merged};

verus! {

/// The listings a walk has received and kept.
#[derive(Debug)]
pub struct WalkStore {
    /// Whether received listings are kept.
    pub store: bool,
    /// The kept listings.
    pub entries: Vec<(String, Toc)>,
    /// Whether a received listing held an error.
    pub has_errors: bool,
}

/// Whether some listing of `s` holds an error.
pub open spec fn any_errors(s: Seq<(Seq<char>, TocView)>) -> bool {
    exists|i: int| 0 <= i < s.len() && (#[trigger] s[i]).1.errors.len() > 0
}

/// The sum of `f` over the tables of `s`.
pub open spec fn sum_over(s: Seq<(Seq<char>, TocView)>, f: spec_fn(TocView) -> int) -> int
    decreases s.len(),
{
    if s.len() == 0 {
        0
    } else {
        sum_over(s.drop_last(), f) + f(s.last().1)
    }
}

/// All errors of the tables of `s`, in order.
pub open spec fn all_errors(s: Seq<(Seq<char>, TocView)>) -> Seq<Seq<char>>
    decreases s.len(),
{
    if s.len() == 0 {
        Seq::empty()
    } else {
        all_errors(s.drop_last()) + s.last().1.errors
    }
}

/// Each error of the tables of `s` with the key of its listing, in order.
pub open spec fn keyed_errors(s: Seq<(Seq<char>, TocView)>) -> Seq<(Seq<char>, Seq<char>)>
    decreases s.len(),
{
    if s.len() == 0 {
        Seq::empty()
    } else {
        keyed_errors(s.drop_last()) + s.last().1.errors.map_values(|e: Seq<char>| (s.last().0, e))
    }
}

proof fn lemma_all_errors_prefix(s: Seq<(Seq<char>, TocView)>, k: int)
    requires
        0 <= k <= s.len(),
    ensures
        all_errors(s.take(k)).len() <= all_errors(s).len(),
        k < s.len() ==> all_errors(s.take(k + 1)) == all_errors(s.take(k)) + s[k].1.errors,
    decreases s.len(),
{
    if k < s.len() {
        assert(s.take(k + 1).drop_last() =~= s.take(k));
        assert(s.take(k + 1).last() == s[k]);
    }
    if k == s.len() {
        assert(s.take(k) =~= s);
    } else {
        assert(s.drop_last().take(k) =~= s.take(k));
        lemma_all_errors_prefix(s.drop_last(), k);
    }
}

/// Each error of the listings is reported once, in order, with the key of
/// the listing that holds it: the `j`-th error of the `i`-th listing is
/// paired with that listing's key, at the place the errors before it leave.
pub proof fn law_errors_keyed_by_their_listing(s: Seq<(Seq<char>, TocView)>)
    ensures
        keyed_errors(s).len() == all_errors(s).len(),
        forall|i: int, j: int|
            0 <= i < s.len() && 0 <= j < s[i].1.errors.len() ==> #[trigger] keyed_errors(s)[all_errors(
                s.take(i),
            ).len() + j] == (s[i].0, #[trigger] s[i].1.errors[j]),
    decreases s.len(),
{
    if s.len() > 0 {
        let d = s.drop_last();
        let l = s.last();
        law_errors_keyed_by_their_listing(d);
        assert(s.take(d.len() as int) =~= d);
        assert forall|i: int, j: int|
            0 <= i < s.len() && 0 <= j < s[i].1.errors.len() implies #[trigger] keyed_errors(s)[all_errors(
                s.take(i),
            ).len() + j] == (s[i].0, #[trigger] s[i].1.errors[j]) by {
            if i < d.len() {
                assert(d.take(i) =~= s.take(i));
                assert(d[i] == s[i]);
                lemma_all_errors_prefix(d, i);
                lemma_all_errors_prefix(d, i + 1);
                assert(keyed_errors(d)[all_errors(d.take(i)).len() + j] == (d[i].0, d[i].1.errors[j]));
            } else {
                assert(s[i] == l);
            }
        }
    }
}

pub open spec fn n_dirs(t: TocView) -> int {
    t.dirs.len() as int
}

pub open spec fn n_files(t: TocView) -> int {
    t.files.len() as int
}

pub open spec fn n_symlinks(t: TocView) -> int {
    t.symlinks.len() as int
}

pub open spec fn n_other(t: TocView) -> int {
    t.other.len() as int
}

pub open spec fn n_errors(t: TocView) -> int {
    t.errors.len() as int
}

proof fn lemma_sum_prefix(s: Seq<(Seq<char>, TocView)>, f: spec_fn(TocView) -> int, k: int)
    requires
        0 <= k <= s.len(),
        forall|t: TocView| #[trigger] f(t) >= 0,
    ensures
        0 <= sum_over(s.take(k), f) <= sum_over(s, f),
    decreases s.len(),
{
    if k == s.len() {
        assert(s.take(k) =~= s);
        if s.len() > 0 {
            lemma_sum_prefix(s.drop_last(), f, k - 1);
        }
    } else {
        assert(s.drop_last().take(k) =~= s.take(k));
        lemma_sum_prefix(s.drop_last(), f, k);
    }
}

/// The table a walk collects (all listings merged) holds as many names of
/// each type, and as many errors, as the walk's statistics count.
pub proof fn law_merged_counts_match_statistics(s: Seq<(Seq<char>, TocView)>)
    ensures
        merged(s).dirs.len() == sum_over(s, |t: TocView| n_dirs(t)),
        merged(s).files.len() == sum_over(s, |t: TocView| n_files(t)),
        merged(s).symlinks.len() == sum_over(s, |t: TocView| n_symlinks(t)),
        merged(s).other.len() == sum_over(s, |t: TocView| n_other(t)),
        merged(s).errors.len() == all_errors(s).len(),
        capped_toc(merged(s)).errors.len() == capped(all_errors(s)).len(),
    decreases s.len(),
{
    if s.len() > 0 {
        law_merged_counts_match_statistics(s.drop_last());
        law_extend_lengths(merged(s.drop_last()), s.last().0, s.last().1);
    }
}

/// A listing with only as many of its errors as there is room for (none
/// when there is no room).
pub open spec fn with_room(l: (Seq<char>, TocView), room: int) -> (Seq<char>, TocView) {
    let errors = if room <= 0 {
        Seq::empty()
    } else if l.1.errors.len() <= room {
        l.1.errors
    } else {
        l.1.errors.take(room)
    };
    (l.0, TocView { errors, ..l.1 })
}

/// The listings a storing store keeps after `received` ones arrive: each
/// received listing keeps its names, and only as many errors as leave the
/// kept listings with at most `MAX_STORED_ERRORS` errors in all.
pub open spec fn listings_kept_after(kept: Seq<(Seq<char>, TocView)>, received: Seq<(Seq<char>, TocView)>) -> Seq<(Seq<char>, TocView)>
    decreases received.len(),
{
    if received.len() == 0 {
        kept
    } else {
        let k = listings_kept_after(kept, received.drop_last());
        k.push(with_room(received.last(), MAX_STORED_ERRORS - all_errors(k).len()))
    }
}

/// What a store keeps after receiving listings: when storing, the kept
/// listings and the received ones, errors capped in all.
pub open spec fn listings_stored(store: bool, kept: Seq<(Seq<char>, TocView)>, received: Seq<(Seq<char>, TocView)>) -> Seq<(Seq<char>, TocView)> {
    if store {
        listings_kept_after(kept, received)
    } else {
        kept
    }
}

/// What a call for listings gives: everything stored when asked for more
/// than the new listings while storing, else the received listings.
pub open spec fn listings_given(store: bool, kept: Seq<(Seq<char>, TocView)>, received: Seq<(Seq<char>, TocView)>, only_new: bool) -> Seq<(Seq<char>, TocView)> {
    if !only_new && store {
        listings_stored(store, kept, received)
    } else {
        received
    }
}

/// What a store keeps after a call for listings: nothing when it gave
/// everything, else what it stored.
pub open spec fn listings_left(store: bool, kept: Seq<(Seq<char>, TocView)>, received: Seq<(Seq<char>, TocView)>, only_new: bool) -> Seq<(Seq<char>, TocView)> {
    if !only_new && store {
        Seq::empty()
    } else {
        listings_stored(store, kept, received)
    }
}

proof fn lemma_all_errors_push(k: Seq<(Seq<char>, TocView)>, l: (Seq<char>, TocView))
    ensures
        all_errors(k.push(l)) == all_errors(k) + l.1.errors,
{
    assert(k.push(l).drop_last() =~= k);
}

/// The kept listings keep their names in order, and the errors a store keeps
/// in all never grow past `MAX_STORED_ERRORS` (nor past what it held).
pub proof fn law_stored_listings_capped(kept: Seq<(Seq<char>, TocView)>, received: Seq<(Seq<char>, TocView)>)
    ensures
        listings_kept_after(kept, received).len() == kept.len() + received.len(),
        all_errors(listings_kept_after(kept, received)).len() <= if all_errors(kept).len() > MAX_STORED_ERRORS {
            all_errors(kept).len() as int
        } else {
            MAX_STORED_ERRORS as int
        },
        forall|i: int| 0 <= i < kept.len() ==> #[trigger] listings_kept_after(kept, received)[i] == kept[i],
        forall|j: int| 0 <= j < received.len() ==> {
            let l = #[trigger] listings_kept_after(kept, received)[kept.len() + j];
            &&& l.0 == received[j].0
            &&& l.1.dirs == received[j].1.dirs
            &&& l.1.files == received[j].1.files
            &&& l.1.symlinks == received[j].1.symlinks
            &&& l.1.other == received[j].1.other
            &&& received[j].1.errors.take(l.1.errors.len() as int) == l.1.errors
        },
    decreases received.len(),
{
    if received.len() > 0 {
        let r0 = received.drop_last();
        law_stored_listings_capped(kept, r0);
        let k = listings_kept_after(kept, r0);
        let x = with_room(received.last(), MAX_STORED_ERRORS - all_errors(k).len());
        lemma_all_errors_push(k, x);
        assert forall|j: int| 0 <= j < received.len() implies {
            let l = #[trigger] listings_kept_after(kept, received)[kept.len() + j];
            &&& l.0 == received[j].0
            &&& l.1.dirs == received[j].1.dirs
            &&& l.1.files == received[j].1.files
            &&& l.1.symlinks == received[j].1.symlinks
            &&& l.1.other == received[j].1.other
            &&& received[j].1.errors.take(l.1.errors.len() as int) == l.1.errors
        } by {
            if j < r0.len() {
                assert(listings_kept_after(kept, received)[kept.len() + j] == k[kept.len() + j]);
                assert(r0[j] == received[j]);
            } else {
                assert(listings_kept_after(kept, received)[kept.len() + j] == x);
                let e = received[j].1.errors;
                assert(e.take(x.1.errors.len() as int) =~= x.1.errors);
            }
        }
        assert forall|i: int| 0 <= i < kept.len() implies #[trigger] listings_kept_after(kept, received)[i] == kept[i] by {
            assert(listings_kept_after(kept, received)[i] == k[i]);
        }
    }
}

/// While storing, listings received over two calls are kept as if received
/// in one.
pub proof fn law_listings_accumulate(
    kept: Seq<(Seq<char>, TocView)>,
    first: Seq<(Seq<char>, TocView)>,
    second: Seq<(Seq<char>, TocView)>,
)
    ensures
        listings_kept_after(listings_kept_after(kept, first), second) == listings_kept_after(kept, first + second),
    decreases second.len(),
{
    if second.len() == 0 {
        assert(first + second =~= first);
    } else {
        law_listings_accumulate(kept, first, second.drop_last());
        assert((first + second).drop_last() =~= first + second.drop_last());
        assert((first + second).last() == second.last());
    }
}

/// A store keeps every name it receives: each count over the kept listings
/// is the count over the listings held before plus that over those received.
pub proof fn law_kept_counts(kept: Seq<(Seq<char>, TocView)>, received: Seq<(Seq<char>, TocView)>)
    ensures
        sum_over(listings_kept_after(kept, received), |t: TocView| n_dirs(t)) == sum_over(kept, |t: TocView| n_dirs(t))
            + sum_over(received, |t: TocView| n_dirs(t)),
        sum_over(listings_kept_after(kept, received), |t: TocView| n_files(t)) == sum_over(kept, |t: TocView| n_files(t))
            + sum_over(received, |t: TocView| n_files(t)),
        sum_over(listings_kept_after(kept, received), |t: TocView| n_symlinks(t)) == sum_over(
            kept,
            |t: TocView| n_symlinks(t),
        ) + sum_over(received, |t: TocView| n_symlinks(t)),
        sum_over(listings_kept_after(kept, received), |t: TocView| n_other(t)) == sum_over(kept, |t: TocView| n_other(t))
            + sum_over(received, |t: TocView| n_other(t)),
    decreases received.len(),
{
    if received.len() > 0 {
        let r0 = received.drop_last();
        law_kept_counts(kept, r0);
        let k = listings_kept_after(kept, r0);
        let x = with_room(received.last(), MAX_STORED_ERRORS - all_errors(k).len());
        assert(k.push(x).drop_last() =~= k);
    }
}

/// The errors a store keeps are the first `MAX_STORED_ERRORS` of those it
/// held and those it received, in order.
pub proof fn law_kept_errors(kept: Seq<(Seq<char>, TocView)>, received: Seq<(Seq<char>, TocView)>)
    requires
        all_errors(kept).len() <= MAX_STORED_ERRORS,
    ensures
        all_errors(listings_kept_after(kept, received)) == errors_kept_after(all_errors(kept), all_errors(received)),
    decreases received.len(),
{
    let a = all_errors(kept);
    if received.len() == 0 {
        assert(a + all_errors(received) =~= a);
    } else {
        let r0 = received.drop_last();
        law_kept_errors(kept, r0);
        let k = listings_kept_after(kept, r0);
        let kk = all_errors(k);
        let x0 = all_errors(r0);
        let e = received.last().1.errors;
        let x = with_room(received.last(), MAX_STORED_ERRORS - kk.len());
        lemma_all_errors_push(k, x);
        assert(all_errors(received) == x0 + e);
        assert(a + (x0 + e) =~= (a + x0) + e);
        if (a + x0).len() >= MAX_STORED_ERRORS {
            assert(kk =~= (a + x0).take(MAX_STORED_ERRORS as int));
            assert(x.1.errors =~= Seq::<Seq<char>>::empty());
            assert(kk + x.1.errors =~= ((a + x0) + e).take(MAX_STORED_ERRORS as int));
        } else {
            assert(kk =~= a + x0);
            if e.len() <= MAX_STORED_ERRORS - kk.len() {
                assert(kk + x.1.errors =~= (a + x0) + e);
            } else {
                assert(kk + x.1.errors =~= ((a + x0) + e).take(MAX_STORED_ERRORS as int));
            }
        }
    }
}

/// Over two calls for new listings on a storing store that held nothing, the
/// walk's statistics count every name received and the first
/// `MAX_STORED_ERRORS` errors received, in order, as if the listings had come
/// in one call.
pub proof fn law_statistics_over_calls(first: Seq<(Seq<char>, TocView)>, second: Seq<(Seq<char>, TocView)>)
    ensures
        ({
            let kept = listings_left(true, listings_left(true, Seq::empty(), first, true), second, true);
            &&& kept == listings_kept_after(Seq::empty(), first + second)
            &&& sum_over(kept, |t: TocView| n_dirs(t)) == sum_over(first + second, |t: TocView| n_dirs(t))
            &&& sum_over(kept, |t: TocView| n_files(t)) == sum_over(first + second, |t: TocView| n_files(t))
            &&& sum_over(kept, |t: TocView| n_symlinks(t)) == sum_over(first + second, |t: TocView| n_symlinks(t))
            &&& sum_over(kept, |t: TocView| n_other(t)) == sum_over(first + second, |t: TocView| n_other(t))
            &&& capped(all_errors(kept)) == capped(all_errors(first + second))
        }),
{
    let empty = Seq::<(Seq<char>, TocView)>::empty();
    law_listings_accumulate(empty, first, second);
    law_kept_counts(empty, first + second);
    assert(all_errors(empty).len() == 0);
    law_kept_errors(empty, first + second);
    let all = all_errors(first + second);
    assert(all_errors(empty) + all =~= all);
}

/// Listings without errors are kept whole, whatever the store held.
pub proof fn law_error_free_listings_kept_whole(kept: Seq<(Seq<char>, TocView)>, received: Seq<(Seq<char>, TocView)>)
    requires
        forall|i: int| 0 <= i < received.len() ==> (#[trigger] received[i]).1.errors.len() == 0,
    ensures
        listings_kept_after(kept, received) == kept + received,
    decreases received.len(),
{
    if received.len() == 0 {
        assert(kept + received =~= kept);
    } else {
        let r0 = received.drop_last();
        assert forall|i: int| 0 <= i < r0.len() implies (#[trigger] r0[i]).1.errors.len() == 0 by {
            assert(r0[i] == received[i]);
        }
        law_error_free_listings_kept_whole(kept, r0);
        let l = received.last();
        assert(received[received.len() - 1] == l);
        let k = listings_kept_after(kept, r0);
        assert(l.1.errors.len() == 0);
        assert(with_room(l, MAX_STORED_ERRORS - all_errors(k).len()).1.errors =~= l.1.errors);
        assert(with_room(l, MAX_STORED_ERRORS - all_errors(k).len()) == l);
        assert((kept + r0).push(l) =~= kept + received);
    }
}

/// Merging the kept listings gives every name that merging the listings as
/// held and received gives: a store drops errors only.
pub proof fn law_kept_listings_merge_names(kept: Seq<(Seq<char>, TocView)>, received: Seq<(Seq<char>, TocView)>)
    ensures
        merged(listings_kept_after(kept, received)).dirs == merged(kept + received).dirs,
        merged(listings_kept_after(kept, received)).files == merged(kept + received).files,
        merged(listings_kept_after(kept, received)).symlinks == merged(kept + received).symlinks,
        merged(listings_kept_after(kept, received)).other == merged(kept + received).other,
    decreases received.len(),
{
    if received.len() == 0 {
        assert(kept + received =~= kept);
    } else {
        let r0 = received.drop_last();
        law_kept_listings_merge_names(kept, r0);
        let k = listings_kept_after(kept, r0);
        let x = with_room(received.last(), MAX_STORED_ERRORS - all_errors(k).len());
        assert(k.push(x).drop_last() =~= k);
        assert((kept + received).drop_last() =~= kept + r0);
        assert((kept + received).last() == received.last());
    }
}

/// A timed collect that starts with both stores empty loses no listing: the
/// received listings are held by exactly one of the two stores (this one when
/// it stores, else `gathered`), and the listings it merges at the end are
/// those of one store that received everything at once. Their merge holds
/// every name received; when no listing holds an error, the listings are
/// exactly those received.
pub proof fn law_timed_walk_collect_keeps_every_listing(
    store: bool,
    first: Seq<(Seq<char>, TocView)>,
    last: Seq<(Seq<char>, TocView)>,
)
    ensures
        ({
            let e0 = Seq::<(Seq<char>, TocView)>::empty();
            let held = if store {
                listings_stored(store, e0, first)
            } else {
                listings_stored(!store, e0, first)
            };
            let given = listings_kept_after(held, last);
            &&& listings_stored(store, e0, first) + listings_stored(!store, e0, first) == listings_kept_after(
                e0,
                first,
            )
            &&& given == listings_kept_after(e0, first + last)
            &&& merged(given).dirs == merged(first + last).dirs
            &&& merged(given).files == merged(first + last).files
            &&& merged(given).symlinks == merged(first + last).symlinks
            &&& merged(given).other == merged(first + last).other
            &&& (forall|i: int| 0 <= i < (first + last).len() ==> (#[trigger] (first + last)[i]).1.errors.len() == 0)
                ==> given == first + last
        }),
{
    let e0 = Seq::<(Seq<char>, TocView)>::empty();
    law_listings_accumulate(e0, first, last);
    law_kept_listings_merge_names(e0, first + last);
    assert(e0 + (first + last) =~= first + last);
    assert(listings_kept_after(e0, first) + e0 =~= listings_kept_after(e0, first));
    assert(e0 + listings_kept_after(e0, first) =~= listings_kept_after(e0, first));
    if forall|i: int| 0 <= i < (first + last).len() ==> (#[trigger] (first + last)[i]).1.errors.len() == 0 {
        law_error_free_listings_kept_whole(e0, first + last);
    }
}

/// Copies of the listings of `src` kept after those of `dst`, with the errors
/// capped as `listings_kept_after` says.
fn keep_listings(dst: &mut Vec<(String, Toc)>, src: &Vec<(String, Toc)>)
    ensures
        listing_views(final(dst)@) == listings_kept_after(listing_views(old(dst)@), listing_views(src@)),
{
    let ghost d0 = listing_views(dst@);
    let ghost sv = listing_views(src@);
    let mut n: usize = 0;
    for i in 0..dst.len()
        invariant
            d0 == listing_views(dst@),
            n <= MAX_STORED_ERRORS,
            n == if all_errors(d0.take(i as int)).len() > MAX_STORED_ERRORS {
                MAX_STORED_ERRORS as int
            } else {
                all_errors(d0.take(i as int)).len() as int
            },
    {
        assert(d0.take(i + 1).drop_last() =~= d0.take(i as int));
        assert(d0[i as int].1 == dst@[i as int].1@);
        let len = dst[i].1.errors.len();
        if len > MAX_STORED_ERRORS - n {
            n = MAX_STORED_ERRORS;
        } else {
            n = n + len;
        }
    }
    assert(d0.take(d0.len() as int) =~= d0);
    for i in 0..src.len()
        invariant
            sv == listing_views(src@),
            listing_views(dst@) == listings_kept_after(d0, sv.take(i as int)),
            n <= MAX_STORED_ERRORS,
            n == if all_errors(listing_views(dst@)).len() > MAX_STORED_ERRORS {
                MAX_STORED_ERRORS as int
            } else {
                all_errors(listing_views(dst@)).len() as int
            },
    {
        let ghost k = listing_views(dst@);
        assert(sv.take(i + 1).drop_last() =~= sv.take(i as int));
        let (key, toc) = copy_listing(&src[i]);
        let mut toc = toc;
        let ghost e0 = toc.errors@;
        toc.errors.truncate(MAX_STORED_ERRORS - n);
        let ghost x = with_room(sv[i as int], MAX_STORED_ERRORS - all_errors(k).len());
        assert(texts(toc.errors@) =~= x.1.errors);
        assert((key@, toc@) == x);
        let kept_now = toc.errors.len();
        dst.push((key, toc));
        assert(listing_views(dst@) =~= k.push(x));
        proof {
            lemma_all_errors_push(k, x);
        }
        n = n + kept_now;
    }
    assert(sv.take(sv.len() as int) =~= sv);
}

/// Whether the walk's statistics can be counted in `i32` fields.
pub open spec fn listing_counts_fit(s: Seq<(Seq<char>, TocView)>) -> bool {
    &&& sum_over(s, |t: TocView| n_dirs(t)) <= i32::MAX
    &&& sum_over(s, |t: TocView| n_files(t)) <= i32::MAX
    &&& sum_over(s, |t: TocView| n_symlinks(t)) <= i32::MAX
    &&& sum_over(s, |t: TocView| n_other(t)) <= i32::MAX
}

/// What a store keeps after receiving `received`: the kept items plus, when
/// storing, the received ones.
pub open spec fn stored<T>(store: bool, kept: Seq<T>, received: Seq<T>) -> Seq<T> {
    if store {
        kept + received
    } else {
        kept
    }
}

/// What a call for results gives: everything stored when asked for more than
/// the new results while storing, else the received items.
pub open spec fn results_given<T>(store: bool, kept: Seq<T>, received: Seq<T>, only_new: bool) -> Seq<T> {
    if !only_new && store {
        stored(store, kept, received)
    } else {
        received
    }
}

/// What a store keeps after a call for results: nothing when it gave
/// everything, else what it stored.
pub open spec fn results_kept<T>(store: bool, kept: Seq<T>, received: Seq<T>, only_new: bool) -> Seq<T> {
    if !only_new && store {
        Seq::empty()
    } else {
        stored(store, kept, received)
    }
}

/// While storing, a call for all results gives back, in order, everything
/// received since the store was last emptied (here: over two calls, the first
/// for new results only), and empties the store.
pub proof fn law_stored_results_accumulate<T>(kept: Seq<T>, first: Seq<T>, second: Seq<T>)
    ensures
        results_given(true, kept, first, true) == first,
        results_given(true, results_kept(true, kept, first, true), second, false) == kept + first + second,
        results_kept(true, results_kept(true, kept, first, true), second, false).len() == 0,
{
    assert(kept + first + second =~= stored(true, stored(true, kept, first), second));
}

/// Without storing, every call for results gives exactly the received items
/// and the store keeps what it had.
pub proof fn law_unstored_results_pass_through<T>(kept: Seq<T>, received: Seq<T>, only_new: bool)
    ensures
        results_given(false, kept, received, only_new) == received,
        results_kept(false, kept, received, only_new) == kept,
{
}

impl WalkStore {
    /// Nothing received yet.
    pub fn new(store: bool) -> (r: WalkStore)
        ensures
            r.store == store,
            r.entries@.len() == 0,
            !r.has_errors,
    {
        WalkStore { store, entries: Vec::new(), has_errors: false }
    }

    /// Forgets the kept listings and errors.
    pub fn clear(&mut self)
        ensures
            final(self).store == old(self).store,
            final(self).entries@.len() == 0,
            !final(self).has_errors,
    {
        self.entries.clear();
        self.has_errors = false;
    }

    fn note_errors(&mut self, received: &Vec<(String, Toc)>)
        ensures
            final(self).store == old(self).store,
            final(self).entries@ == old(self).entries@,
            final(self).has_errors == (old(self).has_errors || any_errors(listing_views(received@))),
    {
        let ghost v = listing_views(received@);
        for i in 0..received.len()
            invariant
                v == listing_views(received@),
                self.store == old(self).store,
                self.entries@ == old(self).entries@,
                self.has_errors == (old(self).has_errors || any_errors(v.take(i as int))),
        {
            assert(v[i as int].1 == received@[i as int].1@);
            if received[i].1.errors.len() != 0 {
                assert(v.take(i + 1)[i as int] == v[i as int]);
                self.has_errors = true;
            }
            assert(any_errors(v.take(i + 1)) == (any_errors(v.take(i as int)) || v[i as int].1.errors.len() > 0)) by {
                if any_errors(v.take(i + 1)) {
                    let j = choose|j: int| 0 <= j < i + 1 && (#[trigger] v.take(i + 1)[j]).1.errors.len() > 0;
                    if j < i {
                        assert(v.take(i as int)[j] == v.take(i + 1)[j]);
                    }
                }
                if any_errors(v.take(i as int)) {
                    let j = choose|j: int| 0 <= j < i && (#[trigger] v.take(i as int)[j]).1.errors.len() > 0;
                    assert(v.take(i as int)[j] == v.take(i + 1)[j]);
                }
                if v[i as int].1.errors.len() > 0 {
                    assert(v.take(i + 1)[i as int] == v[i as int]);
                }
            }
        }
        assert(v.take(v.len() as int) =~= v);
    }

    /// Takes the newly received listings: notes whether they hold errors and
    /// keeps copies when storing (their errors only while fewer than
    /// `MAX_STORED_ERRORS` are kept in all). Returns all kept listings (and
    /// keeps none from then on) when asked for more than the new ones while
    /// storing; else returns the new listings.
    pub fn results(&mut self, received: Vec<(String, Toc)>, only_new: bool) -> (r: Vec<(String, Toc)>)
        ensures
            final(self).store == old(self).store,
            final(self).has_errors == (old(self).has_errors || any_errors(listing_views(received@))),
            listing_views(r@) == listings_given(
                old(self).store,
                listing_views(old(self).entries@),
                listing_views(received@),
                only_new,
            ),
            listing_views(final(self).entries@) == listings_left(
                old(self).store,
                listing_views(old(self).entries@),
                listing_views(received@),
                only_new,
            ),
            all_errors(listing_views(old(self).entries@)).len() <= MAX_STORED_ERRORS ==> all_errors(
                listing_views(final(self).entries@),
            ).len() <= MAX_STORED_ERRORS,
            all_errors(listing_views(old(self).entries@)).len() <= MAX_STORED_ERRORS && !only_new
                && old(self).store ==> all_errors(listing_views(r@)).len() <= MAX_STORED_ERRORS,
    {
        proof {
            law_stored_listings_capped(listing_views(self.entries@), listing_views(received@));
        }
        self.note_errors(&received);
        if self.store {
            keep_listings(&mut self.entries, &received);
        }
        if !only_new && self.store {
            let mut all: Vec<(String, Toc)> = Vec::new();
            std::mem::swap(&mut all, &mut self.entries);
            assert(listing_views(self.entries@) =~= Seq::empty());
            assert(all_errors(Seq::<(Seq<char>, TocView)>::empty()).len() == 0);
            return all;
        }
        received
    }

    /// Takes the listings received while a timed collect waits for the walk
    /// to end: taken here as `results` takes new listings, and, when this
    /// store does not store, kept in `gathered` instead, so that none is lost.
    pub fn gather(&mut self, gathered: &mut WalkStore, received: Vec<(String, Toc)>)
        ensures
            final(self).store == old(self).store,
            final(self).has_errors == (old(self).has_errors || any_errors(listing_views(received@))),
            listing_views(final(self).entries@) == listings_stored(
                old(self).store,
                listing_views(old(self).entries@),
                listing_views(received@),
            ),
            final(gathered).store == old(gathered).store,
            final(gathered).has_errors == old(gathered).has_errors,
            listing_views(final(gathered).entries@) == listings_stored(
                !old(self).store,
                listing_views(old(gathered).entries@),
                listing_views(received@),
            ),
    {
        let received = self.results(received, true);
        if !self.store {
            keep_listings(&mut gathered.entries, &received);
        }
    }

    /// What a timed collect merges once the walk has ended: the listings kept
    /// so far (here when storing, else in `gathered`) followed by the last
    /// received ones, errors capped as a storing store caps them. A storing
    /// store keeps nothing afterwards.
    pub fn finish_gathering(&mut self, gathered: WalkStore, received: Vec<(String, Toc)>) -> (r: Vec<(String, Toc)>)
        ensures
            final(self).store == old(self).store,
            final(self).has_errors == (old(self).has_errors || any_errors(listing_views(received@))),
            listing_views(r@) == listings_kept_after(
                if old(self).store {
                    listing_views(old(self).entries@)
                } else {
                    listing_views(gathered.entries@)
                },
                listing_views(received@),
            ),
            listing_views(final(self).entries@) == listings_left(
                old(self).store,
                listing_views(old(self).entries@),
                listing_views(received@),
                false,
            ),
    {
        let received = self.results(received, false);
        if self.store {
            received
        } else {
            let mut gathered = gathered;
            keep_listings(&mut gathered.entries, &received);
            gathered.entries
        }
    }

    /// Whether there are results: new ones waiting in the channel, or (unless
    /// only new ones count) kept ones.
    pub fn has_results(&self, only_new: bool, channel_has_items: bool) -> (r: bool)
        ensures
            r == (channel_has_items || (!only_new && self.entries@.len() > 0)),
    {
        if channel_has_items {
            return true;
        }
        if only_new {
            return false;
        }
        self.entries.len() != 0
    }

    /// The number of results: those waiting in the channel (when there is
    /// one), plus the kept ones unless only new ones count.
    pub fn results_cnt(&self, only_new: bool, channel_len: Option<usize>) -> (r: usize)
        requires
            channel_len matches Some(n) ==> self.entries@.len() + n <= usize::MAX,
        ensures
            r == match channel_len {
                Some(n) => if only_new {
                    n as int
                } else {
                    self.entries@.len() + n
                },
                None => self.entries@.len() as int,
            },
    {
        match channel_len {
            Some(n) => if only_new {
                n
            } else {
                self.entries.len() + n
            },
            None => self.entries.len(),
        }
    }

    /// Whether a received listing held an error.
    pub fn has_errors(&self) -> (r: bool)
        ensures
            r == self.has_errors,
    {
        self.has_errors
    }

    /// The number of errors in the kept listings.
    pub fn errors_cnt(&self) -> (r: usize)
        requires
            sum_over(listing_views(self.entries@), |t: TocView| n_errors(t)) <= usize::MAX,
        ensures
            r == sum_over(listing_views(self.entries@), |t: TocView| n_errors(t)),
    {
        let ghost v = listing_views(self.entries@);
        let ghost f = |t: TocView| n_errors(t);
        let mut n: usize = 0;
        for i in 0..self.entries.len()
            invariant
                v == listing_views(self.entries@),
                f == (|t: TocView| n_errors(t)),
                sum_over(v, f) <= usize::MAX,
                n == sum_over(v.take(i as int), f),
        {
            assert(v.take(i + 1).drop_last() =~= v.take(i as int));
            proof {
                lemma_sum_prefix(v, f, i + 1);
            }
            n = n + self.entries[i].1.errors.len();
        }
        assert(v.take(v.len() as int) =~= v);
        n
    }

    /// Each error of the listings that `results` gives, with the key of its
    /// listing.
    pub fn errors(&mut self, received: Vec<(String, Toc)>, only_new: bool) -> (r: Vec<(String, String)>)
        ensures
            final(self).store == old(self).store,
            r@.map_values(|p: (String, String)| (p.0@, p.1@)) == keyed_errors(
                listings_given(
                    old(self).store,
                    listing_views(old(self).entries@),
                    listing_views(received@),
                    only_new,
                ),
            ),
    {
        let results = self.results(received, only_new);
        let ghost v = listing_views(results@);
        let mut out: Vec<(String, String)> = Vec::new();
        for i in 0..results.len()
            invariant
                v == listing_views(results@),
                out@.map_values(|p: (String, String)| (p.0@, p.1@)) == keyed_errors(v.take(i as int)),
        {
            let (key, toc) = &results[i];
            assert(v.take(i + 1).drop_last() =~= v.take(i as int));
            let ghost start = out@.map_values(|p: (String, String)| (p.0@, p.1@));
            for j in 0..toc.errors.len()
                invariant
                    v == listing_views(results@),
                    v[i as int] == (key@, toc@),
                    out@.map_values(|p: (String, String)| (p.0@, p.1@)) == start + texts(
                        toc.errors@.take(j as int),
                    ).map_values(|e: Seq<char>| (key@, e)),
            {
                let ghost o0 = out@;
                out.push((key.clone(), toc.errors[j].clone()));
                assert(texts(toc.errors@.take(j + 1)) =~= texts(toc.errors@.take(j as int)).push(
                    toc.errors@[j as int]@,
                ));
                assert(out@.map_values(|p: (String, String)| (p.0@, p.1@)) =~= o0.map_values(
                    |p: (String, String)| (p.0@, p.1@),
                ).push((key@, toc.errors@[j as int]@)));
                assert(out@.map_values(|p: (String, String)| (p.0@, p.1@)) =~= start + texts(
                    toc.errors@.take(j + 1),
                ).map_values(|e: Seq<char>| (key@, e)));
            }
            assert(toc.errors@.take(toc.errors@.len() as int) =~= toc.errors@);
            assert(out@.map_values(|p: (String, String)| (p.0@, p.1@)) =~= keyed_errors(v.take(i + 1)));
        }
        assert(v.take(v.len() as int) =~= v);
        out
    }

    /// Whether the counts of the kept listings fit the `i32` fields of the
    /// statistics.
    pub fn statistics_fit(&self) -> (r: bool)
        ensures
            r == listing_counts_fit(listing_views(self.entries@)),
    {
        let ghost v = listing_views(self.entries@);
        let ghost fd = |t: TocView| n_dirs(t);
        let ghost ff = |t: TocView| n_files(t);
        let ghost fs = |t: TocView| n_symlinks(t);
        let ghost fo = |t: TocView| n_other(t);
        let limit: usize = 2147483647;
        let mut d: usize = 0;
        let mut f: usize = 0;
        let mut l: usize = 0;
        let mut o: usize = 0;
        for i in 0..self.entries.len()
            invariant
                v == listing_views(self.entries@),
                fd == (|t: TocView| n_dirs(t)),
                ff == (|t: TocView| n_files(t)),
                fs == (|t: TocView| n_symlinks(t)),
                fo == (|t: TocView| n_other(t)),
                limit == i32::MAX,
                d == sum_over(v.take(i as int), fd) && d <= limit,
                f == sum_over(v.take(i as int), ff) && f <= limit,
                l == sum_over(v.take(i as int), fs) && l <= limit,
                o == sum_over(v.take(i as int), fo) && o <= limit,
        {
            let toc = &self.entries[i].1;
            assert(v.take(i + 1).drop_last() =~= v.take(i as int));
            proof {
                lemma_sum_prefix(v, fd, i + 1);
                lemma_sum_prefix(v, ff, i + 1);
                lemma_sum_prefix(v, fs, i + 1);
                lemma_sum_prefix(v, fo, i + 1);
            }
            assert(v[i as int].1 == toc@);
            assert(sum_over(v.take(i + 1), fd) == d + toc.dirs@.len());
            assert(sum_over(v.take(i + 1), ff) == f + toc.files@.len());
            assert(sum_over(v.take(i + 1), fs) == l + toc.symlinks@.len());
            assert(sum_over(v.take(i + 1), fo) == o + toc.other@.len());
            if toc.dirs.len() > limit - d || toc.files.len() > limit - f || toc.symlinks.len() > limit - l
                || toc.other.len() > limit - o {
                return false;
            }
            d = d + toc.dirs.len();
            f = f + toc.files.len();
            l = l + toc.symlinks.len();
            o = o + toc.other.len();
        }
        assert(v.take(v.len() as int) =~= v);
        true
    }

    /// Counts the names in the kept listings by type, and gathers their errors.
    pub fn statistics(&self) -> (r: Statistics)
        requires
            listing_counts_fit(listing_views(self.entries@)),
        ensures
            r.dirs == sum_over(listing_views(self.entries@), |t: TocView| n_dirs(t)),
            r.files == sum_over(listing_views(self.entries@), |t: TocView| n_files(t)),
            r.slinks == sum_over(listing_views(self.entries@), |t: TocView| n_symlinks(t)),
            r.devices == sum_over(listing_views(self.entries@), |t: TocView| n_other(t)),
            r.hlinks == 0 && r.pipes == 0 && r.size == 0 && r.usage == 0,
            texts(r.errors@) == capped(all_errors(listing_views(self.entries@))),
            r.errors@.len() <= MAX_STORED_ERRORS,
    {
        let ghost v = listing_views(self.entries@);
        let ghost fd = |t: TocView| n_dirs(t);
        let ghost ff = |t: TocView| n_files(t);
        let ghost fs = |t: TocView| n_symlinks(t);
        let ghost fo = |t: TocView| n_other(t);
        let mut statistics = Statistics::new();
        for i in 0..self.entries.len()
            invariant
                v == listing_views(self.entries@),
                fd == (|t: TocView| n_dirs(t)),
                ff == (|t: TocView| n_files(t)),
                fs == (|t: TocView| n_symlinks(t)),
                fo == (|t: TocView| n_other(t)),
                listing_counts_fit(v),
                statistics.dirs == sum_over(v.take(i as int), fd),
                statistics.files == sum_over(v.take(i as int), ff),
                statistics.slinks == sum_over(v.take(i as int), fs),
                statistics.devices == sum_over(v.take(i as int), fo),
                statistics.hlinks == 0 && statistics.pipes == 0,
                statistics.size == 0 && statistics.usage == 0,
                texts(statistics.errors@) == all_errors(v.take(i as int)),
        {
            let toc = &self.entries[i].1;
            assert(v.take(i + 1).drop_last() =~= v.take(i as int));
            proof {
                lemma_sum_prefix(v, fd, i + 1);
                lemma_sum_prefix(v, ff, i + 1);
                lemma_sum_prefix(v, fs, i + 1);
                lemma_sum_prefix(v, fo, i + 1);
                lemma_sum_prefix(v, fd, i as int);
                lemma_sum_prefix(v, ff, i as int);
                lemma_sum_prefix(v, fs, i as int);
                lemma_sum_prefix(v, fo, i as int);
            }
            assert(v[i as int].1 == toc@);
            assert(sum_over(v.take(i + 1), fd) == sum_over(v.take(i as int), fd) + toc.dirs@.len());
            assert(sum_over(v.take(i + 1), ff) == sum_over(v.take(i as int), ff) + toc.files@.len());
            assert(sum_over(v.take(i + 1), fs) == sum_over(v.take(i as int), fs) + toc.symlinks@.len());
            assert(sum_over(v.take(i + 1), fo) == sum_over(v.take(i as int), fo) + toc.other@.len());
            let nd = toc.dirs.len();
            let nf = toc.files.len();
            let ns = toc.symlinks.len();
            let no = toc.other.len();
            assert(nd <= i32::MAX && nf <= i32::MAX && ns <= i32::MAX && no <= i32::MAX);
            statistics.dirs = statistics.dirs + nd as i32;
            statistics.files = statistics.files + nf as i32;
            statistics.slinks = statistics.slinks + ns as i32;
            statistics.devices = statistics.devices + no as i32;
            let ghost e0 = statistics.errors@;
            let mut errs = copy_strings_vec(&toc.errors);
            statistics.errors.append(&mut errs);
            assert(texts(statistics.errors@) =~= texts(e0) + texts(toc.errors@));
        }
        assert(v.take(v.len() as int) =~= v);
        cap_errors(&mut statistics.errors);
        statistics
    }
}

fn copy_strings_vec(v: &Vec<String>) -> (r: Vec<String>)
    ensures
        r@ == v@,
{
    crate::toc::copy_strings(v)
}

} // verus!
