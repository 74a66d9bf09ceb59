//! What a scan keeps of its results between calls.

use vstd::prelude::*;

use crate::entry::ScandirResult;
use crate::results::ScandirResults;
use crate::stats::{statistics_of, totals, totals_fit, Statistics};
use crate::scan::MAX_STORED_ERRORS;
use crate::toc::capped;
use crate::walk_store::{results_given, results_kept, stored};

verus! {

/// The entries of `s` that are not errors, in order.
pub open spec fn entries_of(s: Seq<ScandirResult>) -> Seq<ScandirResult>
    decreases s.len(),
{
    if s.len() == 0 {
        Seq::empty()
    } else {
        match s.last() {
            ScandirResult::Error(_) => entries_of(s.drop_last()),
            _ => entries_of(s.drop_last()).push(s.last()),
        }
    }
}

/// The errors among `s`, in order.
pub open spec fn errors_of(s: Seq<ScandirResult>) -> Seq<(String, String)>
    decreases s.len(),
{
    if s.len() == 0 {
        Seq::empty()
    } else {
        match s.last() {
            ScandirResult::Error(e) => errors_of(s.drop_last()).push(e),
            _ => errors_of(s.drop_last()),
        }
    }
}

/// Sorting received results loses nothing: every result is an entry or an
/// error.
pub proof fn law_sorting_keeps_every_result(s: Seq<ScandirResult>)
    ensures
        entries_of(s).len() + errors_of(s).len() == s.len(),
    decreases s.len(),
{
    if s.len() > 0 {
        law_sorting_keeps_every_result(s.drop_last());
    }
}

/// The kept errors after `received` ones arrive: appended while fewer than
/// `MAX_STORED_ERRORS` are kept (a store that already holds more keeps what
/// it holds).
pub open spec fn errors_kept_after<T>(kept: Seq<T>, received: Seq<T>) -> Seq<T> {
    let m = if kept.len() > MAX_STORED_ERRORS {
        kept.len()
    } else {
        MAX_STORED_ERRORS as nat
    };
    let all = kept + received;
    if all.len() <= m {
        all
    } else {
        all.take(m as int)
    }
}

/// The errors a store keeps after receiving: capped when storing.
pub open spec fn stored_errors<T>(store: bool, kept: Seq<T>, received: Seq<T>) -> Seq<T> {
    if store {
        errors_kept_after(kept, received)
    } else {
        kept
    }
}

/// The errors a call for results gives: all stored ones when asked for more
/// than the new results while storing, else the received ones.
pub open spec fn errors_given<T>(store: bool, kept: Seq<T>, received: Seq<T>, only_new: bool) -> Seq<T> {
    if !only_new && store {
        stored_errors(store, kept, received)
    } else {
        received
    }
}

/// The errors a store keeps after a call for results.
pub open spec fn errors_left<T>(store: bool, kept: Seq<T>, received: Seq<T>, only_new: bool) -> Seq<T> {
    if !only_new && store {
        Seq::empty()
    } else {
        stored_errors(store, kept, received)
    }
}

/// While storing, errors received over two calls are kept as if received in
/// one, and never more than `MAX_STORED_ERRORS` of them.
pub proof fn law_stored_errors_capped<T>(kept: Seq<T>, first: Seq<T>, second: Seq<T>)
    requires
        kept.len() <= MAX_STORED_ERRORS,
    ensures
        errors_kept_after(errors_kept_after(kept, first), second) == errors_kept_after(kept, first + second),
        errors_kept_after(kept, first).len() <= MAX_STORED_ERRORS,
        errors_kept_after(kept, first + second).len() <= MAX_STORED_ERRORS,
{
    let a = errors_kept_after(kept, first);
    if (kept + first).len() <= MAX_STORED_ERRORS {
        assert(a + second =~= kept + (first + second));
    } else {
        assert((a + second).take(MAX_STORED_ERRORS as int) =~= (kept + (first + second)).take(
            MAX_STORED_ERRORS as int,
        ));
        assert(a =~= (kept + (first + second)).take(MAX_STORED_ERRORS as int));
    }
}

proof fn lemma_sorting_concat(a: Seq<ScandirResult>, b: Seq<ScandirResult>)
    ensures
        entries_of(a + b) == entries_of(a) + entries_of(b),
        errors_of(a + b) == errors_of(a) + errors_of(b),
    decreases b.len(),
{
    if b.len() == 0 {
        assert(a + b =~= a);
        assert(entries_of(a) + entries_of(b) =~= entries_of(a));
        assert(errors_of(a) + errors_of(b) =~= errors_of(a));
    } else {
        lemma_sorting_concat(a, b.drop_last());
        assert((a + b).drop_last() =~= a + b.drop_last());
        assert((a + b).last() == b.last());
        assert(entries_of(a) + entries_of(b.drop_last()).push(b.last()) =~= (entries_of(a) + entries_of(
            b.drop_last(),
        )).push(b.last()));
        assert(errors_of(a) + errors_of(b.drop_last()).push(b.last()->Error_0) =~= (errors_of(a) + errors_of(
            b.drop_last(),
        )).push(b.last()->Error_0));
    }
}

/// Results received over two calls that take them while a timed collect
/// waits are held as if received in one: entries in order, errors up to
/// `MAX_STORED_ERRORS`.
pub proof fn law_gathers_accumulate(
    store: bool,
    kept: Seq<ScandirResult>,
    kept_errors: Seq<(String, String)>,
    first: Seq<ScandirResult>,
    second: Seq<ScandirResult>,
)
    requires
        kept_errors.len() <= MAX_STORED_ERRORS,
    ensures
        stored(store, stored(store, kept, entries_of(first)), entries_of(second)) == stored(
            store,
            kept,
            entries_of(first + second),
        ),
        stored_errors(store, stored_errors(store, kept_errors, errors_of(first)), errors_of(second))
            == stored_errors(store, kept_errors, errors_of(first + second)),
{
    lemma_sorting_concat(first, second);
    law_stored_errors_capped(kept_errors, errors_of(first), errors_of(second));
    assert(kept + entries_of(first) + entries_of(second) =~= kept + (entries_of(first) + entries_of(second)));
}

/// A timed collect that starts with both stores empty loses no result: the
/// received results are held by exactly one of the two stores (this one when
/// it stores, else `gathered`), and the collect returns every entry received
/// while waiting and at the end, in order, with the first
/// `MAX_STORED_ERRORS` errors.
pub proof fn law_timed_collect_keeps_every_result(store: bool, first: Seq<ScandirResult>, last: Seq<ScandirResult>)
    ensures
        ({
            let e0 = Seq::<ScandirResult>::empty();
            let r0 = Seq::<(String, String)>::empty();
            let held = if store {
                stored(store, e0, entries_of(first))
            } else {
                stored(!store, e0, entries_of(first))
            };
            let held_errors = if store {
                stored_errors(store, r0, errors_of(first))
            } else {
                stored_errors(!store, r0, errors_of(first))
            };
            &&& stored(store, e0, entries_of(first)) + stored(!store, e0, entries_of(first)) == entries_of(first)
            &&& held + entries_of(last) == entries_of(first + last)
            &&& errors_kept_after(held_errors, errors_of(last)) == capped(errors_of(first + last))
        }),
{
    let e0 = Seq::<ScandirResult>::empty();
    let r0 = Seq::<(String, String)>::empty();
    lemma_sorting_concat(first, last);
    law_stored_errors_capped(r0, errors_of(first), errors_of(last));
    assert(e0 + entries_of(first) =~= entries_of(first));
    assert(entries_of(first) + e0 =~= entries_of(first));
    assert(r0 + (errors_of(first) + errors_of(last)) =~= errors_of(first) + errors_of(last));
}

/// The results a scan has received and kept.
#[derive(Debug)]
pub struct ScandirStore {
    /// Whether received results are kept.
    pub store: bool,
    /// The kept results.
    pub entries: ScandirResults,
}

/// Sorts received results into entries and errors.
fn sort_received(received: Vec<ScandirResult>) -> (r: ScandirResults)
    ensures
        r.results@ == entries_of(received@),
        r.errors@ == errors_of(received@),
{
    let ghost s = received@;
    let mut results = ScandirResults::new();
    for entry in it: received.into_iter()
        invariant
            it.seq() == s,
            results.results@ == entries_of(s.take(it.index())),
            results.errors@ == errors_of(s.take(it.index())),
    {
        let ghost i = it.index();
        assert(s.take(i + 1).drop_last() =~= s.take(i));
        assert(s.take(i + 1).last() == entry);
        results.push_entry(entry);
    }
    assert(s.take(s.len() as int) =~= s);
    results
}

impl ScandirStore {
    /// Appends received results to the kept ones, errors only while fewer
    /// than `MAX_STORED_ERRORS` are kept.
    fn keep_received(&mut self, results: &ScandirResults)
        ensures
            final(self).store == old(self).store,
            final(self).entries.results@ == old(self).entries.results@ + results.results@,
            final(self).entries.errors@ == errors_kept_after(old(self).entries.errors@, results.errors@),
    {
        let m = if self.entries.errors.len() > MAX_STORED_ERRORS {
            self.entries.errors.len()
        } else {
            MAX_STORED_ERRORS
        };
        self.entries.extend(results);
        self.entries.errors.truncate(m);
    }

    /// Nothing received yet.
    pub fn new(store: bool) -> (r: ScandirStore)
        ensures
            r.store == store,
            r.entries.results@.len() == 0,
            r.entries.errors@.len() == 0,
    {
        ScandirStore { store, entries: ScandirResults::new() }
    }

    /// Forgets the kept results.
    pub fn clear(&mut self)
        ensures
            final(self).store == old(self).store,
            final(self).entries.results@.len() == 0,
            final(self).entries.errors@.len() == 0,
    {
        self.entries.clear();
    }

    /// Takes newly received results, sorted into entries and errors, and keeps
    /// copies when storing (errors only while fewer than `MAX_STORED_ERRORS`
    /// are kept). Returns everything kept (and keeps nothing from then on)
    /// when asked for more than the new results while storing; else the new
    /// results.
    pub fn results(&mut self, received: Vec<ScandirResult>, only_new: bool) -> (r: ScandirResults)
        ensures
            final(self).store == old(self).store,
            r.results@ == results_given(old(self).store, old(self).entries.results@, entries_of(received@), only_new),
            r.errors@ == errors_given(old(self).store, old(self).entries.errors@, errors_of(received@), only_new),
            final(self).entries.results@ == results_kept(
                old(self).store,
                old(self).entries.results@,
                entries_of(received@),
                only_new,
            ),
            final(self).entries.errors@ == errors_left(
                old(self).store,
                old(self).entries.errors@,
                errors_of(received@),
                only_new,
            ),
            old(self).entries.errors@.len() <= MAX_STORED_ERRORS ==> final(self).entries.errors@.len()
                <= MAX_STORED_ERRORS,
            old(self).entries.errors@.len() <= MAX_STORED_ERRORS && !only_new && old(self).store
                ==> r.errors@.len() <= MAX_STORED_ERRORS,
    {
        let results = sort_received(received);
        if self.store {
            self.keep_received(&results);
        }
        if !only_new && self.store {
            let mut all = ScandirResults::new();
            std::mem::swap(&mut all, &mut self.entries);
            assert(self.entries.results@ =~= Seq::empty());
            assert(self.entries.errors@ =~= Seq::empty());
            return all;
        }
        results
    }

    /// Takes newly received results, keeps copies when storing (errors only
    /// while fewer than `MAX_STORED_ERRORS` are kept), and returns them.
    pub fn results_timeout(&mut self, received: Vec<ScandirResult>) -> (r: ScandirResults)
        ensures
            final(self).store == old(self).store,
            r.results@ == entries_of(received@),
            r.errors@ == errors_of(received@),
            final(self).entries.results@ == stored(old(self).store, old(self).entries.results@, entries_of(received@)),
            final(self).entries.errors@ == stored_errors(old(self).store, old(self).entries.errors@, errors_of(received@)),
            old(self).entries.errors@.len() <= MAX_STORED_ERRORS ==> final(self).entries.errors@.len()
                <= MAX_STORED_ERRORS,
    {
        let results = sort_received(received);
        if self.store {
            self.keep_received(&results);
        }
        results
    }

    /// Takes the results received while a timed collect waits for the scan to
    /// end: kept here as `results_timeout` keeps them, and, when this store
    /// does not store, kept in `gathered` instead, so that none is lost.
    pub fn gather(&mut self, gathered: &mut ScandirStore, received: Vec<ScandirResult>)
        ensures
            final(self).store == old(self).store,
            final(self).entries.results@ == stored(old(self).store, old(self).entries.results@, entries_of(received@)),
            final(self).entries.errors@ == stored_errors(old(self).store, old(self).entries.errors@, errors_of(received@)),
            final(gathered).store == old(gathered).store,
            final(gathered).entries.results@ == stored(!old(self).store, old(gathered).entries.results@, entries_of(received@)),
            final(gathered).entries.errors@ == stored_errors(
                !old(self).store,
                old(gathered).entries.errors@,
                errors_of(received@),
            ),
    {
        let results = self.results_timeout(received);
        if !self.store {
            gathered.keep_received(&results);
        }
    }

    /// What a timed collect returns once the scan has ended: the results
    /// kept so far (here when storing, else in `gathered`) followed by the
    /// last received ones, errors kept while fewer than `MAX_STORED_ERRORS`.
    /// A storing store keeps nothing afterwards.
    pub fn finish_gathering(&mut self, gathered: ScandirStore, received: Vec<ScandirResult>) -> (r: ScandirResults)
        ensures
            final(self).store == old(self).store,
            r.results@ == (if old(self).store {
                old(self).entries.results@
            } else {
                gathered.entries.results@
            }) + entries_of(received@),
            r.errors@ == errors_kept_after(
                if old(self).store {
                    old(self).entries.errors@
                } else {
                    gathered.entries.errors@
                },
                errors_of(received@),
            ),
            final(self).entries.results@ == results_kept(
                old(self).store,
                old(self).entries.results@,
                entries_of(received@),
                false,
            ),
            final(self).entries.errors@ == errors_left(
                old(self).store,
                old(self).entries.errors@,
                errors_of(received@),
                false,
            ),
    {
        let results = self.results(received, false);
        if self.store {
            results
        } else {
            let mut gathered = gathered;
            gathered.keep_received(&results);
            gathered.entries
        }
    }

    /// The entries among what `results` gives.
    pub fn entries(&mut self, received: Vec<ScandirResult>, only_new: bool) -> (r: Vec<ScandirResult>)
        ensures
            final(self).store == old(self).store,
            r@ == results_given(old(self).store, old(self).entries.results@, entries_of(received@), only_new),
            final(self).entries.results@ == results_kept(
                old(self).store,
                old(self).entries.results@,
                entries_of(received@),
                only_new,
            ),
    {
        self.results(received, only_new).results
    }

    /// The errors among what `results` gives.
    pub fn errors(&mut self, received: Vec<ScandirResult>, only_new: bool) -> (r: Vec<(String, String)>)
        ensures
            final(self).store == old(self).store,
            r@ == errors_given(old(self).store, old(self).entries.errors@, errors_of(received@), only_new),
            final(self).entries.errors@ == errors_left(
                old(self).store,
                old(self).entries.errors@,
                errors_of(received@),
                only_new,
            ),
    {
        self.results(received, only_new).errors
    }

    /// Keeps a copy of the results a collecting scan returned, and returns them.
    pub fn keep_collected(&mut self, results: ScandirResults) -> (r: ScandirResults)
        ensures
            final(self).store == old(self).store,
            final(self).entries.results@ == results.results@,
            final(self).entries.errors@ == results.errors@,
            r.results@ == results.results@,
            r.errors@ == results.errors@,
    {
        self.entries = results.clone();
        results
    }

    /// Whether there are results: new ones waiting in the channel, or (unless
    /// only new ones count) kept ones.
    pub fn has_results(&self, only_new: bool, channel_has_items: bool) -> (r: bool)
        ensures
            r == (channel_has_items || (!only_new && !(self.entries.results@.len() == 0
                && self.entries.errors@.len() == 0))),
    {
        if channel_has_items {
            return true;
        }
        if only_new {
            return false;
        }
        !self.entries.is_empty()
    }

    /// The number of results: those waiting in the channel (when there is one)
    /// plus, unless only new ones count, the kept ones.
    pub fn results_cnt(&self, only_new: bool, channel_len: Option<usize>) -> (r: usize)
        requires
            self.entries.results@.len() + self.entries.errors@.len() + match channel_len {
                Some(n) => n as int,
                None => 0,
            } <= usize::MAX,
        ensures
            r == match channel_len {
                Some(n) => if only_new {
                    n as int
                } else {
                    self.entries.results@.len() + self.entries.errors@.len() + n
                },
                None => if only_new {
                    0int
                } else {
                    self.entries.results@.len() + self.entries.errors@.len() + 0int
                },
            },
    {
        match channel_len {
            Some(n) => if only_new {
                n
            } else {
                self.entries.len() + n
            },
            None => if only_new {
                0
            } else {
                self.entries.len()
            },
        }
    }

    /// The number of entries: like `results_cnt`, except that without a
    /// channel the kept ones count even when only new ones are asked for.
    pub fn entries_cnt(&self, only_new: bool, channel_len: Option<usize>) -> (r: usize)
        requires
            self.entries.results@.len() + self.entries.errors@.len() + match channel_len {
                Some(n) => n as int,
                None => 0,
            } <= usize::MAX,
        ensures
            r == match channel_len {
                Some(n) => if only_new {
                    n as int
                } else {
                    self.entries.results@.len() + self.entries.errors@.len() + n
                },
                None => self.entries.results@.len() + self.entries.errors@.len() + 0int,
            },
    {
        match channel_len {
            Some(n) => if only_new {
                n
            } else {
                self.entries.len() + n
            },
            None => self.entries.len(),
        }
    }

    /// Whether a kept result is an error.
    pub fn has_errors(&self) -> (r: bool)
        ensures
            r == (self.entries.errors@.len() > 0),
    {
        self.entries.errors.len() != 0
    }

    /// The number of kept errors.
    pub fn errors_cnt(&self) -> (r: usize)
        ensures
            r == self.entries.errors@.len(),
    {
        self.entries.errors.len()
    }

    /// The statistics of the kept entries.
    pub fn statistics(&self) -> (r: Statistics)
        requires
            totals_fit(self.entries.results@),
        ensures
            statistics_of(r, totals(self.entries.results@)),
    {
        self.entries.statistics()
    }
}

} // verus!
