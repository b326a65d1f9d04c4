//! The traversal engine as a state machine.
//!
//! One `Walker` value holds everything the walk needs: the search target,
//! the started/finished counter pair, the set of discovered directories not
//! yet listed (`pending`), the number of directories handed out for listing
//! whose outcome has not come back yet (`in_flight`), and the one-shot
//! cancellation flag.
//!
//! The driver loop outside this crate takes a directory with `take_next`,
//! lists it, and hands the outcome back to `process_listing`, which decides
//! everything: which entries match, which failures become errors, which
//! subdirectories join the pending set, and how the counters move. Any
//! number of listings may be in flight at once, and listings may come back
//! in any order: the contracts hold for every interleaving.

use vstd::prelude::*;
use crate::counter::ActivityCounter;
use crate::entry::{EntryClass, EntryMeta, classify, spec_classify};
use crate::matcher::Matcher;

verus! {

/// A path and the description of the recoverable failure met there. Such a
/// value never aborts sibling or parent work.
pub struct TraversalError {
    pub path: String,
    pub description: String,
}

/// One record of a directory listing, as plain values.
#[derive(Clone)]
pub enum EntryRecord {
    /// File type and metadata were retrieved for this entry.
    Meta { meta: EntryMeta },
    /// Retrieving them failed: one error for this entry, and the listing
    /// goes on with the next one.
    MetaError { name: String, description: String },
}

/// The outcome of listing one directory.
pub enum Listing {
    /// The directory was listed; its entries, in the order the filesystem
    /// yielded them.
    Entries { entries: Vec<EntryRecord> },
    /// The directory itself could not be opened or listed: one error for
    /// the directory, and that branch of the tree ends there.
    Failed { description: String },
}

/// What one processed listing emits: the matched paths for the result
/// channel and the errors for the error channel.
pub struct StepOutput {
    pub matches: Vec<String>,
    pub errors: Vec<TraversalError>,
}

/// A full path: the parent directory, a separator, the entry name.
pub open spec fn full_path(dir: Seq<char>, name: Seq<char>) -> Seq<char> {
    dir + "/"@ + name
}

/// The name under which a record appeared in its directory.
pub open spec fn record_name(r: EntryRecord) -> Seq<char> {
    match r {
        EntryRecord::Meta { meta } => meta.name@,
        EntryRecord::MetaError { name, .. } => name@,
    }
}

/// A record that produces a match: a classified `File` whose name satisfies
/// the search target.
pub open spec fn record_matches(m: Matcher, r: EntryRecord) -> bool {
    match r {
        EntryRecord::Meta { meta } => spec_classify(meta) == EntryClass::File
            && m.spec_matches(meta.name@),
        EntryRecord::MetaError { .. } => false,
    }
}

/// A record that spawns a child task: a classified `Directory`.
pub open spec fn record_spawns(r: EntryRecord) -> bool {
    match r {
        EntryRecord::Meta { meta } => spec_classify(meta) == EntryClass::Directory,
        EntryRecord::MetaError { .. } => false,
    }
}

/// A record that produces an error: metadata retrieval failed for it.
pub open spec fn record_fails(r: EntryRecord) -> bool {
    r is MetaError
}

/// The full paths of the matching records of a listing, in listing order.
pub open spec fn match_paths(m: Matcher, dir: Seq<char>, es: Seq<EntryRecord>) -> Seq<Seq<char>>
    decreases es.len(),
{
    if es.len() == 0 {
        Seq::empty()
    } else {
        let prefix = match_paths(m, dir, es.drop_last());
        if record_matches(m, es.last()) {
            prefix.push(full_path(dir, record_name(es.last())))
        } else {
            prefix
        }
    }
}

/// The full paths of the subdirectories of a listing, in listing order.
pub open spec fn child_dirs(dir: Seq<char>, es: Seq<EntryRecord>) -> Seq<Seq<char>>
    decreases es.len(),
{
    if es.len() == 0 {
        Seq::empty()
    } else {
        let prefix = child_dirs(dir, es.drop_last());
        if record_spawns(es.last()) {
            prefix.push(full_path(dir, record_name(es.last())))
        } else {
            prefix
        }
    }
}

/// The (path, description) pairs of the per-entry failures of a listing, in
/// listing order.
pub open spec fn error_items(dir: Seq<char>, es: Seq<EntryRecord>) -> Seq<(Seq<char>, Seq<char>)>
    decreases es.len(),
{
    if es.len() == 0 {
        Seq::empty()
    } else {
        let prefix = error_items(dir, es.drop_last());
        match es.last() {
            EntryRecord::MetaError { name, description } => prefix.push(
                (full_path(dir, name@), description@),
            ),
            EntryRecord::Meta { .. } => prefix,
        }
    }
}

/// How many records of a listing produce a match.
pub open spec fn match_count(m: Matcher, es: Seq<EntryRecord>) -> nat
    decreases es.len(),
{
    if es.len() == 0 {
        0
    } else {
        match_count(m, es.drop_last()) + if record_matches(m, es.last()) {
            1nat
        } else {
            0nat
        }
    }
}

/// The view of an emitted error.
pub open spec fn error_view(e: TraversalError) -> (Seq<char>, Seq<char>) {
    (e.path@, e.description@)
}

/// Exactly one path is emitted per matching record: the number of
/// `MatchResult` values a listing produces equals the number of its records
/// that satisfy the search target and are not skipped.
pub proof fn lemma_match_paths_count(m: Matcher, dir: Seq<char>, es: Seq<EntryRecord>)
    ensures
        match_paths(m, dir, es).len() == match_count(m, es),
    decreases es.len(),
{
    if es.len() > 0 {
        lemma_match_paths_count(m, dir, es.drop_last());
    }
}

/// Partition invariance: splitting a listing's records into two batches and
/// processing each batch on its own yields the same matches, in the same
/// order, as processing the whole. So the total set of emitted matches does
/// not depend on how the records are partitioned across tasks.
pub proof fn lemma_match_paths_split(m: Matcher, dir: Seq<char>, a: Seq<EntryRecord>, b: Seq<EntryRecord>)
    ensures
        match_paths(m, dir, a + b) =~= match_paths(m, dir, a) + match_paths(m, dir, b),
    decreases b.len(),
{
    if b.len() == 0 {
        assert(a + b =~= a);
        assert(match_paths(m, dir, a + b) =~= match_paths(m, dir, a));
    } else {
        lemma_match_paths_split(m, dir, a, b.drop_last());
        assert((a + b).drop_last() =~= a + b.drop_last());
        assert((a + b).last() == b.last());
    }
}

/// The counterpart of `lemma_match_paths_split` for the match counts alone.
pub proof fn lemma_match_count_split(m: Matcher, a: Seq<EntryRecord>, b: Seq<EntryRecord>)
    ensures
        match_count(m, a + b) == match_count(m, a) + match_count(m, b),
    decreases b.len(),
{
    if b.len() == 0 {
        assert(a + b =~= a);
    } else {
        lemma_match_count_split(m, a, b.drop_last());
        assert((a + b).drop_last() =~= a + b.drop_last());
        assert((a + b).last() == b.last());
    }
}

/// Joins a parent directory and an entry name into a full path.
pub fn join_path(dir: &str, name: &str) -> (r: String)
    ensures
        r@ == full_path(dir@, name@),
{
    let mut s: String = dir.to_owned();
    s.append("/");
    s.append(name);
    s
}

/// The whole state of one walk.
pub struct Walker {
    /// The search target, immutable for the whole walk.
    pub matcher: Matcher,
    /// How many directory tasks were scheduled and how many finished.
    pub counter: ActivityCounter,
    /// Directories discovered but not yet handed out for listing.
    pub pending: Vec<String>,
    /// Directories handed out whose listing outcome has not come back yet.
    pub in_flight: u64,
    /// The one-shot cancellation flag: once set, never unset.
    pub cancelled: bool,
}

impl Walker {
    /// Every started task is finished, waiting in `pending`, or in flight:
    /// the counters account exactly for the outstanding work.
    pub open spec fn wf(self) -> bool {
        &&& self.matcher.wf()
        &&& self.counter.wf()
        &&& self.counter.started == self.counter.finished + self.pending@.len()
            + self.in_flight
    }

    /// The views of the pending directory paths.
    pub open spec fn pending_views(self) -> Seq<Seq<char>> {
        self.pending@.map_values(|p: String| p@)
    }

    /// Starts a walk at `root`: the root task is the only one started, and
    /// nothing is cancelled or in flight.
    pub fn new(matcher: Matcher, root: String) -> (w: Walker)
        requires
            matcher.wf(),
        ensures
            w.wf(),
            w.matcher == matcher,
            w.pending_views() =~= seq![root@],
            w.in_flight == 0,
            !w.cancelled,
            w.counter.started == 1,
            w.counter.finished == 0,
    {
        let mut counter = ActivityCounter::new();
        counter.record_start();
        let mut pending: Vec<String> = Vec::new();
        pending.push(root);
        Walker { matcher, counter, pending, in_flight: 0, cancelled: false }
    }

    /// Hands out one pending directory for listing, if any, and counts it
    /// as in flight. The walk itself never forgets a discovered directory:
    /// only a processed listing or cancellation retires work.
    pub fn take_next(&mut self) -> (r: Option<String>)
        requires
            old(self).wf(),
        ensures
            final(self).wf(),
            final(self).matcher == old(self).matcher,
            final(self).counter == old(self).counter,
            final(self).cancelled == old(self).cancelled,
            old(self).pending@.len() == 0 ==> r is None && *final(self) == *old(self),
            old(self).pending@.len() > 0 ==> {
                &&& r is Some
                &&& r.unwrap()@ == old(self).pending_views().last()
                &&& final(self).pending_views() =~= old(self).pending_views().drop_last()
                &&& final(self).in_flight == old(self).in_flight + 1
            },
    {
        if self.pending.len() == 0 {
            None
        } else {
            let d = self.pending.pop().unwrap();
            self.in_flight = self.in_flight + 1;
            Some(d)
        }
    }

    /// Sets the one-shot cancellation flag; everything else is untouched.
    pub fn cancel(&mut self)
        ensures
            final(self).cancelled,
            final(self).matcher == old(self).matcher,
            final(self).counter == old(self).counter,
            final(self).pending == old(self).pending,
            final(self).in_flight == old(self).in_flight,
            old(self).wf() ==> final(self).wf(),
    {
        self.cancelled = true;
    }

    /// Whether cancellation has been requested.
    pub fn is_cancelled(&self) -> (r: bool)
        ensures
            r == self.cancelled,
    {
        self.cancelled
    }

    /// Whether the walk is complete: every task that ever started has
    /// finished. With the accounting invariant this holds exactly when no
    /// directory is pending and none is in flight, so no match and no error
    /// can arrive after it reports true.
    pub fn is_complete(&self) -> (r: bool)
        ensures
            r == self.counter.spec_complete(),
    {
        self.counter.is_complete()
    }

    /// Processes the outcome of listing `dir`, one in-flight directory.
    ///
    /// If cancellation was observed, nothing is emitted and nothing is
    /// spawned; the task only retires, and the outstanding work (pending
    /// plus in flight) strictly shrinks — a cancelled walk drains within a
    /// number of steps bounded by the directories already discovered.
    /// On a failed listing exactly one
    /// error for `dir` is emitted and no sibling work is touched. On a
    /// successful listing the matches, errors and spawned subdirectories
    /// are exactly those of the records, in listing order. In every case
    /// `finished` moves up by one, as the task's last contribution.
    pub fn process_listing(&mut self, dir: &str, listing: Listing) -> (out: StepOutput)
        requires
            old(self).wf(),
            old(self).in_flight > 0,
            listing matches Listing::Entries { entries } ==> old(self).counter.started
                + entries@.len() <= u64::MAX,
        ensures
            final(self).wf(),
            final(self).matcher == old(self).matcher,
            final(self).cancelled == old(self).cancelled,
            final(self).in_flight == old(self).in_flight - 1,
            final(self).counter.finished == old(self).counter.finished + 1,
            old(self).cancelled ==> {
                &&& out.matches@.len() == 0
                &&& out.errors@.len() == 0
                &&& final(self).pending == old(self).pending
                &&& final(self).counter.started == old(self).counter.started
                &&& final(self).pending@.len() + final(self).in_flight < old(
                    self,
                ).pending@.len() + old(self).in_flight
            },
            !old(self).cancelled ==> match listing {
                Listing::Failed { description } => {
                    &&& out.matches@.len() == 0
                    &&& out.errors@.map_values(|e: TraversalError| error_view(e))
                        =~= seq![(dir@, description@)]
                    &&& final(self).pending == old(self).pending
                    &&& final(self).counter.started == old(self).counter.started
                },
                Listing::Entries { entries } => {
                    &&& out.matches@.map_values(|p: String| p@)
                        =~= match_paths(old(self).matcher, dir@, entries@)
                    &&& out.errors@.map_values(|e: TraversalError| error_view(e))
                        =~= error_items(dir@, entries@)
                    &&& final(self).pending_views()
                        =~= old(self).pending_views() + child_dirs(dir@, entries@)
                    &&& final(self).counter.started == old(self).counter.started
                        + child_dirs(dir@, entries@).len()
                },
            },
    {
        let mut matches: Vec<String> = Vec::new();
        let mut errors: Vec<TraversalError> = Vec::new();
        if self.cancelled {
            self.counter.record_finish();
            self.in_flight = self.in_flight - 1;
            return StepOutput { matches, errors };
        }
        match listing {
            Listing::Failed { description } => {
                errors.push(TraversalError { path: dir.to_owned(), description });
                self.counter.record_finish();
                self.in_flight = self.in_flight - 1;
                StepOutput { matches, errors }
            }
            Listing::Entries { entries } => {
                let n = entries.len();
                let mut i: usize = 0;
                while i < n
                    invariant
                        n == entries@.len(),
                        i <= n,
                        old(self).wf(),
                        old(self).counter.started + entries@.len() <= u64::MAX,
                        !old(self).cancelled,
                        self.matcher == old(self).matcher,
                        self.matcher.wf(),
                        self.cancelled == old(self).cancelled,
                        self.in_flight == old(self).in_flight,
                        self.counter.finished == old(self).counter.finished,
                        self.counter.started == old(self).counter.started
                            + child_dirs(dir@, entries@.take(i as int)).len(),
                        child_dirs(dir@, entries@.take(i as int)).len() <= i,
                        self.pending_views() =~= old(self).pending_views()
                            + child_dirs(dir@, entries@.take(i as int)),
                        matches@.map_values(|p: String| p@)
                            =~= match_paths(old(self).matcher, dir@, entries@.take(i as int)),
                        errors@.map_values(|e: TraversalError| error_view(e))
                            =~= error_items(dir@, entries@.take(i as int)),
                    decreases n - i,
                {
                    proof {
                        assert(entries@.take(i + 1).drop_last() =~= entries@.take(i as int));
                        assert(entries@.take(i + 1).last() == entries@[i as int]);
                    }
                    match &entries[i] {
                        EntryRecord::MetaError { name, description } => {
                            let path = join_path(dir, name.as_str());
                            errors.push(
                                TraversalError { path, description: description.clone() },
                            );
                        }
                        EntryRecord::Meta { meta } => {
                            let class = classify(meta);
                            match class {
                                EntryClass::File => {
                                    if self.matcher.matches(meta.name.as_str()) {
                                        matches.push(join_path(dir, meta.name.as_str()));
                                    }
                                }
                                EntryClass::Directory => {
                                    self.counter.record_start();
                                    let child = join_path(dir, meta.name.as_str());
                                    let ghost pv_before = self.pending_views();
                                    let ghost child_view = child@;
                                    self.pending.push(child);
                                    proof {
                                        assert(self.pending_views() =~= pv_before.push(
                                            child_view,
                                        ));
                                    }
                                }
                                EntryClass::Skip => {}
                            }
                        }
                    }
                    i = i + 1;
                }
                proof {
                    assert(entries@.take(n as int) =~= entries@);
                }
                self.counter.record_finish();
                self.in_flight = self.in_flight - 1;
                StepOutput { matches, errors }
            }
        }
    }
}

/// Completion is observed exactly when no work is outstanding: with the
/// accounting invariant, `started == finished` holds if and only if no
/// directory is pending and no listing is in flight — so once the walk
/// reports completion, no task exists that could still emit a match, an
/// error, or a child task.
pub proof fn lemma_complete_iff_no_outstanding_work(w: Walker)
    requires
        w.wf(),
    ensures
        w.counter.spec_complete() <==> (w.pending@.len() == 0 && w.in_flight == 0),
{
}

} // verus!
