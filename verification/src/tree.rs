//! The whole walk over a modeled directory tree.
//!
//! A filesystem reached only through entries classified `Directory` is a
//! finite tree: symlinks — the one entry kind that could close a cycle —
//! are always classified `Skip` and are therefore leaves of the model. On
//! that model the whole search can be written down and proved: the walk
//! terminates, and it emits exactly one path per entry, anywhere in the
//! tree, that the entry filter keeps and the match predicate accepts —
//! however the tree is later partitioned across tasks.

use vstd::prelude::*;
use crate::matcher::Matcher;
use crate::walk::{
    full_path, join_path, record_matches, record_name, record_spawns, EntryRecord,
};

verus! {

broadcast use vstd::seq::axiom_seq_index_decreases;

/// One entry of a modeled directory: a plain record (a file, a symlink, a
/// special file, a failed probe — anything the walk never enters), or a
/// subdirectory together with its own contents.
pub enum TreeEntry {
    Leaf { record: EntryRecord },
    Sub { meta: crate::entry::EntryMeta, children: Vec<TreeEntry> },
}

/// The record under which an entry shows up in its directory's listing.
pub open spec fn tree_record(e: TreeEntry) -> EntryRecord {
    match e {
        TreeEntry::Leaf { record } => record,
        TreeEntry::Sub { meta, .. } => EntryRecord::Meta { meta },
    }
}

/// Every path the search of a whole directory tree emits, in depth-first
/// order: for each entry in turn, its own match if the entry filter keeps
/// it and its name satisfies the target, then everything found below it if
/// it is a directory to traverse.
pub open spec fn tree_matches(m: Matcher, dir: Seq<char>, es: Seq<TreeEntry>) -> Seq<Seq<char>>
    decreases es,
    via tree_matches_decreases
{
    if es.len() == 0 {
        Seq::empty()
    } else {
        let init = tree_matches(m, dir, es.drop_last());
        let r = tree_record(es.last());
        let with_own = if record_matches(m, r) {
            init.push(full_path(dir, record_name(r)))
        } else {
            init
        };
        match es.last() {
            TreeEntry::Sub { meta, children } => {
                if record_spawns(EntryRecord::Meta { meta }) {
                    with_own + tree_matches(m, full_path(dir, meta.name@), children@)
                } else {
                    with_own
                }
            }
            TreeEntry::Leaf { .. } => with_own,
        }
    }
}

#[via_fn]
proof fn tree_matches_decreases(m: Matcher, dir: Seq<char>, es: Seq<TreeEntry>) {
    if es.len() > 0 {
        vstd::seq::axiom_seq_len_decreases(es, es.drop_last());
        let last = es[es.len() - 1];
        assert(decreases_to!(es => last));
        match last {
            TreeEntry::Sub { meta, children } => {
                assert(decreases_to!(last => last->Sub_children));
                assert(decreases_to!(last->Sub_children => last->Sub_children@));
            }
            TreeEntry::Leaf { .. } => {}
        }
    }
}

/// How many entries anywhere in the tree the search reports: its length is
/// the emitted total, one per matching, non-skipped entry.
pub open spec fn tree_match_count(m: Matcher, es: Seq<TreeEntry>) -> nat
    decreases es,
    via tree_match_count_decreases
{
    if es.len() == 0 {
        0
    } else {
        let init = tree_match_count(m, es.drop_last());
        let own: nat = if record_matches(m, tree_record(es.last())) {
            1
        } else {
            0
        };
        match es.last() {
            TreeEntry::Sub { meta, children } => {
                if record_spawns(EntryRecord::Meta { meta }) {
                    init + own + tree_match_count(m, children@)
                } else {
                    init + own
                }
            }
            TreeEntry::Leaf { .. } => init + own,
        }
    }
}

#[via_fn]
proof fn tree_match_count_decreases(m: Matcher, es: Seq<TreeEntry>) {
    if es.len() > 0 {
        vstd::seq::axiom_seq_len_decreases(es, es.drop_last());
        let last = es[es.len() - 1];
        assert(decreases_to!(es => last));
        match last {
            TreeEntry::Sub { meta, children } => {
                assert(decreases_to!(last => last->Sub_children));
                assert(decreases_to!(last->Sub_children => last->Sub_children@));
            }
            TreeEntry::Leaf { .. } => {}
        }
    }
}

/// One path is emitted per matching entry of the whole tree: however large
/// the tree, the number of results equals the number of entries that the
/// entry filter keeps and the match predicate accepts.
pub proof fn lemma_tree_matches_count(m: Matcher, dir: Seq<char>, es: Seq<TreeEntry>)
    ensures
        tree_matches(m, dir, es).len() == tree_match_count(m, es),
    decreases es,
{
    if es.len() > 0 {
        lemma_tree_matches_count(m, dir, es.drop_last());
        let last = es[es.len() - 1];
        assert(decreases_to!(es => last));
        match last {
            TreeEntry::Sub { meta, children } => {
                assert(decreases_to!(last => last->Sub_children));
                assert(decreases_to!(last->Sub_children => last->Sub_children@));
                lemma_tree_matches_count(m, full_path(dir, meta.name@), children@);
            }
            TreeEntry::Leaf { .. } => {}
        }
    }
}

/// Searches a whole modeled tree, appending every match to `out` in
/// depth-first order. The recursion is on the tree structure itself: it
/// terminates for every finite tree, because only subdirectory entries are
/// entered and a symlink is never one of them.
pub fn search_tree(m: &Matcher, dir: &str, entries: &Vec<TreeEntry>, out: &mut Vec<String>)
    requires
        m.wf(),
    ensures
        final(out)@.map_values(|p: String| p@) =~= old(out)@.map_values(|p: String| p@)
            + tree_matches(*m, dir@, entries@),
    decreases entries@,
{
    let n = entries.len();
    let mut i: usize = 0;
    while i < n
        invariant
            m.wf(),
            n == entries@.len(),
            i <= n,
            out@.map_values(|p: String| p@) =~= old(out)@.map_values(|p: String| p@)
                + tree_matches(*m, dir@, entries@.take(i as int)),
        decreases n - i,
    {
        proof {
            assert(entries@.take(i + 1).drop_last() =~= entries@.take(i as int));
            assert(entries@.take(i + 1).last() == entries@[i as int]);
        }
        match &entries[i] {
            TreeEntry::Leaf { record } => {
                match record {
                    EntryRecord::Meta { meta } => {
                        let class = crate::entry::classify(meta);
                        if class == crate::entry::EntryClass::File
                            && m.matches(meta.name.as_str()) {
                            let path = join_path(dir, meta.name.as_str());
                            let ghost before = out@.map_values(|p: String| p@);
                            let ghost path_view = path@;
                            out.push(path);
                            proof {
                                assert(out@.map_values(|p: String| p@) =~= before.push(
                                    path_view,
                                ));
                            }
                        }
                    }
                    EntryRecord::MetaError { .. } => {}
                }
            }
            TreeEntry::Sub { meta, children } => {
                let class = crate::entry::classify(meta);
                if class == crate::entry::EntryClass::File && m.matches(meta.name.as_str()) {
                    let path = join_path(dir, meta.name.as_str());
                    let ghost before = out@.map_values(|p: String| p@);
                    let ghost path_view = path@;
                    out.push(path);
                    proof {
                        assert(out@.map_values(|p: String| p@) =~= before.push(path_view));
                    }
                }
                if class == crate::entry::EntryClass::Directory {
                    let sub_dir = join_path(dir, meta.name.as_str());
                    proof {
                        let last = entries@[i as int];
                        assert(decreases_to!(entries@ => last));
                        assert(decreases_to!(last => last->Sub_children));
                        assert(decreases_to!(last->Sub_children => last->Sub_children@));
                    }
                    search_tree(m, sub_dir.as_str(), children, out);
                }
            }
        }
        i = i + 1;
    }
    proof {
        assert(entries@.take(n as int) =~= entries@);
    }
}

} // verus!
