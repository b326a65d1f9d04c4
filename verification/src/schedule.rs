//! Partition invariance of the fan-out.
//!
//! The walk keeps a dynamically growing queue of directory tasks and there
//! is no ordering guarantee on which task runs next. Here that freedom is
//! made a theorem: a driver that picks the next task by an arbitrary
//! schedule — any index, at every step — emits exactly the matches of the
//! whole tree, as a multiset, and finishes in a bounded number of steps.
//! However the tree is partitioned across tasks, the results are the same;
//! only their arrival order differs.

use vstd::prelude::*;
use vstd::multiset::Multiset;
use vstd::seq_lib::lemma_multiset_commutative;
use crate::matcher::Matcher;
use crate::tree::{tree_matches, TreeEntry};
use crate::walk::join_path;

verus! {

broadcast use
    vstd::seq::axiom_seq_index_decreases,
    vstd::multiset::group_multiset_axioms,
    vstd::seq_lib::group_to_multiset_ensures,
;

/// One pending unit of work: a directory path and its modeled contents.
pub struct DirectoryTask {
    pub dir: String,
    pub entries: Vec<TreeEntry>,
}

/// Everything one task will ever emit, order forgotten.
pub open spec fn task_matches(m: Matcher, t: DirectoryTask) -> Multiset<Seq<char>> {
    tree_matches(m, t.dir@, t.entries@).to_multiset()
}

/// Everything a whole queue of tasks will ever emit, order forgotten.
pub open spec fn queue_matches(m: Matcher, q: Seq<DirectoryTask>) -> Multiset<Seq<char>>
    decreases q.len(),
{
    if q.len() == 0 {
        Multiset::empty()
    } else {
        queue_matches(m, q.drop_last()).add(task_matches(m, q.last()))
    }
}

/// The number of entries anywhere below a sequence of modeled entries.
pub open spec fn entries_size(es: Seq<TreeEntry>) -> nat
    decreases es,
    via entries_size_decreases
{
    if es.len() == 0 {
        0
    } else {
        entries_size(es.drop_last()) + (match es.last() {
            TreeEntry::Sub { children, .. } => 1 + entries_size(children@),
            TreeEntry::Leaf { .. } => 1nat,
        })
    }
}

#[via_fn]
proof fn entries_size_decreases(es: Seq<TreeEntry>) {
    if es.len() > 0 {
        vstd::seq::axiom_seq_len_decreases(es, es.drop_last());
        let last = es[es.len() - 1];
        assert(decreases_to!(es => last));
        match last {
            TreeEntry::Sub { meta, children } => {
                assert(decreases_to!(last => last->Sub_children));
                assert(decreases_to!(last->Sub_children => last->Sub_children@));
            }
            TreeEntry::Leaf { .. } => {}
        }
    }
}

/// A task costs one step for its own listing plus one step per entry below
/// it: the bound on how much work a queue can still cause.
pub open spec fn task_size(t: DirectoryTask) -> nat {
    1 + entries_size(t.entries@)
}

/// The total remaining work of a queue of tasks.
pub open spec fn queue_size(q: Seq<DirectoryTask>) -> nat
    decreases q.len(),
{
    if q.len() == 0 {
        0
    } else {
        queue_size(q.drop_last()) + task_size(q.last())
    }
}

/// Taking any one task out of the queue takes exactly its matches out of
/// the queue's total: the totals do not depend on the position picked.
pub proof fn lemma_queue_matches_remove(m: Matcher, q: Seq<DirectoryTask>, j: int)
    requires
        0 <= j < q.len(),
    ensures
        queue_matches(m, q) =~= queue_matches(m, q.remove(j)).add(task_matches(m, q[j])),
    decreases q.len(),
{
    if j == q.len() - 1 {
        assert(q.remove(j) =~= q.drop_last());
    } else {
        lemma_queue_matches_remove(m, q.drop_last(), j);
        assert(q.remove(j).drop_last() =~= q.drop_last().remove(j));
        assert(q.remove(j).last() == q.last());
    }
}

/// The same, for the remaining-work bound.
pub proof fn lemma_queue_size_remove(q: Seq<DirectoryTask>, j: int)
    requires
        0 <= j < q.len(),
    ensures
        queue_size(q) == queue_size(q.remove(j)) + task_size(q[j]),
    decreases q.len(),
{
    if j == q.len() - 1 {
        assert(q.remove(j) =~= q.drop_last());
    } else {
        lemma_queue_size_remove(q.drop_last(), j);
        assert(q.remove(j).drop_last() =~= q.drop_last().remove(j));
        assert(q.remove(j).last() == q.last());
    }
}

/// Runs the whole search with an arbitrary schedule: at every step the next
/// task is picked by the next schedule entry (or the newest task, once the
/// schedule runs out). Whatever the schedule — however the tree is
/// partitioned across tasks and in whatever order they run — the multiset
/// of emitted paths equals the matches of the whole tree, and the run
/// takes at most one step per directory plus one per entry.
pub fn run_scheduled(
    m: &Matcher,
    root: String,
    entries: Vec<TreeEntry>,
    schedule: &Vec<usize>,
) -> (out: Vec<String>)
    requires
        m.wf(),
    ensures
        out@.map_values(|p: String| p@).to_multiset() =~= tree_matches(
            *m,
            root@,
            entries@,
        ).to_multiset(),
{
    let ghost total = tree_matches(*m, root@, entries@).to_multiset();
    let mut queue: Vec<DirectoryTask> = Vec::new();
    let root_task = DirectoryTask { dir: root, entries };
    proof {
        assert(queue@.push(root_task) =~= seq![root_task]);
        assert(seq![root_task].drop_last() =~= Seq::<DirectoryTask>::empty());
    }
    queue.push(root_task);
    let mut out: Vec<String> = Vec::new();
    proof {
        let out_views = out@.map_values(|p: String| p@);
        assert(out_views =~= Seq::<Seq<char>>::empty());
        assert(out_views.to_multiset().len() == 0);
        assert(out_views.to_multiset() =~= Multiset::empty());
        assert(queue@ =~= seq![root_task]);
        assert(queue_matches(*m, queue@) == queue_matches(
            *m,
            seq![root_task].drop_last(),
        ).add(task_matches(*m, root_task)));
        assert(queue_matches(*m, queue@) =~= task_matches(*m, root_task));
    }
    let mut step: usize = 0;
    while queue.len() > 0
        invariant
            m.wf(),
            out@.map_values(|p: String| p@).to_multiset().add(queue_matches(*m, queue@))
                =~= total,
        decreases queue_size(queue@),
    {
        let j: usize = if step < schedule.len() {
            let picked = schedule[step] % queue.len();
            step = step + 1;
            picked
        } else {
            queue.len() - 1
        };
        let ghost q_before = queue@;
        let ghost start_size = queue_size(queue@);
        let task = queue.remove(j);
        proof {
            lemma_queue_matches_remove(*m, q_before, j as int);
            lemma_queue_size_remove(q_before, j as int);
        }
        let dir = task.dir;
        let mut es = task.entries;
        while es.len() > 0
            invariant
                m.wf(),
                out@.map_values(|p: String| p@).to_multiset().add(
                    queue_matches(*m, queue@),
                ).add(tree_matches(*m, dir@, es@).to_multiset()) =~= total,
                queue_size(queue@) + entries_size(es@) < start_size,
            decreases es@.len(),
        {
            let ghost es_before = es@;
            let e = es.pop().unwrap();
            proof {
                assert(es@ =~= es_before.drop_last());
                assert(es_before.last() == e);
            }
            match e {
                TreeEntry::Leaf { record } => {
                    match record {
                        crate::walk::EntryRecord::Meta { meta } => {
                            let class = crate::entry::classify(&meta);
                            if class == crate::entry::EntryClass::File
                                && m.matches(meta.name.as_str()) {
                                let path = join_path(dir.as_str(), meta.name.as_str());
                                let ghost before = out@.map_values(|p: String| p@);
                                let ghost path_view = path@;
                                out.push(path);
                                proof {
                                    assert(out@.map_values(|p: String| p@) =~= before.push(
                                        path_view,
                                    ));
                                }
                            }
                        }
                        crate::walk::EntryRecord::MetaError { .. } => {}
                    }
                }
                TreeEntry::Sub { meta, children } => {
                    let ghost children_view = children@;
                    let class = crate::entry::classify(&meta);
                    if class == crate::entry::EntryClass::File
                        && m.matches(meta.name.as_str()) {
                        let path = join_path(dir.as_str(), meta.name.as_str());
                        let ghost before = out@.map_values(|p: String| p@);
                        let ghost path_view = path@;
                        out.push(path);
                        proof {
                            assert(out@.map_values(|p: String| p@) =~= before.push(
                                path_view,
                            ));
                        }
                    }
                    if class == crate::entry::EntryClass::Directory {
                        let sub_dir = join_path(dir.as_str(), meta.name.as_str());
                        let ghost sub_dir_view = sub_dir@;
                        let ghost q_mid = queue@;
                        let child_task = DirectoryTask { dir: sub_dir, entries: children };
                        let ghost child_ghost = child_task;
                        queue.push(child_task);
                        proof {
                            assert(queue@.drop_last() =~= q_mid);
                            assert(queue@.last() == child_ghost);
                            lemma_multiset_commutative(
                                tree_matches(*m, dir@, es@).push(
                                    crate::walk::full_path(dir@, meta.name@),
                                ),
                                tree_matches(*m, sub_dir_view, children_view),
                            );
                            lemma_multiset_commutative(
                                tree_matches(*m, dir@, es@),
                                tree_matches(*m, sub_dir_view, children_view),
                            );
                        }
                    }
                }
            }
        }
        proof {
            assert(tree_matches(*m, dir@, es@).to_multiset() =~= Multiset::empty());
        }
    }
    proof {
        assert(queue_matches(*m, queue@) =~= Multiset::empty());
    }
    out
}

} // verus!
