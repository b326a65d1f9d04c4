use file_search::entry::EntryMeta;
use file_search::matcher::Matcher;
use file_search::walk::{join_path, EntryRecord, Listing, TraversalError, Walker};

fn file_rec(name: &str, len: u64) -> EntryRecord {
    EntryRecord::Meta {
        meta: EntryMeta {
            name: name.to_string(),
            is_symlink: false,
            is_block_device: false,
            is_char_device: false,
            is_fifo: false,
            is_socket: false,
            is_file: true,
            is_dir: false,
            len,
            mode: Some(0o644),
        },
    }
}

fn dir_rec(name: &str) -> EntryRecord {
    EntryRecord::Meta {
        meta: EntryMeta {
            name: name.to_string(),
            is_symlink: false,
            is_block_device: false,
            is_char_device: false,
            is_fifo: false,
            is_socket: false,
            is_file: false,
            is_dir: true,
            len: 4096,
            mode: Some(0o755),
        },
    }
}

fn symlink_rec(name: &str) -> EntryRecord {
    EntryRecord::Meta {
        meta: EntryMeta {
            name: name.to_string(),
            is_symlink: true,
            is_block_device: false,
            is_char_device: false,
            is_fifo: false,
            is_socket: false,
            is_file: false,
            is_dir: true,
            len: 4096,
            mode: Some(0o755),
        },
    }
}

fn meta_err_rec(name: &str, description: &str) -> EntryRecord {
    EntryRecord::MetaError {
        name: name.to_string(),
        description: description.to_string(),
    }
}

/// Looks up the listing of `dir` in an in-memory tree; a directory in
/// `failed` cannot be listed, and a directory nobody described is empty.
fn listing_of(
    dir: &str,
    tree: &[(&str, Vec<EntryRecord>)],
    failed: &[(&str, &str)],
) -> Listing {
    for (path, description) in failed {
        if *path == dir {
            return Listing::Failed {
                description: description.to_string(),
            };
        }
    }
    for (path, entries) in tree {
        if *path == dir {
            return Listing::Entries {
                entries: entries.clone(),
            };
        }
    }
    Listing::Entries { entries: Vec::new() }
}

/// Drives the walker to completion, one listing at a time, and collects
/// everything it emits.
fn drive(
    walker: &mut Walker,
    tree: &[(&str, Vec<EntryRecord>)],
    failed: &[(&str, &str)],
) -> (Vec<String>, Vec<TraversalError>) {
    let mut all_matches: Vec<String> = Vec::new();
    let mut all_errors: Vec<TraversalError> = Vec::new();
    while let Some(dir) = walker.take_next() {
        let listing = listing_of(&dir, tree, failed);
        let out = walker.process_listing(&dir, listing);
        all_matches.extend(out.matches);
        all_errors.extend(out.errors);
    }
    (all_matches, all_errors)
}

/// Drives the walker with several listings in flight at once, processing
/// outcomes in the reverse of the order the directories were handed out.
fn drive_interleaved(
    walker: &mut Walker,
    tree: &[(&str, Vec<EntryRecord>)],
    failed: &[(&str, &str)],
) -> (Vec<String>, Vec<TraversalError>) {
    let mut all_matches: Vec<String> = Vec::new();
    let mut all_errors: Vec<TraversalError> = Vec::new();
    loop {
        let mut batch: Vec<String> = Vec::new();
        while let Some(dir) = walker.take_next() {
            batch.push(dir);
        }
        if batch.is_empty() {
            break;
        }
        while let Some(dir) = batch.pop() {
            let listing = listing_of(&dir, tree, failed);
            let out = walker.process_listing(&dir, listing);
            all_matches.extend(out.matches);
            all_errors.extend(out.errors);
        }
    }
    (all_matches, all_errors)
}

fn exact_walker(target: &str, root: &str) -> Walker {
    let m = Matcher::new(target.to_string(), false).unwrap();
    Walker::new(m, root.to_string())
}

#[test]
fn scenario_two_matches_in_separate_branches() {
    let tree = vec![
        ("root", vec![dir_rec("a"), dir_rec("b")]),
        ("root/a", vec![file_rec("target.txt", 10)]),
        ("root/b", vec![file_rec("other.txt", 10), dir_rec("c")]),
        ("root/b/c", vec![file_rec("target.txt", 10)]),
    ];
    let mut w = exact_walker("target.txt", "root");
    let (matches, errors) = drive(&mut w, &tree, &[]);
    assert_eq!(errors.len(), 0);
    assert_eq!(matches.len(), 2);
    assert!(matches.iter().any(|p| p.ends_with("a/target.txt")));
    assert!(matches.iter().any(|p| p.ends_with("b/c/target.txt")));
    assert!(w.is_complete());
}

#[test]
fn partition_order_does_not_change_the_matches() {
    let tree = vec![
        ("root", vec![dir_rec("a"), dir_rec("b"), file_rec("target.txt", 1)]),
        ("root/a", vec![file_rec("target.txt", 10), dir_rec("d")]),
        ("root/a/d", vec![file_rec("target.txt", 3)]),
        ("root/b", vec![file_rec("other.txt", 10), file_rec("target.txt", 2)]),
    ];
    let mut w1 = exact_walker("target.txt", "root");
    let (mut m1, _) = drive(&mut w1, &tree, &[]);
    let mut w2 = exact_walker("target.txt", "root");
    let (mut m2, _) = drive_interleaved(&mut w2, &tree, &[]);
    assert_eq!(m1.len(), 4);
    m1.sort();
    m2.sort();
    assert_eq!(m1, m2);
    assert!(w1.is_complete() && w2.is_complete());
}

#[test]
fn unreadable_root_reports_one_error_and_completes() {
    let mut w = exact_walker("target.txt", "root");
    let (matches, errors) = drive(&mut w, &[], &[("root", "permission denied")]);
    assert_eq!(matches.len(), 0);
    assert_eq!(errors.len(), 1);
    assert_eq!(errors[0].path, "root");
    assert_eq!(errors[0].description, "permission denied");
    assert!(w.is_complete());
    assert_eq!(w.counter.started(), w.counter.finished());
    assert!(w.take_next().is_none());
}

#[test]
fn zero_length_file_never_matches() {
    let tree = vec![("root", vec![file_rec("target.txt", 0)])];
    let mut w = exact_walker("target.txt", "root");
    let (matches, errors) = drive(&mut w, &tree, &[]);
    assert_eq!(matches.len(), 0);
    assert_eq!(errors.len(), 0);
    assert!(w.is_complete());
}

#[test]
fn symlink_cycle_terminates_with_no_matches() {
    // `root/loop_link` points back at `root`; since it is a symlink it is
    // classified Skip and never traversed, so the walk ends.
    let tree = vec![("root", vec![symlink_rec("loop_link"), file_rec("a.txt", 5)])];
    let mut w = exact_walker("target.txt", "root");
    let (matches, errors) = drive(&mut w, &tree, &[]);
    assert_eq!(matches.len(), 0);
    assert_eq!(errors.len(), 0);
    assert!(w.is_complete());
}

#[test]
fn unreadable_subdirectory_does_not_stop_siblings() {
    let tree = vec![
        ("root", vec![dir_rec("a"), dir_rec("b")]),
        ("root/b", vec![file_rec("target.txt", 10)]),
    ];
    let failed = vec![("root/a", "permission denied")];
    let mut w = exact_walker("target.txt", "root");
    let (matches, errors) = drive(&mut w, &tree, &failed);
    assert_eq!(errors.len(), 1);
    assert_eq!(errors[0].path, "root/a");
    assert_eq!(matches, vec!["root/b/target.txt".to_string()]);
    assert!(w.is_complete());
}

#[test]
fn per_entry_failure_is_one_error_and_listing_continues() {
    let tree = vec![(
        "root",
        vec![
            meta_err_rec("ghost", "stat failed"),
            file_rec("target.txt", 10),
        ],
    )];
    let mut w = exact_walker("target.txt", "root");
    let (matches, errors) = drive(&mut w, &tree, &[]);
    assert_eq!(errors.len(), 1);
    assert_eq!(errors[0].path, "root/ghost");
    assert_eq!(errors[0].description, "stat failed");
    assert_eq!(matches, vec!["root/target.txt".to_string()]);
}

#[test]
fn cancellation_with_fifty_unexplored_directories() {
    let mut entries: Vec<EntryRecord> = Vec::new();
    let mut tree: Vec<(&str, Vec<EntryRecord>)> = Vec::new();
    let mut names: Vec<String> = Vec::new();
    for i in 0..50u32 {
        names.push(format!("sub{}", i));
    }
    for name in &names {
        entries.push(dir_rec(name));
    }
    tree.push(("root", entries));
    // Every subdirectory would produce a match if it were ever listed.
    let subtrees: Vec<(String, Vec<EntryRecord>)> = names
        .iter()
        .map(|n| (format!("root/{}", n), vec![file_rec("target.txt", 9)]))
        .collect();
    let borrowed: Vec<(&str, Vec<EntryRecord>)> = {
        let mut v = tree;
        for (p, es) in &subtrees {
            v.push((p.as_str(), es.clone()));
        }
        v
    };
    let mut w = exact_walker("target.txt", "root");
    // List the root: 50 subdirectories become pending.
    let root_dir = w.take_next().unwrap();
    let out = w.process_listing(&root_dir, listing_of(&root_dir, &borrowed, &[]));
    assert_eq!(out.matches.len(), 0);
    assert!(!w.is_complete());
    // The cancellation signal fires now.
    w.cancel();
    assert!(w.is_cancelled());
    // Draining what remains emits nothing further and ends promptly: one
    // bounded step per already-discovered directory, no new discovery.
    let (matches, errors) = drive(&mut w, &borrowed, &[]);
    assert_eq!(matches.len(), 0);
    assert_eq!(errors.len(), 0);
    assert!(w.is_complete());
}

#[test]
fn completion_counts_agree_with_the_tree() {
    // Three directories in all: root, a, b. Each is started once and
    // finished once, and completion is reported only at the very end.
    let tree = vec![
        ("root", vec![dir_rec("a"), dir_rec("b")]),
        ("root/a", vec![]),
        ("root/b", vec![]),
    ];
    let mut w = exact_walker("x", "root");
    assert!(!w.is_complete());
    let d = w.take_next().unwrap();
    let out = w.process_listing(&d, listing_of(&d, &tree, &[]));
    assert_eq!(out.matches.len(), 0);
    assert_eq!(w.counter.started(), 3);
    assert_eq!(w.counter.finished(), 1);
    assert!(!w.is_complete());
    let (matches, errors) = drive(&mut w, &tree, &[]);
    assert_eq!(matches.len(), 0);
    assert_eq!(errors.len(), 0);
    assert_eq!(w.counter.started(), 3);
    assert_eq!(w.counter.finished(), 3);
    assert!(w.is_complete());
    assert!(w.take_next().is_none());
}

#[test]
fn pattern_search_over_a_tree() {
    let m = Matcher::new(r"^tar.*\.txt$".to_string(), true).unwrap();
    let mut w = Walker::new(m, "root".to_string());
    let tree = vec![
        ("root", vec![dir_rec("a"), file_rec("tart.txt", 3)]),
        ("root/a", vec![file_rec("target.txt", 3), file_rec("target.txt.bak", 3)]),
    ];
    let (mut matches, errors) = drive(&mut w, &tree, &[]);
    assert_eq!(errors.len(), 0);
    matches.sort();
    assert_eq!(
        matches,
        vec!["root/a/target.txt".to_string(), "root/tart.txt".to_string()]
    );
}

#[test]
fn join_path_inserts_separator() {
    assert_eq!(join_path("root/a", "target.txt"), "root/a/target.txt");
    assert_eq!(join_path("", "x"), "/x");
}
