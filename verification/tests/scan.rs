use bollard::grpc::filesync::{ScanSelection, SourceEntry, SyncCode};
use bollard::grpc::scan::{check_batch_limit, sort_names, ScanBudget, Scanner, TakeStep, MAX_ENTRIES};
use bollard::grpc::filesync::{visit_entry, EntryFacts, HardlinkIndex, SourceKind, SourceStat};

/// An in-memory tree: each path with its entry names; a path that is not
/// listed is a file.
fn children<'a>(tree: &'a [(&'a str, &'a [&'a str])], path: &str) -> Option<Vec<String>> {
    tree.iter()
        .find(|(p, _)| *p == path)
        .map(|(_, names)| names.iter().map(|n| n.to_string()).collect())
}

/// Walks `tree` the way the FileSync sender drives the scanner, taking
/// batches of `limit`; the stat of each entry is its path.
fn walk(tree: &[(&str, &[&str])], selection: ScanSelection, limit: usize) -> Vec<SourceEntry<String>> {
    let mut scanner = Scanner::new(selection, children(tree, "").unwrap());
    let mut out = Vec::new();
    loop {
        let mut batch = Vec::new();
        scanner.fill(&mut batch, limit);
        let full = batch.len() == limit;
        out.extend(batch);
        if full {
            continue;
        }
        match scanner.advance() {
            None => {
                let mut rest = Vec::new();
                scanner.fill(&mut rest, usize::MAX);
                out.extend(rest);
                return out;
            }
            Some((path, selected)) => {
                let names = children(tree, &path);
                let regular = names.is_none();
                if selected {
                    scanner.accept(path.clone(), regular, path.clone()).unwrap();
                    if let Some(names) = names {
                        scanner.enter_directory(path, names);
                    }
                } else if let Some(names) = names {
                    scanner.defer_directory(path.clone(), regular, path, names);
                }
            }
        }
    }
}

const FIXTURE: &[(&str, &[&str])] = &[("", &["b", "link", "a"]), ("a", &["x.txt"]), ("b", &["z.txt"])];

#[test]
fn scanner_walks_depth_first_in_byte_order() {
    let entries = walk(FIXTURE, ScanSelection::All, 8);
    let paths: Vec<&str> = entries.iter().map(|e| e.relative.as_str()).collect();
    assert_eq!(paths, ["a", "a/x.txt", "b", "b/z.txt", "link"]);
    let regular: Vec<u32> = entries.iter().filter(|e| e.regular).map(|e| e.position).collect();
    assert_eq!(regular, [1, 3, 4]);
}

#[test]
fn scanner_batches_keep_order_and_positions() {
    let tree: &[(&str, &[&str])] = &[("", &["z", "nested", "b", "a"]), ("nested", &["d", "c"])];
    let one = walk(tree, ScanSelection::All, 1);
    let three = walk(tree, ScanSelection::All, 3);
    let view = |v: &[SourceEntry<String>]| v.iter().map(|e| (e.relative.clone(), e.position, e.regular)).collect::<Vec<_>>();
    assert_eq!(view(&one), view(&three));
    assert_eq!(one.iter().map(|e| e.position).collect::<Vec<_>>(), [0, 1, 2, 3, 4, 5]);
    assert_eq!(
        one.iter().map(|e| e.relative.as_str()).collect::<Vec<_>>(),
        ["a", "b", "nested", "nested/c", "nested/d", "z"]
    );
}

#[test]
fn scanner_announces_left_out_directories_before_selected_entries() {
    let tree: &[(&str, &[&str])] = &[
        ("", &["other", "a"]),
        ("a", &["b"]),
        ("a/b", &["skip.txt", "input.txt"]),
        ("other", &["output.txt"]),
    ];
    let selection = ScanSelection::from_patterns(&[String::from("**/*.txt")], &[String::from("**/skip.txt")]).unwrap();
    let entries = walk(tree, selection, 2);
    let paths: Vec<&str> = entries.iter().map(|e| e.relative.as_str()).collect();
    assert_eq!(paths, ["a", "a/b", "a/b/input.txt", "other", "other/output.txt"]);
    assert_eq!(entries.iter().map(|e| e.position).collect::<Vec<_>>(), [0, 1, 2, 3, 4]);
}

#[test]
fn scanner_drops_left_out_directories_with_nothing_selected() {
    let tree: &[(&str, &[&str])] = &[("", &["keep.txt", "empty"]), ("empty", &["skip"])];
    let selection = ScanSelection::from_patterns(&[String::from("*.txt")], &[]).unwrap();
    let entries = walk(tree, selection, 4);
    let paths: Vec<&str> = entries.iter().map(|e| e.relative.as_str()).collect();
    assert_eq!(paths, ["keep.txt"]);
    assert_eq!(entries[0].position, 0);
}

#[test]
fn scanner_advance_reports_paths_and_selection() {
    let selection = ScanSelection::from_patterns(&[], &[String::from("b")]).unwrap();
    let mut scanner: Scanner<u8> = Scanner::new(selection, vec![String::from("b"), String::from("a")]);
    assert_eq!(scanner.depth(), 1);
    assert_eq!(scanner.advance(), Some((String::from("a"), true)));
    assert_eq!(scanner.advance(), Some((String::from("b"), false)));
    assert_eq!(scanner.advance(), None);
    assert_eq!(scanner.depth(), 0);
    assert!(!scanner.is_selected("b"));
}

#[test]
fn scanner_accept_numbers_entries_and_stops_at_the_limit() {
    let mut scanner: Scanner<u8> = Scanner::new(ScanSelection::All, vec![]);
    scanner.defer_directory(7, false, String::from("d"), vec![]);
    scanner.accept(8, true, String::from("d/f")).unwrap();
    let mut out = Vec::new();
    scanner.fill(&mut out, 10);
    assert_eq!(out.iter().map(|e| (e.stat, e.position)).collect::<Vec<_>>(), [(7, 0), (8, 1)]);
    for _ in 2..MAX_ENTRIES {
        scanner.accept(0, true, String::from("f")).unwrap();
    }
    let err = scanner.accept(0, true, String::from("g")).unwrap_err();
    assert_eq!(err.code, SyncCode::ResourceExhausted);
    assert_eq!(err.message, "local source has too many entries");
}

#[test]
fn scanner_budget_and_batch_limit() {
    let mut budget = ScanBudget::new();
    for _ in 0..MAX_ENTRIES {
        budget.inspect().unwrap();
    }
    let err = budget.inspect().unwrap_err();
    assert_eq!(err.code, SyncCode::ResourceExhausted);
    assert_eq!(err.message, "local source has too many entries");
    assert!(check_batch_limit(1).is_ok());
    let err = check_batch_limit(0).unwrap_err();
    assert_eq!(err.code, SyncCode::InvalidArgument);
    assert_eq!(err.message, "FileSync scanner batch limit must be positive");
}

#[test]
fn names_sort_in_byte_order() {
    let names = vec![String::from("b"), String::from("B"), String::from("ab"), String::from("a"), String::from("é")];
    assert_eq!(sort_names(names), ["B", "a", "ab", "b", "é"]);
}

/// Takes one batch of `limit` from `scanner` over `tree` with `take_step`.
fn take_batch(
    scanner: &mut Scanner<String>,
    tree: &[(&str, &[&str])],
    limit: usize,
    cancelled: bool,
) -> (Vec<SourceEntry<String>>, bool) {
    let mut batch = Vec::new();
    loop {
        match scanner.take_step(&mut batch, limit, cancelled).unwrap() {
            TakeStep::Full => return (batch, false),
            TakeStep::Finished => return (batch, true),
            TakeStep::Inspect(path, selected) => {
                let names = children(tree, &path);
                let regular = names.is_none();
                if selected {
                    scanner.accept(path.clone(), regular, path.clone()).unwrap();
                    if let Some(names) = names {
                        scanner.enter_directory(path, names);
                    }
                } else if let Some(names) = names {
                    scanner.defer_directory(path.clone(), regular, path, names);
                }
            }
        }
    }
}

#[test]
fn scanner_take_steps_fill_batches_to_the_limit() {
    let mut scanner = Scanner::new(ScanSelection::All, children(FIXTURE, "").unwrap());
    let (first, done) = take_batch(&mut scanner, FIXTURE, 2, false);
    assert!(!done);
    assert_eq!(first.iter().map(|e| e.relative.as_str()).collect::<Vec<_>>(), ["a", "a/x.txt"]);
    let (second, done) = take_batch(&mut scanner, FIXTURE, 2, false);
    assert!(!done);
    assert_eq!(second.iter().map(|e| e.position).collect::<Vec<_>>(), [2, 3]);
    let (last, done) = take_batch(&mut scanner, FIXTURE, 2, false);
    assert!(done);
    assert_eq!(last.iter().map(|e| e.relative.as_str()).collect::<Vec<_>>(), ["link"]);
    let err = scanner.take_step(&mut Vec::new(), 0, false).err().unwrap();
    assert_eq!(err.code, SyncCode::InvalidArgument);
    assert_eq!(err.message, "FileSync scanner batch limit must be positive");
}

#[test]
fn scanner_cancellation_finishes_without_emitting_entries() {
    let mut scanner = Scanner::new(ScanSelection::All, children(FIXTURE, "").unwrap());
    let (entries, done) = take_batch(&mut scanner, FIXTURE, 4, true);
    assert!(done);
    assert!(entries.is_empty());
}

fn facts(kind: SourceKind) -> EntryFacts {
    EntryFacts {
        kind,
        mode: 0o644,
        uid: 1,
        gid: 2,
        mtime_sec: 3,
        mtime_nsec: 4,
        nlink: 1,
        dev: 0,
        ino: 0,
        xattrs: vec![(String::from("user.k"), vec![1, 2])],
    }
}

#[test]
fn visiting_entries_announces_selected_ones_and_defers_left_out_directories() {
    let selection = ScanSelection::from_patterns(&[String::from("d/f")], &[]).unwrap();
    let mut scanner: Scanner<SourceStat> = Scanner::new(selection, vec![String::from("d"), String::from("x")]);
    let mut hardlinks = HardlinkIndex::new();
    let mut batch = Vec::new();
    let TakeStep::Inspect(path, selected) = scanner.take_step(&mut batch, 8, false).unwrap() else { panic!() };
    assert_eq!((path.as_str(), selected), ("d", false));
    visit_entry(&mut scanner, path, selected, &facts(SourceKind::Directory), &mut hardlinks, vec![String::from("f")]).unwrap();
    let TakeStep::Inspect(path, selected) = scanner.take_step(&mut batch, 8, false).unwrap() else { panic!() };
    assert_eq!((path.as_str(), selected), ("d/f", true));
    visit_entry(&mut scanner, path, selected, &facts(SourceKind::File(5)), &mut hardlinks, vec![]).unwrap();
    let TakeStep::Inspect(path, selected) = scanner.take_step(&mut batch, 8, false).unwrap() else { panic!() };
    assert_eq!((path.as_str(), selected), ("x", false));
    visit_entry(&mut scanner, path, selected, &facts(SourceKind::Special), &mut hardlinks, vec![]).unwrap();
    assert!(matches!(scanner.take_step(&mut batch, 8, false).unwrap(), TakeStep::Finished));
    assert_eq!(batch.iter().map(|e| (e.relative.as_str(), e.position, e.regular)).collect::<Vec<_>>(), [("d", 0, false), ("d/f", 1, true)]);
    assert_eq!(batch[0].stat.mode, 0x8000_0000 | 0o644);
    assert_eq!(batch[1].stat.size, 5);
    assert_eq!(batch[1].stat.xattrs, vec![(String::from("user.k"), vec![1, 2])]);
}

#[test]
fn visiting_a_selected_special_file_is_refused() {
    let mut scanner: Scanner<SourceStat> = Scanner::new(ScanSelection::All, vec![String::from("sock")]);
    let mut hardlinks = HardlinkIndex::new();
    let TakeStep::Inspect(path, selected) = scanner.take_step(&mut Vec::new(), 8, false).unwrap() else { panic!() };
    let err = visit_entry(&mut scanner, path, selected, &facts(SourceKind::Special), &mut hardlinks, vec![]).unwrap_err();
    assert_eq!(err.code, SyncCode::InvalidArgument);
    assert_eq!(err.message, "local source contains an unsupported special file: \"sock\"");
}
