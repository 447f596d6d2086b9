use bollard::grpc::filesync::{SyncCode, SyncStatus};
use bollard::grpc::followpaths::{EntryKind, FollowResolver, FollowStep, MAX_FOLLOW_DEPTH, MAX_FOLLOW_PATHS};

enum Node {
    Dir(&'static [&'static str]),
    File,
    Link(&'static str),
}

/// Resolves `paths` against an in-memory tree, the way the FileSync sender
/// drives the resolver against the mount.
fn resolve(tree: &[(&str, Node)], paths: &[&str]) -> Result<Vec<String>, SyncStatus> {
    let find = |p: &str| tree.iter().find(|(q, _)| *q == p.trim_end_matches('/')).map(|(_, n)| n);
    let mut resolver = FollowResolver::new(paths.iter().map(|p| p.to_string()).collect())?;
    loop {
        match resolver.step()? {
            FollowStep::Continue => {}
            FollowStep::Done(found) => return Ok(found),
            FollowStep::List(dir) => match find(&dir) {
                Some(Node::Dir(names)) => {
                    resolver.listed(Some(names.iter().map(|n| Some(n.to_string())).collect()))?
                }
                _ => resolver.listed(None)?,
            },
            FollowStep::Inspect(path) => {
                let kind = match find(&path) {
                    None => EntryKind::Missing,
                    Some(Node::Dir(_)) => EntryKind::Directory,
                    Some(Node::File) => EntryKind::Other,
                    Some(Node::Link(_)) => EntryKind::Symlink,
                };
                resolver.inspected(kind)?;
            }
            FollowStep::ReadLink(path) => match find(&path) {
                Some(Node::Link(target)) => resolver.link_read(target),
                _ => panic!("only symlinks are read"),
            },
        }
    }
}

fn fixture() -> Vec<(&'static str, Node)> {
    vec![
        ("", Node::Dir(&["dir", "target", "link2", "a", "b"])),
        ("dir", Node::Dir(&["link1", "other"])),
        ("dir/link1", Node::Link("../target")),
        ("dir/other", Node::File),
        ("target", Node::Dir(&["input"])),
        ("target/input", Node::File),
        ("link2", Node::Link("dir/link1")),
        ("a", Node::Dir(&["subdir"])),
        ("a/subdir", Node::Dir(&["input"])),
        ("a/subdir/input", Node::File),
        ("b", Node::Dir(&["other"])),
        ("b/other", Node::File),
    ]
}

#[test]
fn followpath_resolution_has_bounded_input_and_depth() {
    let tree = [("", Node::Dir(&[]))];
    let too_many = vec!["missing"; MAX_FOLLOW_PATHS + 1];
    assert_eq!(resolve(&tree, &too_many).unwrap_err().code, SyncCode::ResourceExhausted);
    let too_deep = (0..=MAX_FOLLOW_DEPTH).map(|_| "missing").collect::<Vec<_>>().join("/");
    assert_eq!(resolve(&tree, &[too_deep.as_str()]).unwrap_err().code, SyncCode::ResourceExhausted);
    let deep_enough = (0..MAX_FOLLOW_DEPTH).map(|_| "missing").collect::<Vec<_>>().join("/");
    assert_eq!(resolve(&tree, &[deep_enough.as_str()]).unwrap(), [deep_enough]);
}

#[test]
fn literal_followpaths_resolve_to_themselves() {
    assert_eq!(resolve(&fixture(), &["a"]).unwrap(), ["a"]);
    assert_eq!(resolve(&fixture(), &["a/subdir/input", "a"]).unwrap(), ["a"]);
    assert_eq!(resolve(&fixture(), &["missing"]).unwrap(), ["missing"]);
}

#[test]
fn wildcard_and_transitive_followpaths_record_links_and_targets() {
    assert_eq!(resolve(&fixture(), &["dir/link*"]).unwrap(), ["dir/link*", "dir/link1", "target"]);
    assert_eq!(
        resolve(&fixture(), &["dir/link*", "link2"]).unwrap(),
        ["dir/link*", "dir/link1", "link2", "target"]
    );
}

#[test]
fn a_followpath_dot_selects_everything() {
    assert_eq!(resolve(&fixture(), &["a", "."]).unwrap(), ["."]);
    let tree = [("", Node::Dir(&["up"])), ("up", Node::Link(".."))];
    assert_eq!(resolve(&tree, &["up"]).unwrap(), [".", "up"]);
}

#[test]
fn symlink_cycles_are_followed_once() {
    let tree = [("", Node::Dir(&["x", "y"])), ("x", Node::Link("y")), ("y", Node::Link("x"))];
    assert_eq!(resolve(&tree, &["x"]).unwrap(), ["x", "y"]);
}

#[test]
fn pruning_keeps_only_the_first_of_nested_paths() {
    let tree = [("", Node::Dir(&[]))];
    assert_eq!(resolve(&tree, &["a/c", "a", "a-b"]).unwrap(), ["a", "a-b", "a/c"]);
    assert_eq!(resolve(&tree, &["a/c", "a"]).unwrap(), ["a"]);
}

#[test]
fn invalid_wildcards_and_long_paths_are_refused() {
    let err = resolve(&fixture(), &["dir/[a"]).unwrap_err();
    assert_eq!(err.code, SyncCode::InvalidArgument);
    assert_eq!(err.message, "invalid FileSync followpath pattern: \"[a\"");
    let long = "x".repeat(4097);
    let err = resolve(&fixture(), &[long.as_str()]).unwrap_err();
    assert_eq!(err.code, SyncCode::InvalidArgument);
    assert_eq!(err.message, "invalid FileSync followpaths path");
}

#[test]
fn answers_nobody_asked_for_change_nothing() {
    let mut resolver = FollowResolver::new(vec![String::from("a*")]).unwrap();
    resolver.inspected(EntryKind::Directory).unwrap();
    resolver.link_read("x");
    assert_eq!(resolver.step().unwrap(), FollowStep::Continue);
    assert_eq!(resolver.step().unwrap(), FollowStep::List(String::new()));
    assert_eq!(resolver.step().unwrap(), FollowStep::List(String::new()));
    resolver.listed(Some(vec![Some(String::from("ab")), None, Some(String::from("b"))])).unwrap();
    assert_eq!(resolver.step().unwrap(), FollowStep::Continue);
    assert_eq!(resolver.step().unwrap(), FollowStep::Inspect(String::from("ab")));
    resolver.inspected(EntryKind::Missing).unwrap();
    assert_eq!(resolver.step().unwrap(), FollowStep::Continue);
    assert_eq!(resolver.step().unwrap(), FollowStep::Done(vec![String::from("a*")]));
}
