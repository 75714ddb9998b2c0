use tuxmux::config::Config;
use tuxmux::walker::{DirEntry, EntryKind, Listing, Verdict, Walker};

fn strs(items: &[&str]) -> Vec<String> {
    items.iter().map(|s| s.to_string()).collect()
}

fn entry(name: &str, kind: EntryKind) -> DirEntry {
    DirEntry { name: name.to_string(), kind }
}

fn dir(name: &str) -> DirEntry {
    entry(name, EntryKind::Dir)
}

fn file(name: &str) -> DirEntry {
    entry(name, EntryKind::File)
}

fn empty() -> Listing {
    Listing { entries: vec![], below: vec![] }
}

fn listing(items: Vec<(DirEntry, Listing)>) -> Listing {
    let mut entries = vec![];
    let mut below = vec![];
    for (e, l) in items {
        entries.push(e);
        below.push(l);
    }
    Listing { entries, below }
}

fn repo() -> Listing {
    listing(vec![(dir(".git"), empty()), (dir("src"), empty())])
}

fn config(depth: usize) -> Config {
    let mut c = Config::new(Some("/home/u"));
    c.search.workspace = strs(&["/ws"]);
    c.depth = depth;
    c
}

#[test]
fn single_paths_come_first_and_as_they_are() {
    let mut c = config(3);
    c.search.single = strs(&["/notes", "/notes"]);
    let tree = listing(vec![(dir("a"), repo())]);
    assert_eq!(c.paths_from_walk(&vec![tree]), strs(&["/notes", "/notes", "/ws/a"]));
}

#[test]
fn a_marker_may_be_a_file_or_a_directory() {
    let c = config(3);
    let tree = listing(vec![
        (dir("normal"), listing(vec![(dir(".git"), empty())])),
        (dir("linked"), listing(vec![(file(".git"), empty())])),
        (dir("bare"), listing(vec![(dir(".bare"), empty())])),
        (dir("plain"), listing(vec![(file("README"), empty())])),
    ]);
    assert_eq!(c.paths_from_walk(&vec![tree]), strs(&["/ws/normal", "/ws/linked", "/ws/bare"]));
}

#[test]
fn a_candidate_is_a_leaf_of_the_walk() {
    let c = config(5);
    let nested = listing(vec![(dir(".git"), empty()), (dir("vendor"), repo())]);
    let tree = listing(vec![(dir("outer"), nested)]);
    assert_eq!(c.paths_from_walk(&vec![tree]), strs(&["/ws/outer"]));
}

#[test]
fn excluded_directories_are_pruned() {
    let c = config(5);
    let tree = listing(vec![
        (dir("node_modules"), listing(vec![(dir("pkg"), repo())])),
        (dir(".cache"), repo()),
        (dir("ok"), repo()),
    ]);
    assert_eq!(c.paths_from_walk(&vec![tree]), strs(&["/ws/ok"]));
}

#[test]
fn hidden_directories_are_walked() {
    let c = config(5);
    let tree = listing(vec![(dir(".dotfiles"), repo())]);
    assert_eq!(c.paths_from_walk(&vec![tree]), strs(&["/ws/.dotfiles"]));
}

#[test]
fn symbolic_links_are_not_followed() {
    let c = config(5);
    let tree = listing(vec![(entry("link", EntryKind::Link), repo()), (file("f"), repo())]);
    assert_eq!(c.paths_from_walk(&vec![tree]), Vec::<String>::new());
}

#[test]
fn the_depth_bounds_the_walk() {
    let deep = listing(vec![(dir("a"), listing(vec![(dir("b"), repo())]))]);
    assert_eq!(config(3).paths_from_walk(&vec![listing(vec![(dir("a"), listing(vec![(dir("b"), repo())]))])]), strs(&["/ws/a/b"]));
    assert_eq!(config(2).paths_from_walk(&vec![deep]), Vec::<String>::new());
    assert_eq!(config(1).paths_from_walk(&vec![repo()]), strs(&["/ws"]));
    assert_eq!(config(0).paths_from_walk(&vec![repo()]), Vec::<String>::new());
}

#[test]
fn roots_are_walked_in_their_order() {
    let mut c = config(3);
    c.search.workspace = strs(&["/one", "/two/", "/three"]);
    let trees = vec![listing(vec![(dir("x"), repo())]), listing(vec![(dir("y"), repo())])];
    assert_eq!(c.paths_from_walk(&trees), strs(&["/one/x", "/two/y"]));
}

#[test]
fn a_root_that_was_not_read_gives_nothing() {
    let c = config(3);
    assert_eq!(c.paths_from_walk(&vec![]), Vec::<String>::new());
    assert_eq!(c.paths_from_walk(&vec![empty()]), Vec::<String>::new());
}

#[test]
fn what_was_not_read_below_counts_as_empty() {
    let c = config(3);
    let tree = Listing { entries: vec![dir("a"), dir("b")], below: vec![repo()] };
    assert_eq!(c.paths_from_walk(&vec![tree]), strs(&["/ws/a"]));
}

#[test]
fn every_candidate_holds_a_marker_and_no_excluded_name() {
    let c = config(4);
    let tree = listing(vec![
        (dir("a"), listing(vec![(dir("b"), repo()), (dir(".local"), repo())])),
        (dir("c"), repo()),
        (dir("node_modules"), repo()),
    ]);
    let found = c.paths_from_walk(&vec![tree]);
    assert_eq!(found, strs(&["/ws/a/b", "/ws/c"]));
    for path in &found {
        let rel = path.strip_prefix("/ws/").unwrap();
        for part in rel.split('/') {
            assert!(!c.is_excluded(part));
        }
    }
}

#[test]
fn inspect_names_the_first_marker() {
    let c = config(3);
    let entries = vec![file("a"), dir(".bare"), dir(".git")];
    assert_eq!(c.inspect(0, &entries), Verdict::Candidate(1));
    assert_eq!(c.first_marker(&entries), Some(1));
}

#[test]
fn inspect_lists_where_the_walk_goes_on() {
    let c = config(3);
    let entries =
        vec![dir("a"), file("b"), dir("node_modules"), entry("l", EntryKind::Link), dir("c")];
    assert_eq!(c.inspect(0, &entries), Verdict::Descend(vec![0, 4]));
    assert_eq!(c.inspect(1, &entries), Verdict::Descend(vec![0, 4]));
    assert_eq!(c.inspect(2, &entries), Verdict::Descend(vec![]));
    assert_eq!(c.inspect(usize::MAX, &entries), Verdict::Descend(vec![]));
}

#[test]
fn markers_and_exclusions_are_by_whole_name() {
    let c = config(3);
    assert!(c.is_marker(".git"));
    assert!(c.is_marker(".bare"));
    assert!(!c.is_marker(".gitignore"));
    assert!(!c.is_marker("git"));
    assert!(c.is_excluded("node_modules"));
    assert!(!c.is_excluded("node_module"));
    assert!(c.may_enter(&dir("src")));
    assert!(!c.may_enter(&dir(".direnv")));
    assert!(!c.may_enter(&file("src")));
}

#[test]
fn walk_into_adds_to_what_is_there() {
    let c = config(3);
    let mut out = strs(&["kept"]);
    c.walk_into("/r", &listing(vec![(dir("p"), repo())]), 0, &mut out);
    assert_eq!(out, strs(&["kept", "/r/p"]));
    c.walk_into("/r", &repo(), 3, &mut out);
    assert_eq!(out, strs(&["kept", "/r/p"]));
}
