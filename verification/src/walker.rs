//! The walker: which directories under the configured roots are project
//! roots.
//!
//! A directory is read if it lies less than `depth` levels below its root.
//! If one of its entries bears the name of a project marker, the directory is
//! a candidate and nothing below it is looked at. Otherwise the walk goes on
//! in each entry that is a directory proper (no symbolic link) and whose name
//! is not excluded.

use vstd::prelude::*;
use crate::config::{Config, ConfigView};
use crate::config::exclude::set_contains;
use crate::text::{copy_str, same_str, views};
use crate::util::{join_path, joined_path};

verus! {

/// What an entry of a directory is.
#[derive(Debug, Clone, Copy, PartialEq, Eq, Structural)]
pub enum EntryKind {
    /// A directory proper.
    Dir,
    /// A symbolic link, whatever it points at.
    Link,
    /// Anything else.
    File,
}

/// One entry of a directory.
#[derive(Debug, PartialEq, Eq)]
pub struct DirEntry {
    pub name: String,
    pub kind: EntryKind,
}

/// What was read of a directory: its entries and, for each of them in the
/// same order, what was read below it. What is missing at the end of `below`
/// counts as not read.
#[derive(Debug, PartialEq, Eq)]
pub struct Listing {
    pub entries: Vec<DirEntry>,
    pub below: Vec<Listing>,
}

/// What to do with a directory whose entries were read.
#[derive(Debug, PartialEq, Eq)]
pub enum Verdict {
    /// The directory is a project root; the entry at this position is the
    /// first that marks it.
    Candidate(usize),
    /// The directory is none; the walk goes on in the entries at these
    /// positions.
    Descend(Vec<usize>),
}

/// Some entry bears the name of a marker.
pub open spec fn marked(markers: Seq<Seq<char>>, entries: Seq<DirEntry>) -> bool {
    exists|i: int| 0 <= i < entries.len() && markers.contains(#[trigger] entries[i].name@)
}

/// The walk goes on in this entry: a directory proper whose name is not
/// excluded.
pub open spec fn enters(excludes: Seq<Seq<char>>, entry: DirEntry) -> bool {
    entry.kind == EntryKind::Dir && !excludes.contains(entry.name@)
}

/// The positions among the first `n` entries in which the walk goes on, in
/// rising order.
pub open spec fn entered(excludes: Seq<Seq<char>>, entries: Seq<DirEntry>, n: nat) -> Seq<int>
    decreases n,
{
    if n == 0 || n > entries.len() {
        Seq::<int>::empty()
    } else if enters(excludes, entries[n - 1]) {
        entered(excludes, entries, (n - 1) as nat).push(n - 1)
    } else {
        entered(excludes, entries, (n - 1) as nat)
    }
}

/// The candidates in the directory `path` that lies `level` levels below its
/// root and of which `l` was read.
pub open spec fn walked(cfg: ConfigView, path: Seq<char>, l: Listing, level: nat) -> Seq<Seq<char>>
    decreases l, 1nat, 0nat,
{
    if level >= cfg.depth {
        Seq::<Seq<char>>::empty()
    } else if marked(cfg.markers, l.entries@) {
        seq![path]
    } else {
        walked_first(cfg, path, l, level, l.entries@.len())
    }
}

/// The candidates below the first `n` entries of a directory that is no
/// candidate itself.
pub open spec fn walked_first(cfg: ConfigView, path: Seq<char>, l: Listing, level: nat, n: nat) -> Seq<
    Seq<char>,
>
    decreases l, 0nat, n,
{
    if n == 0 || n > l.entries@.len() {
        Seq::<Seq<char>>::empty()
    } else {
        walked_first(cfg, path, l, level, (n - 1) as nat) + walked_entry(cfg, path, l, level, n - 1)
    }
}

/// The candidates below the entry at position `i`.
pub open spec fn walked_entry(cfg: ConfigView, path: Seq<char>, l: Listing, level: nat, i: int) -> Seq<
    Seq<char>,
>
    decreases l, 0nat, 0nat,
{
    if 0 <= i < l.entries@.len() && i < l.below@.len() && enters(cfg.excludes, l.entries@[i]) {
        walked(cfg, joined_path(path, l.entries@[i].name@), l.below@[i], level + 1)
    } else {
        Seq::<Seq<char>>::empty()
    }
}

/// The candidates under the first `n` roots: root `i` with what was read of
/// it, `trees[i]`. A root of which nothing was read gives nothing.
pub open spec fn walked_roots(cfg: ConfigView, trees: Seq<Listing>, n: nat) -> Seq<Seq<char>>
    decreases n,
{
    if n == 0 || n > cfg.workspace.len() {
        Seq::<Seq<char>>::empty()
    } else {
        walked_roots(cfg, trees, (n - 1) as nat) + (if n <= trees.len() {
            walked(cfg, cfg.workspace[n - 1], trees[n - 1], 0)
        } else {
            Seq::<Seq<char>>::empty()
        })
    }
}

/// All candidates: the single paths as they are, then what the walk finds
/// under each root, root after root.
pub open spec fn candidates(cfg: ConfigView, trees: Seq<Listing>) -> Seq<Seq<char>> {
    cfg.single + walked_roots(cfg, trees, cfg.workspace.len())
}

/// Where a trail of positions leads from the directory `path`: at each step
/// into an entry that the walk enters, from a directory that is no candidate.
/// `None` where the walk does not go that way.
pub open spec fn reached(cfg: ConfigView, path: Seq<char>, l: Listing, trail: Seq<int>) -> Option<
    (Seq<char>, Listing),
>
    decreases trail.len(),
{
    if trail.len() == 0 {
        Some((path, l))
    } else {
        let i = trail[0];
        if 0 <= i < l.entries@.len() && i < l.below@.len() && enters(cfg.excludes, l.entries@[i])
            && !marked(cfg.markers, l.entries@) {
            reached(cfg, joined_path(path, l.entries@[i].name@), l.below@[i], trail.drop_first())
        } else {
            None
        }
    }
}

/// The trail leads to the candidate `c`: to a directory with that path, read
/// within the depth, one of whose entries bears a marker's name.
pub open spec fn found_by(
    cfg: ConfigView,
    path: Seq<char>,
    l: Listing,
    level: nat,
    trail: Seq<int>,
    c: Seq<char>,
) -> bool {
    &&& level + trail.len() < cfg.depth
    &&& reached(cfg, path, l, trail) matches Some(end)
    &&& end.0 == c
    &&& marked(cfg.markers, end.1.entries@)
}

proof fn lemma_found(cfg: ConfigView, path: Seq<char>, l: Listing, level: nat, c: Seq<char>) -> (trail:
    Seq<int>)
    requires
        walked(cfg, path, l, level).contains(c),
    ensures
        found_by(cfg, path, l, level, trail, c),
    decreases l, 1nat, 0nat,
{
    if marked(cfg.markers, l.entries@) {
        assert(c == path);
        Seq::<int>::empty()
    } else {
        lemma_found_first(cfg, path, l, level, l.entries@.len(), c)
    }
}

proof fn lemma_found_first(
    cfg: ConfigView,
    path: Seq<char>,
    l: Listing,
    level: nat,
    n: nat,
    c: Seq<char>,
) -> (trail: Seq<int>)
    requires
        level < cfg.depth,
        !marked(cfg.markers, l.entries@),
        walked_first(cfg, path, l, level, n).contains(c),
    ensures
        found_by(cfg, path, l, level, trail, c),
    decreases l, 0nat, n,
{
    let before = walked_first(cfg, path, l, level, (n - 1) as nat);
    let here = walked_entry(cfg, path, l, level, n - 1);
    assert(n > 0 && n <= l.entries@.len());
    if before.contains(c) {
        lemma_found_first(cfg, path, l, level, (n - 1) as nat, c)
    } else {
        let k = choose|k: int| 0 <= k < (before + here).len() && (before + here)[k] == c;
        assert(here[k - before.len()] == c);
        assert(here.contains(c));
        let i = n - 1;
        let child = joined_path(path, l.entries@[i].name@);
        let rest = lemma_found(cfg, child, l.below@[i], level + 1, c);
        let trail = seq![i] + rest;
        assert(trail.drop_first() =~= rest);
        trail
    }
}

/// Every candidate that the walk finds under a root lies where a trail of
/// entries leads: each of them a directory proper whose name is not
/// excluded, fewer of them than the depth, and at its end a directory that
/// holds an entry with a marker's name.
pub proof fn law_candidates_are_marked(cfg: ConfigView, root: Seq<char>, l: Listing, c: Seq<char>)
    requires
        walked(cfg, root, l, 0).contains(c),
    ensures
        exists|trail: Seq<int>| found_by(cfg, root, l, 0, trail, c),
{
    let trail = lemma_found(cfg, root, l, 0, c);
    assert(found_by(cfg, root, l, 0, trail, c));
}

proof fn lemma_entry_within_first(
    cfg: ConfigView,
    path: Seq<char>,
    l: Listing,
    level: nat,
    n: nat,
    i: int,
    c: Seq<char>,
)
    requires
        0 <= i < n <= l.entries@.len(),
        walked_entry(cfg, path, l, level, i).contains(c),
    ensures
        walked_first(cfg, path, l, level, n).contains(c),
    decreases n,
{
    let before = walked_first(cfg, path, l, level, (n - 1) as nat);
    let here = walked_entry(cfg, path, l, level, n - 1);
    if i == n - 1 {
        let k = choose|k: int| 0 <= k < here.len() && here[k] == c;
        assert((before + here)[before.len() + k] == c);
    } else {
        lemma_entry_within_first(cfg, path, l, level, (n - 1) as nat, i, c);
        let k = choose|k: int| 0 <= k < before.len() && before[k] == c;
        assert((before + here)[k] == c);
    }
}

proof fn lemma_reached_is_found(
    cfg: ConfigView,
    path: Seq<char>,
    l: Listing,
    level: nat,
    trail: Seq<int>,
    c: Seq<char>,
)
    requires
        found_by(cfg, path, l, level, trail, c),
    ensures
        walked(cfg, path, l, level).contains(c),
    decreases trail.len(),
{
    if trail.len() == 0 {
        assert(seq![path][0] == c);
    } else {
        let i = trail[0];
        let child = joined_path(path, l.entries@[i].name@);
        lemma_reached_is_found(cfg, child, l.below@[i], level + 1, trail.drop_first(), c);
        lemma_entry_within_first(cfg, path, l, level, l.entries@.len(), i, c);
    }
}

/// Every directory that a trail of entered entries leads to within the
/// depth, and that holds an entry with a marker's name, is among the
/// candidates.
pub proof fn law_marked_directories_are_found(
    cfg: ConfigView,
    root: Seq<char>,
    l: Listing,
    trail: Seq<int>,
    c: Seq<char>,
)
    requires
        found_by(cfg, root, l, 0, trail, c),
    ensures
        walked(cfg, root, l, 0).contains(c),
{
    lemma_reached_is_found(cfg, root, l, 0, trail, c);
}

/// With a depth of zero nothing is read, so the walk finds nothing.
pub proof fn law_depth_zero_finds_nothing(cfg: ConfigView, root: Seq<char>, l: Listing)
    requires
        cfg.depth == 0,
    ensures
        walked(cfg, root, l, 0) == Seq::<Seq<char>>::empty(),
{
}

/// What finds the candidate directories of the configured search space.
pub trait Walker {
    /// The settings that the walk goes by.
    spec fn settings(&self) -> ConfigView;

    /// The candidates, given what was read under each root.
    fn paths_from_walk(&self, trees: &Vec<Listing>) -> (out: Vec<String>)
        ensures
            views(out@) == candidates(self.settings(), trees@),
    ;
}

impl Config {
    /// Whether `name` is the name of a project marker.
    pub fn is_marker(&self, name: &str) -> (r: bool)
        ensures
            r == self@.markers.contains(name@),
    {
        let mut i: usize = 0;
        while i < self.project_markers.len()
            invariant
                i <= self.project_markers.len(),
                forall|k: int| 0 <= k < i ==> self@.markers[k] != name@,
            decreases self.project_markers.len() - i,
        {
            if same_str(self.project_markers[i].as_str(), name) {
                assert(self@.markers[i as int] == name@);
                return true;
            }
            i += 1;
        }
        false
    }

    /// Whether `name` is excluded from the walk.
    pub fn is_excluded(&self, name: &str) -> (r: bool)
        ensures
            r == self@.excludes.contains(name@),
    {
        set_contains(&self.exclude_path, name)
    }

    /// The position of the first entry that bears a marker's name.
    pub fn first_marker(&self, entries: &Vec<DirEntry>) -> (r: Option<usize>)
        ensures
            match r {
                Some(i) => i < entries.len() && self@.markers.contains(entries@[i as int].name@)
                    && forall|k: int|
                    0 <= k < i ==> !self@.markers.contains(#[trigger] entries@[k].name@),
                None => !marked(self@.markers, entries@),
            },
    {
        let mut i: usize = 0;
        while i < entries.len()
            invariant
                i <= entries.len(),
                forall|k: int| 0 <= k < i ==> !self@.markers.contains(#[trigger] entries@[k].name@),
            decreases entries.len() - i,
        {
            if self.is_marker(entries[i].name.as_str()) {
                return Some(i);
            }
            i += 1;
        }
        None
    }

    /// Whether the walk goes on in `entry`.
    pub fn may_enter(&self, entry: &DirEntry) -> (r: bool)
        ensures
            r == enters(self@.excludes, *entry),
    {
        match entry.kind {
            EntryKind::Dir => !self.is_excluded(entry.name.as_str()),
            _ => false,
        }
    }

    /// What to do with a directory that lies `level` levels below its root
    /// and whose entries were read. It is a candidate if an entry bears a
    /// marker's name. If not, the walk goes on in its directories that are not
    /// excluded, as long as they lie within the depth.
    pub fn inspect(&self, level: usize, entries: &Vec<DirEntry>) -> (v: Verdict)
        ensures
            match v {
                Verdict::Candidate(i) => i < entries.len() && self@.markers.contains(
                    entries@[i as int].name@,
                ) && forall|k: int|
                    0 <= k < i ==> !self@.markers.contains(#[trigger] entries@[k].name@),
                Verdict::Descend(at) => !marked(self@.markers, entries@) && at@.map_values(
                    |i: usize| i as int,
                ) == if level + 1 < self@.depth {
                    entered(self@.excludes, entries@, entries@.len())
                } else {
                    Seq::<int>::empty()
                },
            },
    {
        match self.first_marker(entries) {
            Some(i) => Verdict::Candidate(i),
            None => {
                let mut at: Vec<usize> = Vec::new();
                if level < usize::MAX && level + 1 < self.depth {
                    let mut i: usize = 0;
                    while i < entries.len()
                        invariant
                            i <= entries.len(),
                            at@.map_values(|i: usize| i as int) == entered(
                                self@.excludes,
                                entries@,
                                i as nat,
                            ),
                        decreases entries.len() - i,
                    {
                        if self.may_enter(&entries[i]) {
                            let ghost before = at@.map_values(|i: usize| i as int);
                            at.push(i);
                            assert(at@.map_values(|i: usize| i as int) =~= before.push(i as int));
                        }
                        i += 1;
                    }
                }
                Verdict::Descend(at)
            },
        }
    }

    /// Adds to `out` the candidates in the directory `path`, `level` levels
    /// below its root, of which `l` was read.
    pub fn walk_into(&self, path: &str, l: &Listing, level: usize, out: &mut Vec<String>)
        ensures
            views(final(out)@) == views(old(out)@) + walked(self@, path@, *l, level as nat),
        decreases l,
    {
        if level >= self.depth {
            assert(views(out@) + Seq::<Seq<char>>::empty() =~= views(out@));
            return ;
        }
        match self.first_marker(&l.entries) {
            Some(_) => {
                let ghost before = views(out@);
                out.push(copy_str(path));
                assert(views(out@) =~= before + seq![path@]);
            },
            None => {
                let n = l.entries.len();
                let mut i: usize = 0;
                assert(views(out@) + Seq::<Seq<char>>::empty() =~= views(out@));
                while i < n
                    invariant
                        i <= n,
                        n == l.entries.len(),
                        level < self.depth,
                        views(out@) == views(old(out)@) + walked_first(
                            self@,
                            path@,
                            *l,
                            level as nat,
                            i as nat,
                        ),
                    decreases n - i,
                {
                    let ghost so_far = walked_first(self@, path@, *l, level as nat, i as nat);
                    let ghost here = walked_entry(self@, path@, *l, level as nat, i as int);
                    if i < l.below.len() && self.may_enter(&l.entries[i]) {
                        let child = join_path(path, l.entries[i].name.as_str());
                        self.walk_into(child.as_str(), &l.below[i], level + 1, out);
                    }
                    assert(views(out@) =~= views(old(out)@) + (so_far + here));
                    i += 1;
                }
            },
        }
    }
}

impl Walker for Config {
    open spec fn settings(&self) -> ConfigView {
        self@
    }

    fn paths_from_walk(&self, trees: &Vec<Listing>) -> (out: Vec<String>) {
        let mut out: Vec<String> = Vec::new();
        let mut k: usize = 0;
        while k < self.search.single.len()
            invariant
                k <= self.search.single.len(),
                views(out@) == self@.single.take(k as int),
            decreases self.search.single.len() - k,
        {
            let ghost before = views(out@);
            out.push(copy_str(self.search.single[k].as_str()));
            assert(views(out@) =~= before.push(self@.single[k as int]));
            assert(self@.single.take(k + 1) =~= self@.single.take(k as int).push(
                self@.single[k as int],
            ));
            k += 1;
        }
        assert(self@.single.take(self.search.single.len() as int) =~= self@.single);
        let n = self.search.workspace.len();
        let mut i: usize = 0;
        assert(views(out@) + Seq::<Seq<char>>::empty() =~= views(out@));
        while i < n
            invariant
                i <= n,
                n == self.search.workspace.len(),
                views(out@) == self@.single + walked_roots(self@, trees@, i as nat),
            decreases n - i,
        {
            let ghost so_far = walked_roots(self@, trees@, i as nat);
            if i < trees.len() {
                self.walk_into(self.search.workspace[i].as_str(), &trees[i], 0, &mut out);
                assert(views(out@) =~= self@.single + (so_far + walked(
                    self@,
                    self@.workspace[i as int],
                    trees@[i as int],
                    0,
                )));
            } else {
                assert(so_far + Seq::<Seq<char>>::empty() =~= so_far);
            }
            i += 1;
        }
        out
    }
}

} // verus!
