//! What is known of a repository, and which session its worktrees call for.

use vstd::prelude::*;
use crate::mux::{op_views, MuxOp, MuxOpView};
use crate::text::{chars_of, copy_str, opt_view, same_str, string_from_chars, views};

verus! {

/// A linked worktree: its name on disk, the directory that is checked out,
/// and the branch that is checked out there if it is known.
#[derive(Debug, PartialEq, Eq)]
pub struct WorktreeRecord {
    pub id: String,
    pub base_path: String,
    pub branch_name: Option<String>,
}

/// What the inspector found of a repository.
#[derive(Debug, PartialEq, Eq)]
pub struct Repo {
    pub is_bare: bool,
    pub worktrees: Vec<WorktreeRecord>,
    pub head_branch: Option<String>,
    pub default_branch: Option<String>,
}

/// A worktree as mathematical values.
pub struct WorktreeView {
    pub id: Seq<char>,
    pub base: Seq<char>,
    pub branch: Option<Seq<char>>,
}

/// A repository as mathematical values.
pub struct RepoView {
    pub is_bare: bool,
    pub worktrees: Seq<WorktreeView>,
    pub head: Option<Seq<char>>,
    pub default: Option<Seq<char>>,
}

impl View for WorktreeRecord {
    type V = WorktreeView;

    open spec fn view(&self) -> WorktreeView {
        WorktreeView { id: self.id@, base: self.base_path@, branch: opt_view(self.branch_name) }
    }
}

impl View for Repo {
    type V = RepoView;

    open spec fn view(&self) -> RepoView {
        RepoView {
            is_bare: self.is_bare,
            worktrees: self.worktrees@.map_values(|w: WorktreeRecord| w@),
            head: opt_view(self.head_branch),
            default: opt_view(self.default_branch),
        }
    }
}

/// The view of an optional repository.
pub open spec fn opt_repo(r: Option<Repo>) -> Option<RepoView> {
    match r {
        Some(repo) => Some(repo@),
        None => None,
    }
}

/// How worktrees are dealt with in one invocation.
#[derive(Debug, Clone, Copy, PartialEq, Eq, Structural)]
pub enum Policy {
    /// One window for every worktree.
    All,
    /// The worktree of the default branch, without asking.
    Default,
    /// The user picks.
    Prompt,
}

/// What to do for a session that does not exist yet.
#[derive(Debug, PartialEq, Eq)]
pub enum Step {
    /// Run these operations.
    Run(Vec<MuxOp>),
    /// Let the user pick among these, then go on with the pick.
    Ask(Vec<String>),
    /// The worktree of the default branch was asked for and is not there.
    Fail,
}

/// A step as mathematical values.
pub enum StepView {
    Run(Seq<MuxOpView>),
    Ask(Seq<Seq<char>>),
    Fail,
}

impl View for Step {
    type V = StepView;

    open spec fn view(&self) -> StepView {
        match self {
            Step::Run(ops) => StepView::Run(op_views(ops@)),
            Step::Ask(items) => StepView::Ask(views(items@)),
            Step::Fail => StepView::Fail,
        }
    }
}

/// The name of the default branch in the short name of the reference that
/// the remote's `HEAD` points at: what follows the remote's name and one more
/// character. `None` where the short name is not that long.
pub open spec fn branch_of(short: Seq<char>, remote: Seq<char>) -> Option<Seq<char>> {
    if short.len() >= remote.len() + 1 {
        Some(short.subrange(remote.len() + 1 as int, short.len() as int))
    } else {
        None
    }
}

/// The window for a session in a worktree: named by the branch checked out
/// there, or by the worktree where the branch is not known.
pub open spec fn window_of(w: WorktreeView) -> Seq<char> {
    match w.branch {
        Some(b) => b,
        None => w.id,
    }
}

/// A session in `cwd` with its first window named `window`, then attached.
pub open spec fn session_at(name: Seq<char>, cwd: Seq<char>, window: Option<Seq<char>>) -> Seq<
    MuxOpView,
> {
    seq![MuxOpView::CreateSession { name, cwd, window }, MuxOpView::AttachSession { name }]
}

/// A session in a worktree.
pub open spec fn session_in(name: Seq<char>, w: WorktreeView) -> Seq<MuxOpView> {
    session_at(name, w.base, Some(window_of(w)))
}

/// One window for each worktree, named by the worktree and opened in its
/// directory.
pub open spec fn windows_for(worktrees: Seq<WorktreeView>) -> Seq<MuxOpView> {
    worktrees.map_values(
        |w: WorktreeView| MuxOpView::CreateWindow { name: w.id, path: Some(w.base) },
    )
}

/// A session with a window for every worktree. The first window of a bare
/// repository with worktrees is its first worktree; any other session starts
/// in the selected directory, its first window named by the branch at `HEAD`.
pub open spec fn session_for_all(name: Seq<char>, selected: Seq<char>, r: RepoView) -> Seq<
    MuxOpView,
> {
    if r.is_bare && r.worktrees.len() >= 1 {
        seq![
            MuxOpView::CreateSession {
                name,
                cwd: r.worktrees[0].base,
                window: Some(r.worktrees[0].id),
            },
        ] + windows_for(r.worktrees.subrange(1, r.worktrees.len() as int)) + seq![
            MuxOpView::AttachSession { name },
        ]
    } else {
        seq![MuxOpView::CreateSession { name, cwd: selected, window: r.head }] + windows_for(
            r.worktrees,
        ) + seq![MuxOpView::AttachSession { name }]
    }
}

/// The position of the first worktree with the name `id`.
pub open spec fn position_of(worktrees: Seq<WorktreeView>, id: Seq<char>) -> Option<int>
    decreases worktrees.len(),
{
    if worktrees.len() == 0 {
        None
    } else {
        match position_of(worktrees.drop_last(), id) {
            Some(i) => Some(i),
            None => if worktrees.last().id == id {
                Some(worktrees.len() - 1)
            } else {
                None
            },
        }
    }
}

/// What the user picks from: the worktrees by name, and before them the
/// branch at `HEAD` of a repository that has a working directory of its own.
pub open spec fn choices(r: RepoView) -> Seq<Seq<char>> {
    let ids = r.worktrees.map_values(|w: WorktreeView| w.id);
    match r.head {
        Some(h) => if r.is_bare {
            ids
        } else {
            seq![h] + ids
        },
        None => ids,
    }
}

/// Whether the first choice stands for the repository's own working
/// directory.
pub open spec fn offers_own(r: RepoView) -> bool {
    !r.is_bare && r.head is Some
}

/// The session for the pick at position `k` of the choices; `None` where
/// there is no such choice.
pub open spec fn chosen(name: Seq<char>, selected: Seq<char>, r: RepoView, k: int) -> Option<
    Seq<MuxOpView>,
> {
    if offers_own(r) && k == 0 {
        Some(session_at(name, selected, r.head))
    } else {
        let i = if offers_own(r) {
            k - 1
        } else {
            k
        };
        if 0 <= i < r.worktrees.len() {
            Some(session_in(name, r.worktrees[i]))
        } else {
            None
        }
    }
}

/// What to do for the session `name` of the directory `selected`, which does
/// not exist yet.
///
/// Without a repository the session starts in the directory. With all
/// worktrees asked for, it gets a window for each. With the default asked
/// for, it starts in the directory unless the repository is bare and has
/// worktrees: then in its only worktree, or in the one named as the default
/// branch is, and not at all where no worktree is named so. Otherwise the
/// user picks if there are worktrees.
pub open spec fn planned(policy: Policy, name: Seq<char>, selected: Seq<char>, repo: Option<
    RepoView,
>) -> StepView {
    match repo {
        None => StepView::Run(session_at(name, selected, None)),
        Some(r) => match policy {
            Policy::All => StepView::Run(session_for_all(name, selected, r)),
            Policy::Default => if !r.is_bare || r.worktrees.len() == 0 {
                StepView::Run(session_at(name, selected, r.head))
            } else if r.worktrees.len() == 1 {
                StepView::Run(session_in(name, r.worktrees[0]))
            } else {
                match r.default {
                    None => StepView::Fail,
                    Some(d) => match position_of(r.worktrees, d) {
                        Some(i) => StepView::Run(
                            session_at(name, r.worktrees[i].base, Some(r.worktrees[i].id)),
                        ),
                        None => StepView::Fail,
                    },
                }
            },
            Policy::Prompt => if r.worktrees.len() == 0 {
                StepView::Run(session_at(name, selected, r.head))
            } else {
                StepView::Ask(choices(r))
            },
        },
    }
}

/// Each plan that runs creates the session once, first, and attaches it
/// last; so the session exists after it.
pub proof fn law_plan_creates_then_attaches(
    policy: Policy,
    name: Seq<char>,
    selected: Seq<char>,
    repo: Option<RepoView>,
)
    ensures
        planned(policy, name, selected, repo) matches StepView::Run(ops) ==> ops.len() >= 2
            && ops[0] is CreateSession && ops[0]->CreateSession_name == name && ops.last() == (
            MuxOpView::AttachSession { name }),
{
}

/// The default branch from the short name of the reference behind the
/// remote's `HEAD`.
pub fn default_branch(short: &str, remote: &str) -> (r: Option<String>)
    ensures
        opt_view(r) == branch_of(short@, remote@),
{
    let s = chars_of(short);
    let n = chars_of(remote).len();
    if n >= s.len() {
        return None;
    }
    let mut out: Vec<char> = Vec::new();
    let mut i: usize = n + 1;
    while i < s.len()
        invariant
            n + 1 <= i <= s.len(),
            out@ == s@.subrange(n + 1, i as int),
        decreases s.len() - i,
    {
        out.push(s[i]);
        assert(s@.subrange(n + 1, i + 1) =~= s@.subrange(n + 1, i as int).push(s@[i as int]));
        i += 1;
    }
    Some(string_from_chars(&out))
}

fn copy_opt(o: &Option<String>) -> (r: Option<String>)
    ensures
        opt_view(r) == opt_view(*o),
{
    match o {
        Some(s) => Some(copy_str(s.as_str())),
        None => None,
    }
}

fn make_session(name: &str, cwd: &str, window: Option<String>) -> (ops: Vec<MuxOp>)
    ensures
        op_views(ops@) == session_at(name@, cwd@, opt_view(window)),
{
    let mut ops: Vec<MuxOp> = Vec::new();
    ops.push(MuxOp::CreateSession { name: copy_str(name), cwd: copy_str(cwd), window });
    ops.push(MuxOp::AttachSession { name: copy_str(name) });
    assert(op_views(ops@) =~= session_at(name@, cwd@, opt_view(window)));
    ops
}

fn make_session_in(name: &str, w: &WorktreeRecord) -> (ops: Vec<MuxOp>)
    ensures
        op_views(ops@) == session_in(name@, w@),
{
    let window = match &w.branch_name {
        Some(b) => copy_str(b.as_str()),
        None => copy_str(w.id.as_str()),
    };
    make_session(name, w.base_path.as_str(), Some(window))
}

impl Repo {
    /// The position of the first worktree named `id`.
    pub fn find_worktree(&self, id: &str) -> (r: Option<usize>)
        ensures
            match r {
                Some(i) => i < self.worktrees.len() && position_of(self@.worktrees, id@) == Some(
                    i as int,
                ),
                None => position_of(self@.worktrees, id@) is None,
            },
    {
        let ghost all = self@.worktrees;
        let mut i: usize = 0;
        assert(all.take(0) =~= Seq::<WorktreeView>::empty());
        while i < self.worktrees.len()
            invariant
                i <= self.worktrees.len(),
                all == self@.worktrees,
                position_of(all.take(i as int), id@) is None,
            decreases self.worktrees.len() - i,
        {
            proof {
                assert(all.take(i + 1).drop_last() =~= all.take(i as int));
                assert(all.take(i + 1).last() == self.worktrees@[i as int]@);
            }
            if same_str(self.worktrees[i].id.as_str(), id) {
                proof {
                    lemma_position_stays(all, id@, i + 1);
                }
                return Some(i);
            }
            i += 1;
        }
        assert(all.take(self.worktrees.len() as int) =~= all);
        None
    }

    /// What the user picks from.
    pub fn choices(&self) -> (items: Vec<String>)
        ensures
            views(items@) == choices(self@),
    {
        let mut items: Vec<String> = Vec::new();
        let ghost ids = self@.worktrees.map_values(|w: WorktreeView| w.id);
        if !self.is_bare {
            if let Some(h) = &self.head_branch {
                items.push(copy_str(h.as_str()));
            }
        }
        let ghost head = views(items@);
        assert(head =~= if offers_own(self@) {
            seq![self@.head->0]
        } else {
            Seq::<Seq<char>>::empty()
        });
        let mut i: usize = 0;
        while i < self.worktrees.len()
            invariant
                i <= self.worktrees.len(),
                ids == self@.worktrees.map_values(|w: WorktreeView| w.id),
                views(items@) == head + ids.take(i as int),
            decreases self.worktrees.len() - i,
        {
            let ghost before = views(items@);
            items.push(copy_str(self.worktrees[i].id.as_str()));
            assert(views(items@) =~= before.push(ids[i as int]));
            assert(ids.take(i + 1) =~= ids.take(i as int).push(ids[i as int]));
            i += 1;
        }
        assert(ids.take(self.worktrees.len() as int) =~= ids);
        assert(views(items@) =~= choices(self@));
        items
    }

    fn windows(&self, from: usize, ops: &mut Vec<MuxOp>)
        requires
            from <= self.worktrees.len(),
        ensures
            op_views(final(ops)@) == op_views(old(ops)@) + windows_for(
                self@.worktrees.subrange(from as int, self@.worktrees.len() as int),
            ),
    {
        let ghost all = windows_for(
            self@.worktrees.subrange(from as int, self@.worktrees.len() as int),
        );
        let ghost start = op_views(ops@);
        let mut i: usize = from;
        assert(start + all.take(0) =~= start);
        while i < self.worktrees.len()
            invariant
                from <= i <= self.worktrees.len(),
                all == windows_for(
                    self@.worktrees.subrange(from as int, self@.worktrees.len() as int),
                ),
                op_views(ops@) == start + all.take(i - from),
            decreases self.worktrees.len() - i,
        {
            let w = &self.worktrees[i];
            let ghost before = op_views(ops@);
            ops.push(
                MuxOp::CreateWindow {
                    name: copy_str(w.id.as_str()),
                    path: Some(copy_str(w.base_path.as_str())),
                },
            );
            assert(op_views(ops@) =~= before.push(all[i - from]));
            assert(all.take(i + 1 - from) =~= all.take(i - from).push(all[i - from]));
            i += 1;
        }
        assert(all.take(self.worktrees.len() - from) =~= all);
    }

    /// A session with a window for every worktree.
    pub fn session_for_all(&self, name: &str, selected: &str) -> (ops: Vec<MuxOp>)
        ensures
            op_views(ops@) == session_for_all(name@, selected@, self@),
    {
        let mut ops: Vec<MuxOp> = Vec::new();
        if self.is_bare && self.worktrees.len() >= 1 {
            let w = &self.worktrees[0];
            ops.push(
                MuxOp::CreateSession {
                    name: copy_str(name),
                    cwd: copy_str(w.base_path.as_str()),
                    window: Some(copy_str(w.id.as_str())),
                },
            );
            self.windows(1, &mut ops);
            let ghost before = op_views(ops@);
            ops.push(MuxOp::AttachSession { name: copy_str(name) });
            assert(op_views(ops@) =~= before.push(MuxOpView::AttachSession { name: name@ }));
            assert(op_views(ops@) =~= session_for_all(name@, selected@, self@));
        } else {
            ops.push(
                MuxOp::CreateSession {
                    name: copy_str(name),
                    cwd: copy_str(selected),
                    window: copy_opt(&self.head_branch),
                },
            );
            self.windows(0, &mut ops);
            assert(self@.worktrees.subrange(0, self@.worktrees.len() as int) =~= self@.worktrees);
            let ghost before = op_views(ops@);
            ops.push(MuxOp::AttachSession { name: copy_str(name) });
            assert(op_views(ops@) =~= before.push(MuxOpView::AttachSession { name: name@ }));
            assert(op_views(ops@) =~= session_for_all(name@, selected@, self@));
        }
        ops
    }

    /// The session for the pick at position `k` of the choices.
    pub fn chosen(&self, name: &str, selected: &str, k: usize) -> (r: Option<Vec<MuxOp>>)
        ensures
            match r {
                Some(ops) => chosen(name@, selected@, self@, k as int) == Some(op_views(ops@)),
                None => chosen(name@, selected@, self@, k as int) is None,
            },
    {
        let own = !self.is_bare && self.head_branch.is_some();
        if own && k == 0 {
            return Some(make_session(name, selected, copy_opt(&self.head_branch)));
        }
        let i = if own {
            k - 1
        } else {
            k
        };
        if i < self.worktrees.len() {
            Some(make_session_in(name, &self.worktrees[i]))
        } else {
            None
        }
    }
}

proof fn lemma_position_stays(all: Seq<WorktreeView>, id: Seq<char>, n: int)
    requires
        0 < n <= all.len(),
        position_of(all.take(n - 1), id) is None,
        all[n - 1].id == id,
    ensures
        position_of(all, id) == Some(n - 1),
    decreases all.len() - n,
{
    assert(all.take(n).drop_last() =~= all.take(n - 1));
    assert(position_of(all.take(n), id) == Some(n - 1));
    lemma_position_extends(all, id, n, n - 1);
}

proof fn lemma_position_extends(all: Seq<WorktreeView>, id: Seq<char>, n: int, at: int)
    requires
        0 <= n <= all.len(),
        position_of(all.take(n), id) == Some(at),
    ensures
        position_of(all, id) == Some(at),
    decreases all.len() - n,
{
    if n == all.len() {
        assert(all.take(n) =~= all);
    } else {
        assert(all.take(n + 1).drop_last() =~= all.take(n));
        lemma_position_extends(all, id, n + 1, at);
    }
}

/// The policy of one invocation: all worktrees where the settings or the
/// call ask for all; else the default where the settings or the call ask for
/// it; else the user picks.
pub open spec fn policy_for(
    mode: crate::config::WorktreeMode,
    default_worktree: bool,
    call_all: bool,
    call_default: bool,
) -> Policy {
    if mode == crate::config::WorktreeMode::All || call_all {
        Policy::All
    } else if mode == crate::config::WorktreeMode::Default || default_worktree || call_default {
        Policy::Default
    } else {
        Policy::Prompt
    }
}

/// The policy of one invocation.
pub fn policy(
    mode: crate::config::WorktreeMode,
    default_worktree: bool,
    call_all: bool,
    call_default: bool,
) -> (p: Policy)
    ensures
        p == policy_for(mode, default_worktree, call_all, call_default),
{
    match mode {
        crate::config::WorktreeMode::All => Policy::All,
        crate::config::WorktreeMode::Default => if call_all {
            Policy::All
        } else {
            Policy::Default
        },
        crate::config::WorktreeMode::Prompt => if call_all {
            Policy::All
        } else if default_worktree || call_default {
            Policy::Default
        } else {
            Policy::Prompt
        },
    }
}

/// What to do for the session `name` of the directory `selected`, which does
/// not exist yet, given what the inspector found there.
pub fn plan(policy: Policy, name: &str, selected: &str, repo: Option<&Repo>) -> (step: Step)
    ensures
        step@ == planned(
            policy,
            name@,
            selected@,
            match repo {
                Some(r) => Some(r@),
                None => None,
            },
        ),
{
    let r = match repo {
        None => {
            return Step::Run(make_session(name, selected, None));
        },
        Some(r) => r,
    };
    match policy {
        Policy::All => Step::Run(r.session_for_all(name, selected)),
        Policy::Default => {
            if !r.is_bare || r.worktrees.len() == 0 {
                Step::Run(make_session(name, selected, copy_opt(&r.head_branch)))
            } else if r.worktrees.len() == 1 {
                Step::Run(make_session_in(name, &r.worktrees[0]))
            } else {
                match &r.default_branch {
                    None => Step::Fail,
                    Some(d) => match r.find_worktree(d.as_str()) {
                        Some(i) => {
                            let w = &r.worktrees[i];
                            Step::Run(
                                make_session(
                                    name,
                                    w.base_path.as_str(),
                                    Some(copy_str(w.id.as_str())),
                                ),
                            )
                        },
                        None => Step::Fail,
                    },
                }
            }
        },
        Policy::Prompt => {
            if r.worktrees.len() == 0 {
                Step::Run(make_session(name, selected, copy_opt(&r.head_branch)))
            } else {
                Step::Ask(r.choices())
            }
        },
    }
}

} // verus!
