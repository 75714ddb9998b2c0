//! The `attach` command as a machine: it is handed what was found out and
//! says what to find out or do next.
//!
//! Whoever runs it starts with `AttachEvent::Begin`, carries out the action
//! that comes back, and hands over what the action brought, until the action
//! is to run operations, to leave, or to fail.

use vstd::prelude::*;
use crate::cmd::cli::Attach;
use crate::mux::{op_views, MuxOp, MuxOpView};
use crate::repo::{
    chosen, choices, opt_repo, plan, planned, Policy, Repo, RepoView, Step, StepView,
};
use crate::text::{
    chars_of, contains, copy_str, has_substring, join, join_strings, opt_view, same_str, views,
};
use crate::util::{is_dot, session_name, session_name_of};

verus! {

/// Why `attach` gave up.
#[derive(Debug, PartialEq, Eq)]
pub enum AttachError {
    /// The path that was given is not on disk.
    PathDoesNotExist(String),
    /// The path has no final component to name a session by.
    NoSessionName(String),
    /// The worktree of the default branch was asked for and is not there.
    DefaultWorktreeNotFound,
    /// What was handed over does not answer what was asked.
    Unexpected,
}

/// Where the command stands.
#[derive(Debug, PartialEq, Eq)]
pub enum AttachState {
    Start,
    ListingSessions,
    PickingSession,
    AwaitingCwd,
    CheckingPath { path: String },
    Walking,
    PickingPath,
    CheckingSession { path: String, name: String },
    Inspecting { path: String, name: String },
    PickingWorktree { path: String, name: String, repo: Repo },
    Done,
}

/// What was found out.
#[derive(Debug, PartialEq, Eq)]
pub enum AttachEvent {
    /// Nothing yet.
    Begin,
    /// The sessions that exist.
    Sessions(Vec<String>),
    /// What the user picked, or `None` where the user gave up.
    Picked(Option<String>),
    /// The current directory.
    Cwd(String),
    /// Whether the path is on disk.
    PathExists(bool),
    /// What the walker found.
    Candidates(Vec<String>),
    /// Whether the session exists.
    SessionExists(bool),
    /// What the inspector found at the path.
    Repo(Option<Repo>),
}

/// What to do next.
#[derive(Debug, PartialEq, Eq)]
pub enum AttachAction {
    ListSessions,
    Pick { items: Vec<String>, query: Option<String>, prompt: String },
    CurrentDir,
    CheckPath(String),
    Walk,
    CheckSession(String),
    OpenRepo(String),
    /// Run these operations and leave with success.
    Run(Vec<MuxOp>),
    /// Leave with this code.
    Exit(u8),
    Fail(AttachError),
}

/// An error as mathematical values.
pub enum AttachErrorView {
    PathDoesNotExist(Seq<char>),
    NoSessionName(Seq<char>),
    DefaultWorktreeNotFound,
    Unexpected,
}

/// A state as mathematical values.
pub enum StateView {
    Start,
    ListingSessions,
    PickingSession,
    AwaitingCwd,
    CheckingPath { path: Seq<char> },
    Walking,
    PickingPath,
    CheckingSession { path: Seq<char>, name: Seq<char> },
    Inspecting { path: Seq<char>, name: Seq<char> },
    PickingWorktree { path: Seq<char>, name: Seq<char>, repo: RepoView },
    Done,
}

/// An event as mathematical values.
pub enum EventView {
    Begin,
    Sessions(Seq<Seq<char>>),
    Picked(Option<Seq<char>>),
    Cwd(Seq<char>),
    PathExists(bool),
    Candidates(Seq<Seq<char>>),
    SessionExists(bool),
    Repo(Option<RepoView>),
}

/// An action as mathematical values.
pub enum ActionView {
    ListSessions,
    Pick { items: Seq<Seq<char>>, query: Option<Seq<char>>, prompt: Seq<char> },
    CurrentDir,
    CheckPath(Seq<char>),
    Walk,
    CheckSession(Seq<char>),
    OpenRepo(Seq<char>),
    Run(Seq<MuxOpView>),
    Exit(u8),
    Fail(AttachErrorView),
}

/// What the command line asked of `attach`, as mathematical values.
pub struct AttachView {
    pub exists: bool,
    pub path: Option<Seq<char>>,
    pub query: Option<Seq<char>>,
}

impl View for AttachError {
    type V = AttachErrorView;

    open spec fn view(&self) -> AttachErrorView {
        match self {
            AttachError::PathDoesNotExist(p) => AttachErrorView::PathDoesNotExist(p@),
            AttachError::NoSessionName(p) => AttachErrorView::NoSessionName(p@),
            AttachError::DefaultWorktreeNotFound => AttachErrorView::DefaultWorktreeNotFound,
            AttachError::Unexpected => AttachErrorView::Unexpected,
        }
    }
}

impl View for AttachState {
    type V = StateView;

    open spec fn view(&self) -> StateView {
        match self {
            AttachState::Start => StateView::Start,
            AttachState::ListingSessions => StateView::ListingSessions,
            AttachState::PickingSession => StateView::PickingSession,
            AttachState::AwaitingCwd => StateView::AwaitingCwd,
            AttachState::CheckingPath { path } => StateView::CheckingPath { path: path@ },
            AttachState::Walking => StateView::Walking,
            AttachState::PickingPath => StateView::PickingPath,
            AttachState::CheckingSession { path, name } => StateView::CheckingSession {
                path: path@,
                name: name@,
            },
            AttachState::Inspecting { path, name } => StateView::Inspecting {
                path: path@,
                name: name@,
            },
            AttachState::PickingWorktree { path, name, repo } => StateView::PickingWorktree {
                path: path@,
                name: name@,
                repo: repo@,
            },
            AttachState::Done => StateView::Done,
        }
    }
}

impl View for AttachEvent {
    type V = EventView;

    open spec fn view(&self) -> EventView {
        match self {
            AttachEvent::Begin => EventView::Begin,
            AttachEvent::Sessions(names) => EventView::Sessions(views(names@)),
            AttachEvent::Picked(p) => EventView::Picked(opt_view(*p)),
            AttachEvent::Cwd(d) => EventView::Cwd(d@),
            AttachEvent::PathExists(b) => EventView::PathExists(*b),
            AttachEvent::Candidates(paths) => EventView::Candidates(views(paths@)),
            AttachEvent::SessionExists(b) => EventView::SessionExists(*b),
            AttachEvent::Repo(r) => EventView::Repo(opt_repo(*r)),
        }
    }
}

impl View for AttachAction {
    type V = ActionView;

    open spec fn view(&self) -> ActionView {
        match self {
            AttachAction::ListSessions => ActionView::ListSessions,
            AttachAction::Pick { items, query, prompt } => ActionView::Pick {
                items: views(items@),
                query: opt_view(*query),
                prompt: prompt@,
            },
            AttachAction::CurrentDir => ActionView::CurrentDir,
            AttachAction::CheckPath(p) => ActionView::CheckPath(p@),
            AttachAction::Walk => ActionView::Walk,
            AttachAction::CheckSession(n) => ActionView::CheckSession(n@),
            AttachAction::OpenRepo(p) => ActionView::OpenRepo(p@),
            AttachAction::Run(ops) => ActionView::Run(op_views(ops@)),
            AttachAction::Exit(code) => ActionView::Exit(*code),
            AttachAction::Fail(e) => ActionView::Fail(e@),
        }
    }
}

impl View for Attach {
    type V = AttachView;

    open spec fn view(&self) -> AttachView {
        AttachView {
            exists: self.exists,
            path: opt_view(self.path),
            query: match self.query {
                Some(words) => Some(join(views(words@), " "@)),
                None => None,
            },
        }
    }
}

/// The positions among the first `n` paths that hold `query` somewhere.
pub open spec fn matching(paths: Seq<Seq<char>>, query: Seq<char>, n: nat) -> Seq<int>
    decreases n,
{
    if n == 0 || n > paths.len() {
        Seq::<int>::empty()
    } else if contains(paths[n - 1], query) {
        matching(paths, query, (n - 1) as nat).push(n - 1)
    } else {
        matching(paths, query, (n - 1) as nat)
    }
}

/// The position of the one path that holds the query, where there is a
/// query that is not empty and exactly one path holds it.
pub open spec fn sole_match(paths: Seq<Seq<char>>, query: Option<Seq<char>>) -> Option<int> {
    match query {
        Some(q) => if q.len() > 0 && matching(paths, q, paths.len()).len() == 1 {
            Some(matching(paths, q, paths.len())[0])
        } else {
            None
        },
        None => None,
    }
}

/// The first position of `items` that holds `text`.
pub open spec fn index_of(items: Seq<Seq<char>>, text: Seq<char>) -> Option<int>
    decreases items.len(),
{
    if items.len() == 0 {
        None
    } else {
        match index_of(items.drop_last(), text) {
            Some(i) => Some(i),
            None => if items.last() == text {
                Some(items.len() - 1)
            } else {
                None
            },
        }
    }
}

/// Going on with a directory: its session is looked for, unless the
/// directory gives no name for one.
pub open spec fn selected(path: Seq<char>) -> (StateView, ActionView) {
    match session_name_of(path) {
        Some(name) => (StateView::CheckingSession { path, name }, ActionView::CheckSession(name)),
        None => (StateView::Done, ActionView::Fail(AttachErrorView::NoSessionName(path))),
    }
}

/// The operations that attach the session `name`.
pub open spec fn attach_only(name: Seq<char>) -> Seq<MuxOpView> {
    seq![MuxOpView::AttachSession { name }]
}

/// Where the command stands after `e` was handed over in the state `s`, and
/// what is to be done next.
///
/// With `exists`, the sessions are listed: none ends the command, one is
/// attached, and among several the user picks. With a path, the path is
/// taken, `.` standing for the current directory; a path that is not on
/// disk is an error. Otherwise the walker's candidates are searched: one
/// that alone holds the query is taken, else the user picks. The session
/// named after the directory is attached where it exists. Where it does not,
/// the repository decides together with the policy what is created.
pub open spec fn next(a: AttachView, policy: Policy, s: StateView, e: EventView) -> (
    StateView,
    ActionView,
) {
    match (s, e) {
        (StateView::Start, EventView::Begin) => if a.exists {
            (StateView::ListingSessions, ActionView::ListSessions)
        } else {
            match a.path {
                Some(p) => if p == seq!['.'] {
                    (StateView::AwaitingCwd, ActionView::CurrentDir)
                } else {
                    (StateView::CheckingPath { path: p }, ActionView::CheckPath(p))
                },
                None => (StateView::Walking, ActionView::Walk),
            }
        },
        (StateView::ListingSessions, EventView::Sessions(names)) => if names.len() == 0 {
            (StateView::Done, ActionView::Exit(0))
        } else if names.len() == 1 {
            (StateView::Done, ActionView::Run(attach_only(names[0])))
        } else {
            (
                StateView::PickingSession,
                ActionView::Pick { items: names, query: a.query, prompt: "> "@ },
            )
        },
        (StateView::PickingSession, EventView::Picked(p)) => match p {
            None => (StateView::Done, ActionView::Exit(0)),
            Some(n) => (StateView::Done, ActionView::Run(attach_only(n))),
        },
        (StateView::AwaitingCwd, EventView::Cwd(d)) => selected(d),
        (StateView::CheckingPath { path }, EventView::PathExists(b)) => if b {
            selected(path)
        } else {
            (StateView::Done, ActionView::Fail(AttachErrorView::PathDoesNotExist(path)))
        },
        (StateView::Walking, EventView::Candidates(paths)) => match sole_match(paths, a.query) {
            Some(i) => selected(paths[i]),
            None => (
                StateView::PickingPath,
                ActionView::Pick { items: paths, query: a.query, prompt: "> "@ },
            ),
        },
        (StateView::PickingPath, EventView::Picked(p)) => match p {
            None => (StateView::Done, ActionView::Exit(0)),
            Some(x) => selected(x),
        },
        (StateView::CheckingSession { path, name }, EventView::SessionExists(b)) => if b {
            (StateView::Done, ActionView::Run(attach_only(name)))
        } else {
            (StateView::Inspecting { path, name }, ActionView::OpenRepo(path))
        },
        (StateView::Inspecting { path, name }, EventView::Repo(r)) => match planned(
            policy,
            name,
            path,
            r,
        ) {
            StepView::Run(ops) => (StateView::Done, ActionView::Run(ops)),
            StepView::Ask(items) => match r {
                Some(repo) => (
                    StateView::PickingWorktree { path, name, repo },
                    ActionView::Pick { items, query: None, prompt: "Worktree: "@ },
                ),
                None => (StateView::Done, ActionView::Fail(AttachErrorView::Unexpected)),
            },
            StepView::Fail => (
                StateView::Done,
                ActionView::Fail(AttachErrorView::DefaultWorktreeNotFound),
            ),
        },
        (StateView::PickingWorktree { path, name, repo }, EventView::Picked(p)) => match p {
            None => (StateView::Done, ActionView::Exit(2)),
            Some(x) => match index_of(choices(repo), x) {
                Some(k) => match chosen(name, path, repo, k) {
                    Some(ops) => (StateView::Done, ActionView::Run(ops)),
                    None => (StateView::Done, ActionView::Fail(AttachErrorView::Unexpected)),
                },
                None => (StateView::Done, ActionView::Fail(AttachErrorView::Unexpected)),
            },
        },
        _ => (StateView::Done, ActionView::Fail(AttachErrorView::Unexpected)),
    }
}

/// The position of the one path that holds the query.
pub fn unique_match(paths: &Vec<String>, query: Option<&str>) -> (r: Option<usize>)
    ensures
        match r {
            Some(i) => i < paths.len() && sole_match(views(paths@), crate::text::opt_str_view(query))
                == Some(i as int),
            None => sole_match(views(paths@), crate::text::opt_str_view(query)) is None,
        },
{
    let q = match query {
        Some(q) => chars_of(q),
        None => {
            return None;
        },
    };
    if q.len() == 0 {
        return None;
    }
    let ghost all = views(paths@);
    let mut first: usize = 0;
    let mut count: usize = 0;
    let mut i: usize = 0;
    while i < paths.len()
        invariant
            i <= paths.len(),
            all == views(paths@),
            count <= i,
            count as nat == matching(all, q@, i as nat).len(),
            count > 0 ==> first < i && matching(all, q@, i as nat)[0] == first as int,
        decreases paths.len() - i,
    {
        let p = chars_of(paths[i].as_str());
        if has_substring(&p, &q) {
            if count == 0 {
                first = i;
            }
            count += 1;
        }
        i += 1;
    }
    if count == 1 {
        Some(first)
    } else {
        None
    }
}

/// The first position of `items` that holds `text`.
pub fn find_item(items: &Vec<String>, text: &str) -> (r: Option<usize>)
    ensures
        match r {
            Some(i) => i < items.len() && index_of(views(items@), text@) == Some(i as int),
            None => index_of(views(items@), text@) is None,
        },
{
    let ghost all = views(items@);
    let mut i: usize = 0;
    assert(all.take(0) =~= Seq::<Seq<char>>::empty());
    while i < items.len()
        invariant
            i <= items.len(),
            all == views(items@),
            index_of(all.take(i as int), text@) is None,
        decreases items.len() - i,
    {
        proof {
            assert(all.take(i + 1).drop_last() =~= all.take(i as int));
            assert(all.take(i + 1).last() == items@[i as int]@);
        }
        if same_str(items[i].as_str(), text) {
            proof {
                lemma_index_extends(all, text@, i + 1, i as int);
            }
            return Some(i);
        }
        i += 1;
    }
    assert(all.take(items.len() as int) =~= all);
    None
}

proof fn lemma_index_extends(all: Seq<Seq<char>>, text: Seq<char>, n: int, at: int)
    requires
        0 <= n <= all.len(),
        index_of(all.take(n), text) == Some(at),
    ensures
        index_of(all, text) == Some(at),
    decreases all.len() - n,
{
    if n == all.len() {
        assert(all.take(n) =~= all);
    } else {
        assert(all.take(n + 1).drop_last() =~= all.take(n));
        lemma_index_extends(all, text, n + 1, at);
    }
}

fn attach_to(name: String) -> (ops: Vec<MuxOp>)
    ensures
        op_views(ops@) == attach_only(name@),
{
    let mut ops: Vec<MuxOp> = Vec::new();
    ops.push(MuxOp::AttachSession { name });
    assert(op_views(ops@) =~= attach_only(name@));
    ops
}

fn select(path: String) -> (r: (AttachState, AttachAction))
    ensures
        (r.0@, r.1@) == selected(path@),
{
    match session_name(path.as_str()) {
        Some(name) => {
            let asked = copy_str(name.as_str());
            (AttachState::CheckingSession { path, name }, AttachAction::CheckSession(asked))
        },
        None => (AttachState::Done, AttachAction::Fail(AttachError::NoSessionName(path))),
    }
}

fn unexpected() -> (r: (AttachState, AttachAction))
    ensures
        (r.0@, r.1@) == (StateView::Done, ActionView::Fail(AttachErrorView::Unexpected)),
{
    (AttachState::Done, AttachAction::Fail(AttachError::Unexpected))
}

impl Attach {
    /// An `attach` without options.
    pub fn new() -> (a: Attach)
        ensures
            !a.exists,
            !a.default,
            !a.all,
            a.path is None,
            a.query is None,
    {
        Attach { exists: false, default: false, all: false, path: None, query: None }
    }

    /// The words of the query joined by single spaces.
    pub fn query_text(&self) -> (q: Option<String>)
        ensures
            opt_view(q) == self@.query,
    {
        match &self.query {
            Some(words) => Some(join_strings(words, " ")),
            None => None,
        }
    }

    /// The `attach` that a lone `.` stands for: the current directory as the
    /// path.
    pub fn use_cwd() -> (a: Attach)
        ensures
            a@ == (AttachView { exists: false, path: Some(seq!['.']), query: None }),
            !a.default,
            !a.all,
    {
        let dot = copy_str(".");
        proof {
            reveal_strlit(".");
            assert(dot@ =~= seq!['.']);
        }
        Attach { exists: false, default: false, all: false, path: Some(dot), query: None }
    }

    /// Takes what was found out and says what is next.
    pub fn step(&self, policy: Policy, state: AttachState, event: AttachEvent) -> (r: (
        AttachState,
        AttachAction,
    ))
        ensures
            (r.0@, r.1@) == next(self@, policy, state@, event@),
    {
        match (state, event) {
            (AttachState::Start, AttachEvent::Begin) => {
                if self.exists {
                    (AttachState::ListingSessions, AttachAction::ListSessions)
                } else {
                    match &self.path {
                        Some(p) => {
                            if is_dot(p.as_str()) {
                                (AttachState::AwaitingCwd, AttachAction::CurrentDir)
                            } else {
                                (
                                    AttachState::CheckingPath { path: copy_str(p.as_str()) },
                                    AttachAction::CheckPath(copy_str(p.as_str())),
                                )
                            }
                        },
                        None => (AttachState::Walking, AttachAction::Walk),
                    }
                }
            },
            (AttachState::ListingSessions, AttachEvent::Sessions(names)) => {
                let mut names = names;
                if names.len() == 0 {
                    (AttachState::Done, AttachAction::Exit(0))
                } else if names.len() == 1 {
                    let name = names.swap_remove(0);
                    (AttachState::Done, AttachAction::Run(attach_to(name)))
                } else {
                    (
                        AttachState::PickingSession,
                        AttachAction::Pick {
                            items: names,
                            query: self.query_text(),
                            prompt: copy_str("> "),
                        },
                    )
                }
            },
            (AttachState::PickingSession, AttachEvent::Picked(p)) => {
                match p {
                    None => (AttachState::Done, AttachAction::Exit(0)),
                    Some(n) => (AttachState::Done, AttachAction::Run(attach_to(n))),
                }
            },
            (AttachState::AwaitingCwd, AttachEvent::Cwd(d)) => select(d),
            (AttachState::CheckingPath { path }, AttachEvent::PathExists(b)) => {
                if b {
                    select(path)
                } else {
                    (AttachState::Done, AttachAction::Fail(AttachError::PathDoesNotExist(path)))
                }
            },
            (AttachState::Walking, AttachEvent::Candidates(paths)) => {
                let query = self.query_text();
                let q: Option<&str> = match &query {
                    Some(s) => Some(s.as_str()),
                    None => None,
                };
                match unique_match(&paths, q) {
                    Some(i) => select(copy_str(paths[i].as_str())),
                    None => (
                        AttachState::PickingPath,
                        AttachAction::Pick { items: paths, query, prompt: copy_str("> ") },
                    ),
                }
            },
            (AttachState::PickingPath, AttachEvent::Picked(p)) => {
                match p {
                    None => (AttachState::Done, AttachAction::Exit(0)),
                    Some(x) => select(x),
                }
            },
            (AttachState::CheckingSession { path, name }, AttachEvent::SessionExists(b)) => {
                if b {
                    (AttachState::Done, AttachAction::Run(attach_to(name)))
                } else {
                    let asked = copy_str(path.as_str());
                    (AttachState::Inspecting { path, name }, AttachAction::OpenRepo(asked))
                }
            },
            (AttachState::Inspecting { path, name }, AttachEvent::Repo(r)) => {
                let step = plan(policy, name.as_str(), path.as_str(), r.as_ref());
                match step {
                    Step::Run(ops) => (AttachState::Done, AttachAction::Run(ops)),
                    Step::Ask(items) => match r {
                        Some(repo) => (
                            AttachState::PickingWorktree { path, name, repo },
                            AttachAction::Pick {
                                items,
                                query: None,
                                prompt: copy_str("Worktree: "),
                            },
                        ),
                        None => unexpected(),
                    },
                    Step::Fail => (
                        AttachState::Done,
                        AttachAction::Fail(AttachError::DefaultWorktreeNotFound),
                    ),
                }
            },
            (AttachState::PickingWorktree { path, name, repo }, AttachEvent::Picked(p)) => {
                match p {
                    None => (AttachState::Done, AttachAction::Exit(2)),
                    Some(x) => {
                        let items = repo.choices();
                        match find_item(&items, x.as_str()) {
                            Some(k) => match repo.chosen(name.as_str(), path.as_str(), k) {
                                Some(ops) => (AttachState::Done, AttachAction::Run(ops)),
                                None => unexpected(),
                            },
                            None => unexpected(),
                        }
                    },
                }
            },
            _ => unexpected(),
        }
    }
}

} // verus!
