//! The multiplexer: its operations as values, what they do to the set of
//! sessions, and the command line that each backend runs for them.

use vstd::prelude::*;
use crate::text::{copy_str, opt_view, same_str, views};

pub mod tmux;
pub mod zellij;

pub use tmux::Tmux;
pub use zellij::Zellij;

verus! {

/// Which multiplexer runs the sessions.
#[derive(Debug, Clone, Copy, PartialEq, Eq, Structural)]
pub enum MuxKind {
    Tmux,
    Zellij,
}

/// One operation on the multiplexer.
#[derive(Debug, PartialEq, Eq)]
pub enum MuxOp {
    /// A detached session with this name, its shell started in `cwd`, its
    /// first window named `window` where that is given.
    CreateSession { name: String, cwd: String, window: Option<String> },
    /// A window in the current session.
    CreateWindow { name: String, path: Option<String> },
    /// The terminal goes to this session.
    AttachSession { name: String },
    /// The session is ended.
    KillSession { name: String },
    /// The text is typed into the target, followed by Enter.
    SendCommand { target: String, command: String },
}

/// An operation as mathematical values.
pub enum MuxOpView {
    CreateSession { name: Seq<char>, cwd: Seq<char>, window: Option<Seq<char>> },
    CreateWindow { name: Seq<char>, path: Option<Seq<char>> },
    AttachSession { name: Seq<char> },
    KillSession { name: Seq<char> },
    SendCommand { target: Seq<char>, command: Seq<char> },
}

impl View for MuxOp {
    type V = MuxOpView;

    open spec fn view(&self) -> MuxOpView {
        match self {
            MuxOp::CreateSession { name, cwd, window } => MuxOpView::CreateSession {
                name: name@,
                cwd: cwd@,
                window: opt_view(*window),
            },
            MuxOp::CreateWindow { name, path } => MuxOpView::CreateWindow {
                name: name@,
                path: opt_view(*path),
            },
            MuxOp::AttachSession { name } => MuxOpView::AttachSession { name: name@ },
            MuxOp::KillSession { name } => MuxOpView::KillSession { name: name@ },
            MuxOp::SendCommand { target, command } => MuxOpView::SendCommand {
                target: target@,
                command: command@,
            },
        }
    }
}

/// The views of a sequence of operations.
pub open spec fn op_views(ops: Seq<MuxOp>) -> Seq<MuxOpView> {
    ops.map_values(|o: MuxOp| o@)
}

/// The sessions after an operation that succeeded: creating adds the
/// session, killing removes it, the rest leaves the sessions as they are.
pub open spec fn after(sessions: Set<Seq<char>>, op: MuxOpView) -> Set<Seq<char>> {
    match op {
        MuxOpView::CreateSession { name, .. } => sessions.insert(name),
        MuxOpView::KillSession { name } => sessions.remove(name),
        _ => sessions,
    }
}

/// The sessions after a run of operations that all succeeded.
pub open spec fn after_all(sessions: Set<Seq<char>>, ops: Seq<MuxOpView>) -> Set<Seq<char>>
    decreases ops.len(),
{
    if ops.len() == 0 {
        sessions
    } else {
        after(after_all(sessions, ops.drop_last()), ops.last())
    }
}

/// What it takes to be in the session `name`: attach where it exists, else
/// create it in `path` and attach.
pub open spec fn create_or_attach(exists: bool, name: Seq<char>, path: Seq<char>) -> Seq<
    MuxOpView,
> {
    if exists {
        seq![MuxOpView::AttachSession { name }]
    } else {
        seq![
            MuxOpView::CreateSession { name, cwd: path, window: None },
            MuxOpView::AttachSession { name },
        ]
    }
}

/// Whatever sessions there are, after creating or attaching the session
/// `name` that session exists, and the last operation attaches it.
pub proof fn law_create_or_attach_leaves_session(
    sessions: Set<Seq<char>>,
    name: Seq<char>,
    path: Seq<char>,
)
    ensures
        after_all(sessions, create_or_attach(sessions.contains(name), name, path)).contains(name),
        create_or_attach(sessions.contains(name), name, path).last() == (MuxOpView::AttachSession {
            name,
        }),
        sessions.contains(name) ==> after_all(
            sessions,
            create_or_attach(sessions.contains(name), name, path),
        ) == sessions,
{
    let ops = create_or_attach(sessions.contains(name), name, path);
    if sessions.contains(name) {
        assert(ops.drop_last() =~= Seq::<MuxOpView>::empty());
        assert(after_all(sessions, ops.drop_last()) == sessions);
    } else {
        let first = seq![MuxOpView::CreateSession { name, cwd: path, window: None }];
        assert(ops.drop_last() =~= first);
        assert(first.drop_last() =~= Seq::<MuxOpView>::empty());
        assert(after_all(sessions, first.drop_last()) == sessions);
        assert(after_all(sessions, first) == sessions.insert(name));
    }
}

/// Whether a session named `name` is among `sessions`.
pub fn session_listed(sessions: &Vec<String>, name: &str) -> (r: bool)
    ensures
        r == views(sessions@).contains(name@),
{
    let mut i: usize = 0;
    while i < sessions.len()
        invariant
            i <= sessions.len(),
            forall|k: int| 0 <= k < i ==> views(sessions@)[k] != name@,
        decreases sessions.len() - i,
    {
        if same_str(sessions[i].as_str(), name) {
            assert(views(sessions@)[i as int] == name@);
            return true;
        }
        i += 1;
    }
    false
}

/// The operations that bring the terminal into the session `name`: attach
/// it where it exists, else create it in `path` first.
pub fn create_or_attach_session(exists: bool, name: &str, path: &str) -> (ops: Vec<MuxOp>)
    ensures
        op_views(ops@) == create_or_attach(exists, name@, path@),
{
    let mut ops: Vec<MuxOp> = Vec::new();
    if !exists {
        ops.push(MuxOp::CreateSession { name: copy_str(name), cwd: copy_str(path), window: None });
    }
    ops.push(MuxOp::AttachSession { name: copy_str(name) });
    assert(op_views(ops@) =~= create_or_attach(exists, name@, path@));
    ops
}

/// One operation per session, killing them in the order given.
pub fn kill_sessions(names: &Vec<String>) -> (ops: Vec<MuxOp>)
    ensures
        ops.len() == names.len(),
        forall|i: int|
            0 <= i < names.len() ==> (#[trigger] ops@[i])@ == (MuxOpView::KillSession {
                name: names@[i]@,
            }),
{
    let mut ops: Vec<MuxOp> = Vec::new();
    let mut i: usize = 0;
    while i < names.len()
        invariant
            i <= names.len(),
            ops.len() == i,
            forall|k: int|
                0 <= k < i ==> (#[trigger] ops@[k])@ == (MuxOpView::KillSession {
                    name: names@[k]@,
                }),
        decreases names.len() - i,
    {
        ops.push(MuxOp::KillSession { name: copy_str(names[i].as_str()) });
        i += 1;
    }
    ops
}

/// An operation that the multiplexer refused: which backend, the command
/// that was run, and what it wrote to its error stream.
#[derive(Debug, PartialEq, Eq)]
pub struct MuxError {
    pub backend: MuxKind,
    pub command: Vec<String>,
    pub stderr: String,
}

/// The name of the program of a backend.
pub fn program(kind: MuxKind) -> (name: &'static str)
    ensures
        name@ == match kind {
            MuxKind::Tmux => "tmux"@,
            MuxKind::Zellij => "zellij"@,
        },
{
    match kind {
        MuxKind::Tmux => "tmux",
        MuxKind::Zellij => "zellij",
    }
}

/// What a finished command means: success, or an error that holds the
/// backend, the command and what the command wrote to its error stream.
pub fn to_result(backend: MuxKind, command: Vec<String>, success: bool, stderr: String) -> (r:
    Result<(), MuxError>)
    ensures
        match r {
            Ok(_) => success,
            Err(e) => !success && e.backend == backend && e.command == command && e.stderr
                == stderr,
        },
{
    if success {
        Ok(())
    } else {
        Err(MuxError { backend, command, stderr })
    }
}

/// The message for a refused operation: the program and its arguments, a
/// colon, and what the backend wrote.
pub open spec fn message_of(backend: MuxKind, command: Seq<Seq<char>>, stderr: Seq<char>) -> Seq<
    char,
> {
    crate::text::join(
        seq![
            match backend {
                MuxKind::Tmux => "tmux"@,
                MuxKind::Zellij => "zellij"@,
            },
        ] + command,
        " "@,
    ) + ": "@ + stderr
}

impl MuxError {
    /// The message to show.
    pub fn message(&self) -> (m: String)
        ensures
            m@ == message_of(self.backend, views(self.command@), self.stderr@),
    {
        let mut words: Vec<String> = Vec::new();
        words.push(copy_str(program(self.backend)));
        let ghost first = views(words@);
        let mut i: usize = 0;
        while i < self.command.len()
            invariant
                i <= self.command.len(),
                views(words@) == first + views(self.command@).take(i as int),
            decreases self.command.len() - i,
        {
            let ghost before = views(words@);
            words.push(copy_str(self.command[i].as_str()));
            assert(views(words@) =~= before.push(self.command@[i as int]@));
            assert(views(self.command@).take(i + 1) =~= views(self.command@).take(i as int).push(
                self.command@[i as int]@,
            ));
            i += 1;
        }
        assert(views(self.command@).take(self.command.len() as int) =~= views(self.command@));
        let line = crate::text::join_strings(&words, " ");
        let mut out = crate::text::chars_of(line.as_str());
        let sep = crate::text::chars_of(": ");
        crate::text::append_chars(&mut out, &sep);
        let tail = crate::text::chars_of(self.stderr.as_str());
        crate::text::append_chars(&mut out, &tail);
        assert(first =~= seq![
            match self.backend {
                MuxKind::Tmux => "tmux"@,
                MuxKind::Zellij => "zellij"@,
            },
        ]);
        crate::text::string_from_chars(&out)
    }
}

/// The multiplexer of one invocation: which backend, the socket where the
/// backend has sockets, and whether the terminal is inside of it already.
#[derive(Debug, PartialEq, Eq)]
pub struct Mux {
    pub kind: MuxKind,
    pub tmux: Tmux,
    pub inside: bool,
}

/// The arguments for an operation on a backend.
pub open spec fn arguments_of(kind: MuxKind, socket: Seq<char>, inside: bool, op: MuxOpView) -> Seq<
    Seq<char>,
> {
    match kind {
        MuxKind::Tmux => tmux::socket_args(socket) + tmux::op_args(op, inside),
        MuxKind::Zellij => zellij::op_args(op),
    }
}

/// The arguments that list the sessions of a backend.
pub open spec fn list_arguments_of(kind: MuxKind, socket: Seq<char>) -> Seq<Seq<char>> {
    match kind {
        MuxKind::Tmux => tmux::socket_args(socket) + tmux::list_args(),
        MuxKind::Zellij => zellij::list_args(),
    }
}

/// The session names in what the listing of a backend printed; none where
/// the listing failed.
pub open spec fn sessions_of(kind: MuxKind, success: bool, output: Seq<char>) -> Seq<Seq<char>> {
    if !success {
        Seq::<Seq<char>>::empty()
    } else {
        match kind {
            MuxKind::Tmux => crate::jumplist::lines_of(output),
            MuxKind::Zellij => zellij::session_names(output),
        }
    }
}

impl Mux {
    /// The multiplexer for a backend, given the name of the socket and the
    /// variable that tmux sets inside of itself, where they are set.
    pub fn new(kind: MuxKind, socket: Option<String>, tmux_var: Option<&str>) -> (m: Mux)
        ensures
            m.kind == kind,
            m.tmux.socket_name@ == match socket {
                Some(s) => s@,
                None => "default"@,
            },
            m.inside == (kind == MuxKind::Tmux && tmux_var.is_some()),
    {
        let inside = match kind {
            MuxKind::Tmux => Tmux::is_inside(tmux_var),
            MuxKind::Zellij => false,
        };
        Mux { kind, tmux: Tmux::new(socket), inside }
    }

    /// The name of the program to run.
    pub fn program(&self) -> (name: &'static str)
        ensures
            name@ == match self.kind {
                MuxKind::Tmux => "tmux"@,
                MuxKind::Zellij => "zellij"@,
            },
    {
        program(self.kind)
    }

    /// The arguments for an operation.
    pub fn arguments(&self, op: &MuxOp) -> (args: Vec<String>)
        ensures
            views(args@) == arguments_of(self.kind, self.tmux.socket_name@, self.inside, op@),
    {
        match self.kind {
            MuxKind::Tmux => self.tmux.arguments(op, self.inside),
            MuxKind::Zellij => Zellij.arguments(op),
        }
    }

    /// The arguments that list the sessions.
    pub fn list_arguments(&self) -> (args: Vec<String>)
        ensures
            views(args@) == list_arguments_of(self.kind, self.tmux.socket_name@),
    {
        match self.kind {
            MuxKind::Tmux => self.tmux.list_sessions(),
            MuxKind::Zellij => Zellij.list_sessions(),
        }
    }

    /// The session names in what the listing printed.
    pub fn sessions(&self, success: bool, output: &str) -> (names: Vec<String>)
        ensures
            views(names@) == sessions_of(self.kind, success, output@),
    {
        match self.kind {
            MuxKind::Tmux => {
                if success {
                    Tmux::parse_sessions(output)
                } else {
                    let names: Vec<String> = Vec::new();
                    assert(views(names@) =~= Seq::<Seq<char>>::empty());
                    names
                }
            },
            MuxKind::Zellij => Zellij::parse_sessions(success, output),
        }
    }

    /// The arguments that ask the backend whether a session exists, where
    /// the backend can be asked. Where it cannot, the session exists if it
    /// is listed.
    pub fn exists_arguments(&self, name: &str) -> (args: Option<Vec<String>>)
        ensures
            match args {
                Some(a) => self.kind == MuxKind::Tmux && views(a@) == tmux::socket_args(
                    self.tmux.socket_name@,
                ) + tmux::exists_args(name@),
                None => self.kind == MuxKind::Zellij,
            },
    {
        match self.kind {
            MuxKind::Tmux => Some(self.tmux.session_exists(name)),
            MuxKind::Zellij => None,
        }
    }

    /// The arguments that ask the backend for the name of the current
    /// session, where the backend can be asked.
    pub fn name_arguments(&self) -> (args: Option<Vec<String>>)
        ensures
            match args {
                Some(a) => self.kind == MuxKind::Tmux && views(a@) == tmux::socket_args(
                    self.tmux.socket_name@,
                ) + tmux::name_args(),
                None => self.kind == MuxKind::Zellij,
            },
    {
        match self.kind {
            MuxKind::Tmux => Some(self.tmux.session_name()),
            MuxKind::Zellij => None,
        }
    }
}

} // verus!
