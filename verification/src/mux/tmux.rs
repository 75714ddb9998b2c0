//! The tmux backend: every operation is `tmux -L <socket> <verb> <args>`.

use vstd::prelude::*;
use crate::jumplist::{lines_of, Jumplist};
use crate::mux::{MuxOp, MuxOpView};
use crate::text::{copy_str, opt_str_view, views};

verus! {

/// tmux, reached through one of its sockets.
#[derive(Debug, PartialEq, Eq)]
pub struct Tmux {
    pub socket_name: String,
}

/// What selects the socket: `-L` and its name.
pub open spec fn socket_args(socket: Seq<char>) -> Seq<Seq<char>> {
    seq!["-L"@, socket]
}

/// The verb and arguments to list the sessions, one name per line.
pub open spec fn list_args() -> Seq<Seq<char>> {
    seq!["list-sessions"@, "-F"@, "#S"@]
}

/// The verb and arguments to ask whether a session exists.
pub open spec fn exists_args(name: Seq<char>) -> Seq<Seq<char>> {
    seq!["has-session"@, "-t"@, name]
}

/// The verb and arguments to ask for the name of the current session.
pub open spec fn name_args() -> Seq<Seq<char>> {
    seq!["display-message"@, "-p"@, "#S"@]
}

/// The verb and arguments for a detached session.
pub open spec fn create_args(name: Seq<char>, cwd: Seq<char>, window: Option<Seq<char>>) -> Seq<
    Seq<char>,
> {
    seq!["new-session"@, "-d"@, "-s"@, name, "-c"@, cwd] + match window {
        Some(w) => seq!["-n"@, w],
        None => Seq::<Seq<char>>::empty(),
    }
}

/// The verb and arguments that bring the terminal to a session: from within
/// tmux the client is switched, from outside the session is attached.
pub open spec fn attach_args(name: Seq<char>, inside: bool) -> Seq<Seq<char>> {
    if inside {
        seq!["switch-client"@, "-t"@, name]
    } else {
        seq!["attach-session"@, "-t"@, name]
    }
}

/// The verb and arguments that end a session.
pub open spec fn kill_args(name: Seq<char>) -> Seq<Seq<char>> {
    seq!["kill-session"@, "-t"@, name]
}

/// The verb and arguments for a window in the current session.
pub open spec fn window_args(name: Seq<char>, cwd: Option<Seq<char>>) -> Seq<Seq<char>> {
    seq!["new-window"@, "-n"@, name] + match cwd {
        Some(c) => seq!["-c"@, c],
        None => Seq::<Seq<char>>::empty(),
    }
}

/// The verb and arguments that type a text into a target, then Enter.
pub open spec fn send_args(target: Seq<char>, command: Seq<char>) -> Seq<Seq<char>> {
    seq!["send-keys"@, "-t"@, target, command, "Enter"@]
}

/// The verb and arguments for an operation.
pub open spec fn op_args(op: MuxOpView, inside: bool) -> Seq<Seq<char>> {
    match op {
        MuxOpView::CreateSession { name, cwd, window } => create_args(name, cwd, window),
        MuxOpView::CreateWindow { name, path } => window_args(name, path),
        MuxOpView::AttachSession { name } => attach_args(name, inside),
        MuxOpView::KillSession { name } => kill_args(name),
        MuxOpView::SendCommand { target, command } => send_args(target, command),
    }
}

/// The name of the current session in what `display-message` printed: its
/// first line.
pub open spec fn first_line(output: Seq<char>) -> Option<Seq<char>> {
    if lines_of(output).len() == 0 {
        None
    } else {
        Some(lines_of(output)[0])
    }
}

impl Tmux {
    /// tmux on the socket that is named, or on the socket `default`.
    pub fn new(socket: Option<String>) -> (t: Tmux)
        ensures
            t.socket_name@ == match socket {
                Some(s) => s@,
                None => "default"@,
            },
    {
        match socket {
            Some(s) => Tmux { socket_name: s },
            None => Tmux { socket_name: copy_str("default") },
        }
    }

    /// Whether the process runs inside tmux: whether `TMUX` is set.
    pub fn is_inside(tmux_var: Option<&str>) -> (r: bool)
        ensures
            r == tmux_var.is_some(),
    {
        tmux_var.is_some()
    }

    fn start(&self) -> (args: Vec<String>)
        ensures
            views(args@) == socket_args(self.socket_name@),
    {
        let mut args: Vec<String> = Vec::new();
        args.push(copy_str("-L"));
        args.push(copy_str(self.socket_name.as_str()));
        assert(views(args@) =~= socket_args(self.socket_name@));
        args
    }

    /// The arguments that list the sessions.
    pub fn list_sessions(&self) -> (args: Vec<String>)
        ensures
            views(args@) == socket_args(self.socket_name@) + list_args(),
    {
        let mut args = self.start();
        args.push(copy_str("list-sessions"));
        args.push(copy_str("-F"));
        args.push(copy_str("#S"));
        assert(views(args@) =~= socket_args(self.socket_name@) + list_args());
        args
    }

    /// The arguments that ask whether the session `name` exists. The answer
    /// is whether tmux succeeds.
    pub fn session_exists(&self, name: &str) -> (args: Vec<String>)
        ensures
            views(args@) == socket_args(self.socket_name@) + exists_args(name@),
    {
        let mut args = self.start();
        args.push(copy_str("has-session"));
        args.push(copy_str("-t"));
        args.push(copy_str(name));
        assert(views(args@) =~= socket_args(self.socket_name@) + exists_args(name@));
        args
    }

    /// The arguments that ask for the name of the current session.
    pub fn session_name(&self) -> (args: Vec<String>)
        ensures
            views(args@) == socket_args(self.socket_name@) + name_args(),
    {
        let mut args = self.start();
        args.push(copy_str("display-message"));
        args.push(copy_str("-p"));
        args.push(copy_str("#S"));
        assert(views(args@) =~= socket_args(self.socket_name@) + name_args());
        args
    }

    /// The arguments that create a detached session.
    pub fn create_session(&self, name: &str, path: &str, window_name: Option<&str>) -> (args: Vec<
        String,
    >)
        ensures
            views(args@) == socket_args(self.socket_name@) + create_args(
                name@,
                path@,
                opt_str_view(window_name),
            ),
    {
        let mut args = self.start();
        args.push(copy_str("new-session"));
        args.push(copy_str("-d"));
        args.push(copy_str("-s"));
        args.push(copy_str(name));
        args.push(copy_str("-c"));
        args.push(copy_str(path));
        if let Some(w) = window_name {
            args.push(copy_str("-n"));
            args.push(copy_str(w));
        }
        assert(views(args@) =~= socket_args(self.socket_name@) + create_args(
            name@,
            path@,
            opt_str_view(window_name),
        ));
        args
    }

    /// The arguments that bring the terminal to the session `name`.
    pub fn attach_session(&self, name: &str, inside: bool) -> (args: Vec<String>)
        ensures
            views(args@) == socket_args(self.socket_name@) + attach_args(name@, inside),
    {
        let mut args = self.start();
        if inside {
            args.push(copy_str("switch-client"));
        } else {
            args.push(copy_str("attach-session"));
        }
        args.push(copy_str("-t"));
        args.push(copy_str(name));
        assert(views(args@) =~= socket_args(self.socket_name@) + attach_args(name@, inside));
        args
    }

    /// The arguments that end the session `name`.
    pub fn kill_session(&self, name: &str) -> (args: Vec<String>)
        ensures
            views(args@) == socket_args(self.socket_name@) + kill_args(name@),
    {
        let mut args = self.start();
        args.push(copy_str("kill-session"));
        args.push(copy_str("-t"));
        args.push(copy_str(name));
        assert(views(args@) =~= socket_args(self.socket_name@) + kill_args(name@));
        args
    }

    /// The arguments that open a window in the current session.
    pub fn create_window(&self, name: &str, path: Option<&str>) -> (args: Vec<String>)
        ensures
            views(args@) == socket_args(self.socket_name@) + window_args(name@, opt_str_view(path)),
    {
        let mut args = self.start();
        args.push(copy_str("new-window"));
        args.push(copy_str("-n"));
        args.push(copy_str(name));
        if let Some(p) = path {
            args.push(copy_str("-c"));
            args.push(copy_str(p));
        }
        assert(views(args@) =~= socket_args(self.socket_name@) + window_args(
            name@,
            opt_str_view(path),
        ));
        args
    }

    /// The arguments that type `command` into the target, then Enter.
    pub fn send_command(&self, name: &str, command: &str) -> (args: Vec<String>)
        ensures
            views(args@) == socket_args(self.socket_name@) + send_args(name@, command@),
    {
        let mut args = self.start();
        args.push(copy_str("send-keys"));
        args.push(copy_str("-t"));
        args.push(copy_str(name));
        args.push(copy_str(command));
        args.push(copy_str("Enter"));
        assert(views(args@) =~= socket_args(self.socket_name@) + send_args(name@, command@));
        args
    }

    /// The arguments for an operation.
    pub fn arguments(&self, op: &MuxOp, inside: bool) -> (args: Vec<String>)
        ensures
            views(args@) == socket_args(self.socket_name@) + op_args(op@, inside),
    {
        match op {
            MuxOp::CreateSession { name, cwd, window } => {
                let w: Option<&str> = match window {
                    Some(s) => Some(s.as_str()),
                    None => None,
                };
                self.create_session(name.as_str(), cwd.as_str(), w)
            },
            MuxOp::CreateWindow { name, path } => {
                let c: Option<&str> = match path {
                    Some(s) => Some(s.as_str()),
                    None => None,
                };
                self.create_window(name.as_str(), c)
            },
            MuxOp::AttachSession { name } => self.attach_session(name.as_str(), inside),
            MuxOp::KillSession { name } => self.kill_session(name.as_str()),
            MuxOp::SendCommand { target, command } => self.send_command(
                target.as_str(),
                command.as_str(),
            ),
        }
    }

    /// The names of the sessions in what `list-sessions` printed: one per
    /// line, in the order printed.
    pub fn parse_sessions(output: &str) -> (names: Vec<String>)
        ensures
            views(names@) == lines_of(output@),
    {
        Jumplist::lines(output)
    }

    /// The name of the current session: the first line of what
    /// `display-message` printed, and `None` where tmux failed or printed
    /// nothing.
    pub fn parse_session_name(success: bool, output: &str) -> (name: Option<String>)
        ensures
            match name {
                Some(n) => success && first_line(output@) == Some(n@),
                None => !success || first_line(output@) is None,
            },
    {
        if !success {
            return None;
        }
        let mut lines = Jumplist::lines(output);
        if lines.len() == 0 {
            None
        } else {
            Some(lines.swap_remove(0))
        }
    }
}

} // verus!
