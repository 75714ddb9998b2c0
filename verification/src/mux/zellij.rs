//! The zellij backend.

use vstd::prelude::*;
use vstd::slice::slice_to_vec;
use vstd::utf8::encode_utf8;
use crate::jumplist::{lines_of, Jumplist};
use crate::mux::{session_listed, MuxOp, MuxOpView};
use crate::text::{
    chars_of, copy_str, decimal, decimal_of, opt_str_view, string_from_chars, strip_suffix_all,
    views, without_suffix,
};

verus! {

/// zellij.
#[derive(Debug, Clone, Copy, PartialEq, Eq)]
pub struct Zellij;

/// The arguments to list the sessions.
pub open spec fn list_args() -> Seq<Seq<char>> {
    seq!["list-sessions"@]
}

/// The arguments for a session that is created without attaching to it, its
/// shell started in `cwd`.
pub open spec fn create_args(name: Seq<char>, cwd: Seq<char>) -> Seq<Seq<char>> {
    seq![
        "attach"@,
        name,
        "--create"@,
        "options"@,
        "--attach-to-session"@,
        "false"@,
        "--default-cwd"@,
        cwd,
    ]
}

/// The arguments that bring the terminal to a session.
pub open spec fn attach_args(name: Seq<char>) -> Seq<Seq<char>> {
    seq!["attach"@, name]
}

/// The arguments that end a session.
pub open spec fn kill_args(name: Seq<char>) -> Seq<Seq<char>> {
    seq!["kill-session"@, name]
}

/// The arguments for a tab in the current session.
pub open spec fn window_args(name: Seq<char>, cwd: Option<Seq<char>>) -> Seq<Seq<char>> {
    seq!["action"@, "new-tab"@, "--name"@, name] + match cwd {
        Some(c) => seq!["--cwd"@, c],
        None => Seq::<Seq<char>>::empty(),
    }
}

/// Each byte written as a decimal number.
pub open spec fn byte_words(bytes: Seq<u8>) -> Seq<Seq<char>> {
    Seq::new(bytes.len(), |i: int| decimal(bytes[i] as nat))
}

/// The arguments that write a text into a session byte by byte, then the
/// byte 13 for Enter.
pub open spec fn send_args(target: Seq<char>, command: Seq<char>) -> Seq<Seq<char>> {
    seq!["--session"@, target, "action"@, "write"@] + byte_words(encode_utf8(command)) + seq![
        "13"@,
    ]
}

/// The arguments for an operation.
pub open spec fn op_args(op: MuxOpView) -> Seq<Seq<char>> {
    match op {
        MuxOpView::CreateSession { name, cwd, .. } => create_args(name, cwd),
        MuxOpView::CreateWindow { name, path } => window_args(name, path),
        MuxOpView::AttachSession { name } => attach_args(name),
        MuxOpView::KillSession { name } => kill_args(name),
        MuxOpView::SendCommand { target, command } => send_args(target, command),
    }
}

/// The session names in what `list-sessions` printed: each line without the
/// mark of the current session at its end.
pub open spec fn session_names(output: Seq<char>) -> Seq<Seq<char>> {
    lines_of(output).map_values(|l: Seq<char>| without_suffix(l, " (current)"@))
}

impl Zellij {
    /// The arguments that list the sessions.
    pub fn list_sessions(&self) -> (args: Vec<String>)
        ensures
            views(args@) == list_args(),
    {
        let mut args: Vec<String> = Vec::new();
        args.push(copy_str("list-sessions"));
        assert(views(args@) =~= list_args());
        args
    }

    /// The session names in what `list-sessions` printed; none where zellij
    /// failed.
    pub fn parse_sessions(success: bool, output: &str) -> (names: Vec<String>)
        ensures
            views(names@) == if success {
                session_names(output@)
            } else {
                Seq::<Seq<char>>::empty()
            },
    {
        let mut names: Vec<String> = Vec::new();
        if !success {
            assert(views(names@) =~= Seq::<Seq<char>>::empty());
            return names;
        }
        let lines = Jumplist::lines(output);
        let mark = chars_of(" (current)");
        let mut i: usize = 0;
        while i < lines.len()
            invariant
                i <= lines.len(),
                names.len() == i,
                mark@ == " (current)"@,
                forall|k: int|
                    0 <= k < i ==> (#[trigger] names@[k])@ == without_suffix(
                        lines@[k]@,
                        " (current)"@,
                    ),
            decreases lines.len() - i,
        {
            let line = chars_of(lines[i].as_str());
            let name = strip_suffix_all(line, &mark);
            names.push(string_from_chars(&name));
            i += 1;
        }
        assert(views(names@) =~= session_names(output@));
        names
    }

    /// Whether a session named `name` is among those listed.
    pub fn session_exists(&self, sessions: &Vec<String>, name: &str) -> (r: bool)
        ensures
            r == views(sessions@).contains(name@),
    {
        session_listed(sessions, name)
    }

    /// The arguments that create a session without attaching to it.
    pub fn create_session(&self, name: &str, path: &str) -> (args: Vec<String>)
        ensures
            views(args@) == create_args(name@, path@),
    {
        let mut args: Vec<String> = Vec::new();
        args.push(copy_str("attach"));
        args.push(copy_str(name));
        args.push(copy_str("--create"));
        args.push(copy_str("options"));
        args.push(copy_str("--attach-to-session"));
        args.push(copy_str("false"));
        args.push(copy_str("--default-cwd"));
        args.push(copy_str(path));
        assert(views(args@) =~= create_args(name@, path@));
        args
    }

    /// The arguments that bring the terminal to the session `name`.
    pub fn attach_session(&self, name: &str) -> (args: Vec<String>)
        ensures
            views(args@) == attach_args(name@),
    {
        let mut args: Vec<String> = Vec::new();
        args.push(copy_str("attach"));
        args.push(copy_str(name));
        assert(views(args@) =~= attach_args(name@));
        args
    }

    /// The arguments that end the session `name`.
    pub fn kill_session(&self, name: &str) -> (args: Vec<String>)
        ensures
            views(args@) == kill_args(name@),
    {
        let mut args: Vec<String> = Vec::new();
        args.push(copy_str("kill-session"));
        args.push(copy_str(name));
        assert(views(args@) =~= kill_args(name@));
        args
    }

    /// The arguments that open a tab in the current session.
    pub fn create_window(&self, name: &str, path: Option<&str>) -> (args: Vec<String>)
        ensures
            views(args@) == window_args(name@, opt_str_view(path)),
    {
        let mut args: Vec<String> = Vec::new();
        args.push(copy_str("action"));
        args.push(copy_str("new-tab"));
        args.push(copy_str("--name"));
        args.push(copy_str(name));
        if let Some(p) = path {
            args.push(copy_str("--cwd"));
            args.push(copy_str(p));
        }
        assert(views(args@) =~= window_args(name@, opt_str_view(path)));
        args
    }

    /// The arguments that write `command` into the session `name`, then
    /// Enter.
    pub fn send_command(&self, name: &str, command: &str) -> (args: Vec<String>)
        ensures
            views(args@) == send_args(name@, command@),
    {
        let mut args: Vec<String> = Vec::new();
        args.push(copy_str("--session"));
        args.push(copy_str(name));
        args.push(copy_str("action"));
        args.push(copy_str("write"));
        let ghost head = views(args@);
        assert(head =~= seq!["--session"@, name@, "action"@, "write"@]);
        let bytes = slice_to_vec(command.as_bytes());
        let ghost words = byte_words(bytes@);
        let mut i: usize = 0;
        while i < bytes.len()
            invariant
                i <= bytes.len(),
                words == byte_words(bytes@),
                views(args@) == head + words.take(i as int),
            decreases bytes.len() - i,
        {
            let ghost before = views(args@);
            let b: u8 = bytes[i];
            args.push(decimal_of(b as usize));
            assert(views(args@) =~= before.push(words[i as int]));
            assert(words.take(i + 1) =~= words.take(i as int).push(words[i as int]));
            i += 1;
        }
        assert(words.take(bytes.len() as int) =~= words);
        let ghost before = views(args@);
        args.push(copy_str("13"));
        assert(views(args@) =~= before.push("13"@));
        assert(views(args@) =~= send_args(name@, command@));
        args
    }

    /// The arguments for an operation.
    pub fn arguments(&self, op: &MuxOp) -> (args: Vec<String>)
        ensures
            views(args@) == op_args(op@),
    {
        match op {
            MuxOp::CreateSession { name, cwd, window } => self.create_session(
                name.as_str(),
                cwd.as_str(),
            ),
            MuxOp::CreateWindow { name, path } => {
                let c: Option<&str> = match path {
                    Some(s) => Some(s.as_str()),
                    None => None,
                };
                self.create_window(name.as_str(), c)
            },
            MuxOp::AttachSession { name } => self.attach_session(name.as_str()),
            MuxOp::KillSession { name } => self.kill_session(name.as_str()),
            MuxOp::SendCommand { target, command } => self.send_command(
                target.as_str(),
                command.as_str(),
            ),
        }
    }
}

} // verus!
