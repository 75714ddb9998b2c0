//! The `wcmd` command: which window a command line is typed into.

use vstd::prelude::*;
use crate::cmd::cli::Wcmd;
use crate::mux::{op_views, MuxOp, MuxOpView};
use crate::text::{append_chars, chars_of, join, join_strings, string_from_chars, views};
use crate::util::{session_name, session_name_of};

verus! {

/// Why `wcmd` gave up.
#[derive(Debug, PartialEq, Eq, Structural)]
pub enum WcmdError {
    /// The terminal is in no session.
    NoCurrentSession,
    /// The window was given as a path without a final component.
    NoWindowName,
}

/// The name of the window: the final component of what was given, with
/// every `.` replaced by `_`.
pub open spec fn window_name_of(window: Seq<char>) -> Option<Seq<char>> {
    session_name_of(window)
}

/// The target of the keys: the session, a colon, and the window.
pub open spec fn target_of(session: Seq<char>, window: Seq<char>) -> Seq<char> {
    session + seq![':'] + window
}

/// What is typed: the words joined by single spaces.
pub open spec fn command_of(cmds: Seq<Seq<char>>) -> Seq<char> {
    join(cmds, " "@)
}

/// The operations: a window of that name where the target is not there
/// yet, then the command typed into the target.
pub open spec fn planned(exists: bool, session: Seq<char>, window: Seq<char>, cmds: Seq<
    Seq<char>,
>) -> Seq<MuxOpView> {
    let send = MuxOpView::SendCommand {
        target: target_of(session, window),
        command: command_of(cmds),
    };
    if exists {
        seq![send]
    } else {
        seq![MuxOpView::CreateWindow { name: window, path: None }, send]
    }
}

impl Wcmd {
    /// The name of the window.
    pub fn window_name(&self) -> (r: Result<String, WcmdError>)
        ensures
            match r {
                Ok(n) => window_name_of(self.window@) == Some(n@),
                Err(e) => e == WcmdError::NoWindowName && window_name_of(self.window@) is None,
            },
    {
        match session_name(self.window.as_str()) {
            Some(n) => Ok(n),
            None => Err(WcmdError::NoWindowName),
        }
    }

    /// The target to look for, given the name of the current session.
    pub fn target(&self, session: Option<&str>) -> (r: Result<String, WcmdError>)
        ensures
            match r {
                Ok(t) => session matches Some(s) && window_name_of(self.window@) matches Some(w)
                    && t@ == target_of(s@, w),
                Err(e) => match session {
                    None => e == WcmdError::NoCurrentSession,
                    Some(_) => e == WcmdError::NoWindowName && window_name_of(self.window@) is None,
                },
            },
    {
        let s = match session {
            Some(s) => s,
            None => {
                return Err(WcmdError::NoCurrentSession);
            },
        };
        let w = match self.window_name() {
            Ok(w) => w,
            Err(e) => {
                return Err(e);
            },
        };
        let mut out = chars_of(s);
        out.push(':');
        let wc = chars_of(w.as_str());
        append_chars(&mut out, &wc);
        assert(out@ =~= target_of(s@, w@));
        Ok(string_from_chars(&out))
    }

    /// The operations, given the name of the current session and whether the
    /// target is there already.
    pub fn plan(&self, session: Option<&str>, exists: bool) -> (r: Result<Vec<MuxOp>, WcmdError>)
        ensures
            match r {
                Ok(ops) => session matches Some(s) && window_name_of(self.window@) matches Some(w)
                    && op_views(ops@) == planned(exists, s@, w, views(self.cmds@)),
                Err(e) => match session {
                    None => e == WcmdError::NoCurrentSession,
                    Some(_) => e == WcmdError::NoWindowName && window_name_of(self.window@) is None,
                },
            },
    {
        let target = match self.target(session) {
            Ok(t) => t,
            Err(e) => {
                return Err(e);
            },
        };
        let mut ops: Vec<MuxOp> = Vec::new();
        if !exists {
            match self.window_name() {
                Ok(w) => {
                    ops.push(MuxOp::CreateWindow { name: w, path: None });
                },
                Err(e) => {
                    return Err(e);
                },
            }
        }
        let ghost before = op_views(ops@);
        let command = join_strings(&self.cmds, " ");
        let ghost send = MuxOpView::SendCommand { target: target@, command: command@ };
        ops.push(MuxOp::SendCommand { target, command });
        assert(op_views(ops@) =~= before.push(send));
        assert(op_views(ops@) =~= planned(
            exists,
            session->0@,
            window_name_of(self.window@)->0,
            views(self.cmds@),
        ));
        Ok(ops)
    }
}

} // verus!
