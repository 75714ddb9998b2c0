//! The `kill` command: which sessions it ends and what it reports.

use vstd::prelude::*;
use crate::cmd::cli::Kill;
use crate::mux::{kill_sessions, MuxOp, MuxOpView};
use crate::text::{append_chars, chars_of, join, join_strings, opt_view, string_from_chars, views};

verus! {

/// What `kill` does with the sessions that exist.
#[derive(Debug, PartialEq, Eq)]
pub enum KillStep {
    /// End these sessions, in this order.
    Run(Vec<MuxOp>),
    /// Let the user pick among the sessions, the query set beforehand.
    Pick { items: Vec<String>, query: Option<String> },
}

/// The operations that end each of `names`, in order.
pub open spec fn kills(names: Seq<Seq<char>>) -> Seq<MuxOpView> {
    names.map_values(|n: Seq<char>| MuxOpView::KillSession { name: n })
}

/// The line that reports a session as ended.
pub open spec fn report_of(name: Seq<char>) -> Seq<char> {
    "Killed "@ + name
}

/// The query: the words joined by single spaces.
pub open spec fn query_of(words: Option<Vec<String>>) -> Option<Seq<char>> {
    match words {
        Some(w) => Some(join(views(w@), " "@)),
        None => None,
    }
}

impl Kill {
    /// What to do with the sessions that exist: end them all where all are
    /// asked for, else let the user pick.
    pub fn plan(&self, names: Vec<String>) -> (s: KillStep)
        ensures
            match s {
                KillStep::Run(ops) => self.all && crate::mux::op_views(ops@) == kills(views(names@)),
                KillStep::Pick { items, query } => !self.all && views(items@) == views(names@)
                    && opt_view(query) == query_of(self.query),
            },
    {
        if self.all {
            let ops = kill_sessions(&names);
            assert(crate::mux::op_views(ops@) =~= kills(views(names@)));
            KillStep::Run(ops)
        } else {
            let query = match &self.query {
                Some(words) => Some(join_strings(words, " ")),
                None => None,
            };
            KillStep::Pick { items: names, query }
        }
    }
}

/// The operations for what the user picked: the one session, or nothing
/// where the user gave up.
pub fn picked(choice: Option<String>) -> (ops: Vec<MuxOp>)
    ensures
        crate::mux::op_views(ops@) == match choice {
            Some(name) => kills(seq![name@]),
            None => Seq::<MuxOpView>::empty(),
        },
{
    let mut ops: Vec<MuxOp> = Vec::new();
    match choice {
        Some(name) => {
            ops.push(MuxOp::KillSession { name });
            assert(crate::mux::op_views(ops@) =~= kills(seq![name@]));
        },
        None => {
            assert(crate::mux::op_views(ops@) =~= Seq::<MuxOpView>::empty());
        },
    }
    ops
}

/// The line that reports the session `name` as ended.
pub fn report(name: &str) -> (line: String)
    ensures
        line@ == report_of(name@),
{
    let mut out = chars_of("Killed ");
    let n = chars_of(name);
    append_chars(&mut out, &n);
    string_from_chars(&out)
}

} // verus!
