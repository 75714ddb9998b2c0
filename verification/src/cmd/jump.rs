//! The `jump` command: what it is asked for, and what it does with the list.

use vstd::prelude::*;
use crate::cmd::cli::Jump;
use crate::jumplist::{added, position_of, serialized, Jumplist};
use crate::text::{append_chars, chars_of, decimal, opt_view, push_decimal, string_from_chars};
use crate::util::{session_name, session_name_of};

verus! {

/// What `jump` is asked for.
#[derive(Debug, PartialEq, Eq)]
pub enum JumpStep {
    /// Open the file of the list in the editor.
    Edit,
    /// Print the list.
    List,
    /// Go to the entry with this number, counted from one.
    Recall(usize),
    /// Add this path, or the current directory where none is given.
    Add(Option<String>),
}

/// A step as mathematical values.
pub enum JumpStepView {
    Edit,
    List,
    Recall(usize),
    Add(Option<Seq<char>>),
}

impl View for JumpStep {
    type V = JumpStepView;

    open spec fn view(&self) -> JumpStepView {
        match self {
            JumpStep::Edit => JumpStepView::Edit,
            JumpStep::List => JumpStepView::List,
            JumpStep::Recall(i) => JumpStepView::Recall(*i),
            JumpStep::Add(p) => JumpStepView::Add(opt_view(*p)),
        }
    }
}

/// Why nothing was added.
#[derive(Debug, PartialEq, Eq, Structural)]
pub enum JumpError {
    /// The path is not on disk.
    InvalidPath,
}

/// What is asked for: editing before listing, listing before recalling,
/// and adding where none of these is asked for.
pub open spec fn asked(edit: bool, list: bool, index: Option<usize>, path: Option<Seq<char>>)
    -> JumpStepView {
    if edit {
        JumpStepView::Edit
    } else if list {
        JumpStepView::List
    } else {
        match index {
            Some(i) => JumpStepView::Recall(i),
            None => JumpStepView::Add(path),
        }
    }
}

/// The line for the entry at position `i`: its number, counted from one,
/// a colon, a space, and the entry.
pub open spec fn numbered(i: nat, entry: Seq<char>) -> Seq<char> {
    decimal(i + 1) + seq![':', ' '] + entry
}

/// The session to go to for the number a user gave: the name for the entry
/// and the entry itself. `None` where the list has no such entry or the
/// entry gives no name.
pub open spec fn target_of(list: Seq<Seq<char>>, number: nat) -> Option<(Seq<char>, Seq<char>)> {
    if position_of(number) < list.len() {
        match session_name_of(list[position_of(number) as int]) {
            Some(name) => Some((name, list[position_of(number) as int])),
            None => None,
        }
    } else {
        None
    }
}

impl Jump {
    /// What is asked for.
    pub fn first_step(&self) -> (s: JumpStep)
        ensures
            s@ == asked(self.edit, self.list, self.index, opt_view(self.path)),
    {
        if self.edit {
            JumpStep::Edit
        } else if self.list {
            JumpStep::List
        } else {
            match self.index {
                Some(i) => JumpStep::Recall(i),
                None => match &self.path {
                    Some(p) => JumpStep::Add(Some(crate::text::copy_str(p.as_str()))),
                    None => JumpStep::Add(None),
                },
            }
        }
    }
}

/// The lines that show the list.
pub fn listing(list: &Jumplist) -> (lines: Vec<String>)
    ensures
        lines.len() == list@.len(),
        forall|i: int| 0 <= i < list@.len() ==> (#[trigger] lines@[i])@ == numbered(i as nat, list@[i]),
{
    let mut lines: Vec<String> = Vec::new();
    let mut i: usize = 0;
    while i < list.0.len()
        invariant
            i <= list.0.len(),
            lines.len() == i,
            forall|k: int| 0 <= k < i ==> (#[trigger] lines@[k])@ == numbered(k as nat, list@[k]),
        decreases list.0.len() - i,
    {
        let mut line: Vec<char> = Vec::new();
        push_decimal(i + 1, &mut line);
        line.push(':');
        line.push(' ');
        let entry = chars_of(list.0[i].as_str());
        append_chars(&mut line, &entry);
        assert(line@ =~= numbered(i as nat, list@[i as int]));
        lines.push(string_from_chars(&line));
        i += 1;
    }
    lines
}

/// The session to go to for the number a user gave: its name and its
/// directory.
pub fn target(list: &Jumplist, number: usize) -> (r: Option<(String, String)>)
    ensures
        match r {
            Some(t) => target_of(list@, number as nat) == Some((t.0@, t.1@)),
            None => target_of(list@, number as nat) is None,
        },
{
    match list.recall(number) {
        Some(entry) => match session_name(entry) {
            Some(name) => Some((name, crate::text::copy_str(entry))),
            None => None,
        },
        None => None,
    }
}

/// Adds a path to the list and gives the text for the file. `canonical` is
/// the path in its canonical form, `on_disk` whether it is there. A path
/// that is not on disk is refused and leaves the list as it is.
pub fn add(list: &mut Jumplist, on_disk: bool, canonical: String) -> (r: Result<String, JumpError>)
    ensures
        match r {
            Ok(text) => on_disk && final(list)@ == added(old(list)@, canonical@) && text@
                == serialized(final(list)@),
            Err(e) => !on_disk && e == JumpError::InvalidPath && final(list)@ == old(list)@,
        },
{
    if !on_disk {
        return Err(JumpError::InvalidPath);
    }
    list.add(canonical);
    Ok(list.write())
}

} // verus!
