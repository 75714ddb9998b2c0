//! The `list` command: how the sessions are shown.

use vstd::prelude::*;
use crate::text::{append_chars, chars_of, decimal, push_decimal, string_from_chars, views};

verus! {

/// A session with the number of clients attached to it.
#[derive(Debug, PartialEq, Eq)]
pub struct SessionInfo {
    pub name: String,
    pub attached: usize,
}

/// The length of the longest of the first `n` names.
pub open spec fn widest(names: Seq<Seq<char>>, n: nat) -> nat
    decreases n,
{
    if n == 0 || n > names.len() {
        0
    } else {
        let before = widest(names, (n - 1) as nat);
        if names[n - 1].len() > before {
            names[n - 1].len()
        } else {
            before
        }
    }
}

/// `name` followed by spaces up to `width` characters; a longer name stays
/// as it is.
pub open spec fn padded(name: Seq<char>, width: nat) -> Seq<char> {
    if name.len() >= width {
        name
    } else {
        name + Seq::new((width - name.len()) as nat, |i: int| ' ')
    }
}

/// The column before a name: the number of attached clients, or a space
/// where there is none; then a space.
pub open spec fn count_column(attached: nat) -> Seq<char> {
    if attached > 0 {
        decimal(attached).push(' ')
    } else {
        seq![' ', ' ']
    }
}

fn pad(name: &str, width: usize, line: &mut Vec<char>)
    ensures
        final(line)@ == old(line)@ + padded(name@, width as nat),
{
    let chars = chars_of(name);
    append_chars(line, &chars);
    let ghost base = old(line)@;
    let mut k: usize = chars.len();
    if k >= width {
        return ;
    }
    let ghost fill = Seq::new((width - chars.len()) as nat, |i: int| ' ');
    assert(line@ =~= base + chars@ + fill.take(0));
    while k < width
        invariant
            chars.len() <= k <= width,
            fill == Seq::new((width - chars.len()) as nat, |i: int| ' '),
            line@ == base + chars@ + fill.take(k - chars.len()),
        decreases width - k,
    {
        line.push(' ');
        assert(fill.take(k + 1 - chars.len()) =~= fill.take(k - chars.len()).push(' '));
        k += 1;
    }
    assert(fill.take(width - chars.len()) =~= fill);
    assert(line@ =~= base + (chars@ + fill));
}

/// The length of the longest name.
pub fn longest(names: &Vec<String>) -> (w: usize)
    ensures
        w == widest(views(names@), names@.len()),
{
    let mut w: usize = 0;
    let mut i: usize = 0;
    while i < names.len()
        invariant
            i <= names.len(),
            w == widest(views(names@), i as nat),
        decreases names.len() - i,
    {
        let n = chars_of(names[i].as_str()).len();
        if n > w {
            w = n;
        }
        i += 1;
    }
    w
}

/// One line for each session: its name, followed by spaces to the width of
/// the longest name.
pub fn render(names: &Vec<String>) -> (lines: Vec<String>)
    ensures
        lines.len() == names.len(),
        forall|i: int|
            0 <= i < names.len() ==> (#[trigger] lines@[i])@ == padded(
                names@[i]@,
                widest(views(names@), names@.len()),
            ),
{
    let width = longest(names);
    let mut lines: Vec<String> = Vec::new();
    let mut i: usize = 0;
    while i < names.len()
        invariant
            i <= names.len(),
            lines.len() == i,
            width == widest(views(names@), names@.len()),
            forall|k: int|
                0 <= k < i ==> (#[trigger] lines@[k])@ == padded(names@[k]@, width as nat),
        decreases names.len() - i,
    {
        let mut line: Vec<char> = Vec::new();
        pad(names[i].as_str(), width, &mut line);
        assert(line@ =~= padded(names@[i as int]@, width as nat));
        lines.push(string_from_chars(&line));
        i += 1;
    }
    lines
}

/// The names of the sessions.
pub fn names_of(sessions: &Vec<SessionInfo>) -> (names: Vec<String>)
    ensures
        names.len() == sessions.len(),
        forall|i: int| 0 <= i < sessions.len() ==> (#[trigger] names@[i])@ == sessions@[i].name@,
{
    let mut names: Vec<String> = Vec::new();
    let mut i: usize = 0;
    while i < sessions.len()
        invariant
            i <= sessions.len(),
            names.len() == i,
            forall|k: int| 0 <= k < i ==> (#[trigger] names@[k])@ == sessions@[k].name@,
        decreases sessions.len() - i,
    {
        names.push(crate::text::copy_str(sessions[i].name.as_str()));
        i += 1;
    }
    names
}

/// One line for each session where the backend tells how many clients are
/// attached: that number or a space, a space, and the name followed by
/// spaces to the width of the longest name.
pub fn render_with_counts(sessions: &Vec<SessionInfo>) -> (lines: Vec<String>)
    ensures
        lines.len() == sessions.len(),
        forall|i: int|
            0 <= i < sessions.len() ==> (#[trigger] lines@[i])@ == count_column(
                sessions@[i].attached as nat,
            ) + padded(
                sessions@[i].name@,
                widest(
                    Seq::new(sessions@.len(), |k: int| sessions@[k].name@),
                    sessions@.len(),
                ),
            ),
{
    let names = names_of(sessions);
    let ghost all = Seq::new(sessions@.len(), |k: int| sessions@[k].name@);
    assert(views(names@) =~= all);
    let width = longest(&names);
    let mut lines: Vec<String> = Vec::new();
    let mut i: usize = 0;
    while i < sessions.len()
        invariant
            i <= sessions.len(),
            lines.len() == i,
            width == widest(all, sessions@.len()),
            forall|k: int|
                0 <= k < i ==> (#[trigger] lines@[k])@ == count_column(
                    sessions@[k].attached as nat,
                ) + padded(sessions@[k].name@, width as nat),
        decreases sessions.len() - i,
    {
        let s = &sessions[i];
        let mut line: Vec<char> = Vec::new();
        if s.attached > 0 {
            push_decimal(s.attached, &mut line);
            line.push(' ');
        } else {
            line.push(' ');
            line.push(' ');
        }
        assert(line@ =~= count_column(s.attached as nat));
        pad(s.name.as_str(), width, &mut line);
        lines.push(string_from_chars(&line));
        i += 1;
    }
    lines
}

} // verus!
