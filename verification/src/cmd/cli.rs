//! What the command line asks for, as plain values, and how the first
//! argument decides which command is meant.

use vstd::prelude::*;
use crate::text::{chars_of, copy_str, has_prefix, same_str, starts_with, views};

verus! {

/// The whole command line.
#[derive(Debug, PartialEq, Eq)]
pub struct Cli {
    pub command: Option<Cmd>,
    /// Print the built-in configuration and leave.
    pub default_config: bool,
    /// Open the global configuration in the editor.
    pub edit: bool,
    /// Open the local configuration in the editor.
    pub local: bool,
}

/// One of the commands.
#[derive(Debug, PartialEq, Eq)]
pub enum Cmd {
    Attach(Attach),
    Jump(Jump),
    Kill(Kill),
    List(List),
    Wcmd(Wcmd),
}

/// Create a session for a directory, or attach to the one it has.
#[derive(Debug, PartialEq, Eq)]
pub struct Attach {
    /// Choose among the sessions that exist.
    pub exists: bool,
    /// Take the worktree of the default branch without asking.
    pub default: bool,
    /// Open a window for every worktree.
    pub all: bool,
    /// The directory, in place of a search.
    pub path: Option<String>,
    /// Words to search for.
    pub query: Option<Vec<String>>,
}

/// Keep a list of paths and go to one of them by its number.
#[derive(Debug, PartialEq, Eq)]
pub struct Jump {
    pub edit: bool,
    pub list: bool,
    pub index: Option<usize>,
    pub path: Option<String>,
}

/// End sessions.
#[derive(Debug, PartialEq, Eq)]
pub struct Kill {
    pub all: bool,
    pub exact: bool,
    pub query: Option<Vec<String>>,
}

/// Show the sessions, or all candidates.
#[derive(Debug, PartialEq, Eq)]
pub struct List {
    pub all: bool,
}

/// Type a command into a window of the current session.
#[derive(Debug, PartialEq, Eq)]
pub struct Wcmd {
    pub window: String,
    pub cmds: Vec<String>,
}

/// What the arguments of the program call for before they are parsed.
#[derive(Debug, PartialEq, Eq)]
pub enum Entry {
    /// A lone `.`: a session for the current directory.
    UseCwd,
    /// Parse these arguments.
    Parse(Vec<String>),
}

/// A word that names a command.
pub open spec fn is_command(word: Seq<char>) -> bool {
    word == "attach"@ || word == "a"@ || word == "completion"@ || word == "jump"@ || word == "j"@
        || word == "kill"@ || word == "k"@ || word == "list"@ || word == "ls"@ || word == "wcmd"@
        || word == "w"@
}

/// A word that asks for help or for the version.
pub open spec fn is_help_or_version(word: Seq<char>) -> bool {
    word == "--help"@ || word == "-h"@ || word == "-V"@ || word == "--version"@
}

/// A first word that is taken as it stands: a command, a long option, or a
/// call for help or the version. Any other first word belongs to `attach`.
pub open spec fn stands(word: Seq<char>) -> bool {
    is_command(word) || is_help_or_version(word) || starts_with(word, "--"@)
}

/// The arguments as they are parsed: with `attach` after the program's name
/// where there is no first word or the first word does not stand by itself.
pub open spec fn completed(args: Seq<Seq<char>>) -> Seq<Seq<char>> {
    if args.len() < 2 {
        args.push("attach"@)
    } else if stands(args[1]) {
        args
    } else {
        args.insert(1, "attach"@)
    }
}

/// Whether `word` names a command.
pub fn names_command(word: &str) -> (r: bool)
    ensures
        r == is_command(word@),
{
    same_str(word, "attach") || same_str(word, "a") || same_str(word, "completion") || same_str(
        word,
        "jump",
    ) || same_str(word, "j") || same_str(word, "kill") || same_str(word, "k") || same_str(
        word,
        "list",
    ) || same_str(word, "ls") || same_str(word, "wcmd") || same_str(word, "w")
}

/// Whether the first word is taken as it stands.
pub fn first_word_stands(word: &str) -> (r: bool)
    ensures
        r == stands(word@),
{
    if names_command(word) {
        return true;
    }
    if same_str(word, "--help") || same_str(word, "-h") || same_str(word, "-V") || same_str(
        word,
        "--version",
    ) {
        return true;
    }
    let w = chars_of(word);
    let dashes = chars_of("--");
    has_prefix(&w, &dashes)
}

/// What the arguments of the program, its name first, call for. A lone `.`
/// as the first word asks for the current directory. Else the arguments are
/// parsed, with `attach` put in where no command is named.
pub fn first_step(args: Vec<String>) -> (e: Entry)
    ensures
        match e {
            Entry::UseCwd => args@.len() >= 2 && args@[1]@ == seq!['.'],
            Entry::Parse(v) => !(args@.len() >= 2 && args@[1]@ == seq!['.']) && views(v@)
                == completed(views(args@)),
        },
{
    let mut args = args;
    let ghost before = views(args@);
    if args.len() < 2 {
        args.push(copy_str("attach"));
        assert(views(args@) =~= before.push("attach"@));
        return Entry::Parse(args);
    }
    if crate::util::is_dot(args[1].as_str()) {
        return Entry::UseCwd;
    }
    if first_word_stands(args[1].as_str()) {
        return Entry::Parse(args);
    }
    args.insert(1, copy_str("attach"));
    assert(views(args@) =~= before.insert(1, "attach"@));
    Entry::Parse(args)
}

} // verus!
