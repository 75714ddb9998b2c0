//! Validated settings of one invocation.

use vstd::prelude::*;
use indexmap::IndexSet;
use crate::mux::MuxKind;
use crate::text::{views, opt_str_view, chars_of, copy_str};
use crate::config::exclude::{set_items, set_new, set_insert};

pub mod document;
pub mod emit;
pub mod error;
pub mod exclude;
pub mod fraction;
pub mod parser;
pub mod source;

pub use error::ParseError;
pub use fraction::{fraction_in_range, HALF_BITS, ONE_BITS};
pub use parser::Parser;
pub use source::Source;

verus! {

/// Where candidates come from: roots that are walked, and paths that are
/// taken as they are.
#[derive(Debug, PartialEq, Eq)]
pub struct SearchPath {
    pub workspace: Vec<String>,
    pub single: Vec<String>,
}

/// How much of the terminal the picker takes. The fraction of `Percentage`
/// is held as the bit pattern of a single-precision number.
#[derive(Debug, Clone, Copy, PartialEq, Eq, Structural)]
pub enum Mode {
    Full,
    Lines(u16),
    Percentage(u32),
}

/// What to do with a repository that has several worktrees.
#[derive(Debug, Clone, Copy, PartialEq, Eq, Structural)]
pub enum WorktreeMode {
    Prompt,
    Default,
    All,
}

/// The settings.
#[derive(Debug, PartialEq, Eq)]
pub struct Config {
    pub search: SearchPath,
    pub exclude_path: IndexSet<String>,
    pub depth: usize,
    pub mode: Mode,
    pub default_worktree: bool,
    pub worktree_mode: WorktreeMode,
    pub mux: MuxKind,
    pub project_markers: Vec<String>,
}

/// The settings as mathematical values.
pub struct ConfigView {
    pub workspace: Seq<Seq<char>>,
    pub single: Seq<Seq<char>>,
    pub excludes: Seq<Seq<char>>,
    pub depth: nat,
    pub mode: Mode,
    pub default_worktree: bool,
    pub worktree_mode: WorktreeMode,
    pub mux: MuxKind,
    pub markers: Seq<Seq<char>>,
}

impl View for Config {
    type V = ConfigView;

    open spec fn view(&self) -> ConfigView {
        ConfigView {
            workspace: views(self.search.workspace@),
            single: views(self.search.single@),
            excludes: set_items(self.exclude_path),
            depth: self.depth as nat,
            mode: self.mode,
            default_worktree: self.default_worktree,
            worktree_mode: self.worktree_mode,
            mux: self.mux,
            markers: views(self.project_markers@),
        }
    }
}

impl Mode {
    /// A picker mode that the settings may hold: at least one line, or a
    /// fraction above zero and at most one.
    pub open spec fn valid(self) -> bool {
        match self {
            Mode::Full => true,
            Mode::Lines(n) => n >= 1,
            Mode::Percentage(bits) => 0 < bits <= ONE_BITS,
        }
    }
}

/// `input` with a leading `~` replaced by the home directory, where the `~`
/// stands alone or before a `/` and the home directory is known.
pub open spec fn tilde_expanded(input: Seq<char>, home: Option<Seq<char>>) -> Seq<char> {
    if input.len() > 0 && input[0] == '~' && (input.len() == 1 || input[1] == '/') {
        match home {
            Some(h) => h + input.subrange(1, input.len() as int),
            None => input,
        }
    } else {
        input
    }
}

/// A `~` followed by a backslash: expanded only where the backslash
/// separates path components.
pub open spec fn tilde_before_backslash(input: Seq<char>) -> bool {
    input.len() >= 2 && input[0] == '~' && input[1] == '\\'
}

/// Expands a leading `~` against `home`.
///
/// Trusted: `shellexpand::tilde_with_context` strips a leading `~`; if what
/// follows is empty or starts with `/`, and the closure yields a home
/// directory, the result is that directory followed by the rest, else the
/// input. Where a backslash follows the `~`, a build for Windows expands alike
/// and all others return the input.
#[verifier::external_body]
fn tilde_with_home(input: &str, home: Option<&str>) -> (r: String)
    ensures
        !tilde_before_backslash(input@) ==> r@ == tilde_expanded(input@, opt_str_view(home)),
        tilde_before_backslash(input@) ==> r@ == input@ || (home matches Some(h) && r@ == h@
            + input@.subrange(1, input@.len() as int)),
{
    shellexpand::tilde_with_context(input, || home).into_owned()
}

/// Expands a leading `~` of a path against the home directory. A `~` before
/// a backslash is never expanded.
pub fn expand_home(input: &str, home: Option<&str>) -> (r: String)
    ensures
        r@ == tilde_expanded(input@, opt_str_view(home)),
{
    let chars = chars_of(input);
    if chars.len() >= 2 && chars[0] == '~' && chars[1] == '\\' {
        return copy_str(input);
    }
    tilde_with_home(input, home)
}

/// The names that are excluded unless the settings say otherwise.
pub open spec fn default_excludes() -> Seq<Seq<char>> {
    seq!["node_modules"@, ".direnv"@, ".cache"@, ".local"@]
}

/// The markers of a project root.
pub open spec fn default_markers() -> Seq<Seq<char>> {
    seq![".git"@, ".bare"@]
}

/// The settings that hold where no file says otherwise: the home directory
/// as the only root, depth 5, half of the terminal for the picker, tmux, and
/// prompting for worktrees.
pub open spec fn initial(home: Option<Seq<char>>) -> ConfigView {
    ConfigView {
        workspace: seq![tilde_expanded("~"@, home)],
        single: Seq::<Seq<char>>::empty(),
        excludes: default_excludes(),
        depth: 5,
        mode: Mode::Percentage(HALF_BITS),
        default_worktree: false,
        worktree_mode: WorktreeMode::Prompt,
        mux: MuxKind::Tmux,
        markers: default_markers(),
    }
}

impl Config {
    /// The settings that hold where no file says otherwise.
    pub fn new(home: Option<&str>) -> (c: Config)
        ensures
            c@ == initial(opt_str_view(home)),
    {
        proof {
            reveal_strlit("~");
        }
        let mut workspace: Vec<String> = Vec::new();
        workspace.push(expand_home("~", home));
        let mut excludes = set_new();
        proof {
            reveal_strlit("node_modules");
            reveal_strlit(".direnv");
            reveal_strlit(".cache");
            reveal_strlit(".local");
        }
        set_insert(&mut excludes, "node_modules".to_owned());
        assert(!set_items(excludes).contains(".direnv"@)) by {
            assert(set_items(excludes) =~= seq!["node_modules"@]);
            assert("node_modules"@.len() != ".direnv"@.len());
        }
        set_insert(&mut excludes, ".direnv".to_owned());
        assert(!set_items(excludes).contains(".cache"@)) by {
            assert(set_items(excludes) =~= seq!["node_modules"@, ".direnv"@]);
            assert("node_modules"@.len() != ".cache"@.len());
            assert(".direnv"@.len() != ".cache"@.len());
        }
        set_insert(&mut excludes, ".cache".to_owned());
        assert(!set_items(excludes).contains(".local"@)) by {
            assert(set_items(excludes) =~= seq!["node_modules"@, ".direnv"@, ".cache"@]);
            assert("node_modules"@.len() != ".local"@.len());
            assert(".direnv"@.len() != ".local"@.len());
            assert(".cache"@[1] != ".local"@[1]);
        }
        set_insert(&mut excludes, ".local".to_owned());
        let mut markers: Vec<String> = Vec::new();
        markers.push(".git".to_owned());
        markers.push(".bare".to_owned());
        let c = Config {
            search: SearchPath { workspace, single: Vec::new() },
            exclude_path: excludes,
            depth: 5,
            mode: Mode::Percentage(HALF_BITS),
            default_worktree: false,
            worktree_mode: WorktreeMode::Prompt,
            mux: MuxKind::Tmux,
            project_markers: markers,
        };
        assert(c@.workspace =~= seq![tilde_expanded("~"@, opt_str_view(home))]);
        assert(c@.single =~= Seq::<Seq<char>>::empty());
        assert(c@.excludes =~= default_excludes());
        assert(c@.markers =~= default_markers());
        c
    }
}

} // verus!
