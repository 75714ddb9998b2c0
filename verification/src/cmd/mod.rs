//! The commands: what each of them decides.

pub mod attach;
pub mod cli;
pub mod jump;
pub mod kill;
pub mod list;
pub mod wcmd;

pub use cli::{Attach, Cli, Cmd, Jump, Kill, List, Wcmd};
