//! Session resolution for a terminal multiplexer: turning directory paths into
//! named sessions.
//!
//! The library decides and computes; it neither reads the disk nor starts a
//! process. Whoever uses it reads directories, asks the multiplexer and shows
//! the picker, and hands over what was found. Every decision is stated as a
//! contract and proved.

pub mod cmd;
pub mod config;
pub mod data;
pub mod jumplist;
pub mod mux;
pub mod repo;
pub mod text;
pub mod ui;
pub mod util;
pub mod walker;
