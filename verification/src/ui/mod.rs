//! What the user sees and types.

pub mod picker;

pub use picker::Picker;
